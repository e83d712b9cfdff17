//! The actions of GitHub workflows: what a reference in a workflow refers to, what a remote
//! action's metadata says that it is, and how the metadata is fetched and cached.
//!
//! Fetching is a machine ([`fetch::Fetch`], and [`resolve::Resolution`] around it) that sets one
//! task after the other and is told how each went. The caller does the input and output.

pub mod action;
pub mod cache;
pub mod fetch;
pub mod http;
pub mod resolve;
pub mod text;
pub mod workflow;
pub mod yaml;
