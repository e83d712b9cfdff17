use wrkflw_actions::workflow::{
    deserialize_needs, deserialize_runs_on, normalize_triggers, parse_workflow, StringOrVec,
    WorkflowDefinition, WorkflowInput,
};
use wrkflw_actions::yaml::Yaml;

#[test]
fn resolve_action_parses_version() {
    let wd = WorkflowDefinition {
        name: String::new(),
        on: vec![],
        on_raw: Yaml::Null,
        jobs: Default::default(),
    };
    let info = wd.resolve_action("actions/checkout@v4");
    assert_eq!(info.repository, "actions/checkout");
    assert_eq!(info.version, "v4");
    assert!(!info.is_docker);
    assert!(!info.is_local);
}

#[test]
fn resolve_action_defaults_version_to_main() {
    let wd = WorkflowDefinition {
        name: String::new(),
        on: vec![],
        on_raw: Yaml::Null,
        jobs: Default::default(),
    };
    let info = wd.resolve_action("owner/repo");
    assert_eq!(info.repository, "owner/repo");
    assert_eq!(info.version, "main");
}

#[test]
fn resolve_action_docker_reference() {
    let wd = WorkflowDefinition {
        name: String::new(),
        on: vec![],
        on_raw: Yaml::Null,
        jobs: Default::default(),
    };
    let info = wd.resolve_action("docker://alpine:3.18");
    assert_eq!(info.repository, "docker://alpine:3.18");
    assert_eq!(info.version, "");
    assert!(info.is_docker);
    assert!(!info.is_local);
}

#[test]
fn resolve_action_local_path() {
    let wd = WorkflowDefinition {
        name: String::new(),
        on: vec![],
        on_raw: Yaml::Null,
        jobs: Default::default(),
    };
    let info = wd.resolve_action("./my-action");
    assert_eq!(info.repository, "./my-action");
    assert_eq!(info.version, "");
    assert!(!info.is_docker);
    assert!(info.is_local);
}

#[test]
fn resolve_action_with_sha_version() {
    let wd = WorkflowDefinition {
        name: String::new(),
        on: vec![],
        on_raw: Yaml::Null,
        jobs: Default::default(),
    };
    let info = wd.resolve_action("actions/checkout@a81bbbf8298c0fa03ea29cdc473d45769f953675");
    assert_eq!(info.repository, "actions/checkout");
    assert_eq!(info.version, "a81bbbf8298c0fa03ea29cdc473d45769f953675");
}

#[test]
fn parse_workflow_allows_null_workflow_dispatch_with_other_triggers() {
    let content = r#"
name: trigger-test
on:
  push:
    branches: []
    tags-ignore: []
  release:
    types: [prereleased, published]
  workflow_dispatch:

jobs:
  test:
    runs-on: ubuntu-latest
    steps:
      - run: echo hi
"#;
    let file = Yaml::parse(content).unwrap();
    let parsed = parse_workflow(WorkflowInput::Parsed {
        workflow: WorkflowDefinition {
            name: file.get("name").unwrap().as_str().unwrap().to_string(),
            on: vec![],
            on_raw: file.get("on").unwrap().clone(),
            jobs: Default::default(),
        },
    });
    assert!(
        parsed.is_ok(),
        "Expected workflow to parse successfully, got: {:?}",
        parsed.err()
    );
    let workflow = parsed.unwrap();
    assert_eq!(workflow.name, "trigger-test");
    assert_eq!(workflow.on, ["push", "release", "workflow_dispatch"]);
    assert_eq!(&workflow.on_raw, file.get("on").unwrap());
}

fn triggers(on: &str) -> Result<Vec<String>, String> {
    normalize_triggers(&Yaml::parse(on).unwrap())
}

#[test]
fn one_trigger_in_any_form() {
    let expected: Result<Vec<String>, String> = Ok(vec!["push".to_string()]);
    assert_eq!(triggers("push"), expected);
    assert_eq!(triggers("[push]"), expected);
    assert_eq!(triggers("push:"), expected);
    assert_eq!(triggers("push: {branches: [main]}"), expected);
}

#[test]
fn triggers_keep_their_order_and_leave_out_what_is_no_text() {
    assert_eq!(
        triggers("[push, 1, pull_request, [x], !t schedule, null, push]").unwrap(),
        ["push", "pull_request", "schedule", "push"]
    );
    assert_eq!(
        triggers("{z: 1, 2: x, a: null}").unwrap(),
        ["z", "a"]
    );
    assert_eq!(triggers("[]").unwrap().len(), 0);
}

#[test]
fn other_triggers_are_invalid() {
    for on in ["", "1", "true", "!t push", "!t [push]"] {
        assert_eq!(
            triggers(on).unwrap_err(),
            "'on' section has invalid format",
            "{}",
            on
        );
    }
}

fn workflow(on_raw: Yaml) -> WorkflowDefinition {
    WorkflowDefinition {
        name: "w".to_string(),
        on: vec!["stale".to_string()],
        on_raw,
        jobs: Default::default(),
    }
}

#[test]
fn each_way_to_fail_has_its_message() {
    let message = || "why".to_string();
    let error = |input| parse_workflow(input).unwrap_err();
    assert_eq!(error(WorkflowInput::NoSchema { message: message() }), "why");
    assert_eq!(error(WorkflowInput::Invalid { message: message() }), "why");
    assert_eq!(
        error(WorkflowInput::Unreadable { message: message() }),
        "Failed to read workflow file: why"
    );
    assert_eq!(
        error(WorkflowInput::Malformed { message: message() }),
        "Failed to parse workflow structure: why"
    );
    assert_eq!(
        error(WorkflowInput::Parsed {
            workflow: workflow(Yaml::Null)
        }),
        "'on' section has invalid format"
    );
}

#[test]
fn triggers_replace_what_stood_there() {
    let parsed = parse_workflow(WorkflowInput::Parsed {
        workflow: workflow(Yaml::Text("push".to_string())),
    })
    .unwrap();
    assert_eq!(parsed.on, ["push"]);
    assert_eq!(parsed.name, "w");
}

#[test]
fn reference_is_taken_apart_at_the_separators() {
    let wd = workflow(Yaml::Null);
    for (reference, repository, version) in [
        ("a@b", "a", "b"),
        ("a@b@c", "a", "b"),
        ("@", "", ""),
        ("@v", "", "v"),
        ("a@", "a", ""),
        ("", "", "main"),
        ("\u{e9}t\u{e9}/x@\u{fc}", "\u{e9}t\u{e9}/x", "\u{fc}"),
        ("./local@v1", "./local", "v1"),
        ("docker://img@sha256:0a", "docker://img", "sha256:0a"),
    ] {
        let info = wd.resolve_action(reference);
        assert_eq!(info.repository, repository);
        assert_eq!(info.version, version);
        assert_eq!(info.is_docker, reference.starts_with("docker://"));
        assert_eq!(info.is_local, reference.starts_with("./"));
        assert_eq!(info.clone(), info);
    }
}

#[test]
fn one_text_is_a_list() {
    let one = || Some(StringOrVec::One("a".to_string()));
    let many = || Some(StringOrVec::Many(vec!["a".to_string()]));
    let list = Some(vec!["a".to_string()]);
    assert_eq!(deserialize_needs(one()), list);
    assert_eq!(deserialize_needs(many()), list);
    assert_eq!(deserialize_needs(None), None);
    assert_eq!(deserialize_runs_on(one()), list);
    assert_eq!(deserialize_runs_on(many()), list);
    assert_eq!(deserialize_runs_on(None), None);
    let several = vec!["b".to_string(), "a".to_string()];
    assert_eq!(
        deserialize_needs(Some(StringOrVec::Many(several.clone()))),
        Some(several)
    );
}
