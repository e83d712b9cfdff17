use wrkflw_actions::action::{ActionType, ResolvedAction};
use wrkflw_actions::cache::BoundedCache;
use wrkflw_actions::fetch::{fetch_and_parse, http_error, Task, Event, Fetch};
use wrkflw_actions::http::{Reply, Request, Status};
use wrkflw_actions::resolve::{resolve_remote_action, Resolution};

const ACTION_YML_BODY: &str = "name: Test Action\nruns:\n  using: 'node20'\n  main: 'index.js'\n";

const BASE: &str = "http://127.0.0.1:1234";

fn reply(status: u16) -> Event {
    Event::Replied {
        reply: Reply {
            status: Status::new(status).unwrap(),
            location: None,
        },
    }
}

fn redirect(status: u16, location: &[u8]) -> Event {
    Event::Replied {
        reply: Reply {
            status: Status::new(status).unwrap(),
            location: Some(location.to_vec()),
        },
    }
}

fn failure(message: &str) -> Event {
    Event::Failed {
        message: message.to_string(),
    }
}

fn token(token: &str) -> Event {
    Event::Token {
        token: Some(token.to_string()),
    }
}

fn body(content: &str) -> Event {
    Event::Body {
        content: content.to_string(),
    }
}

fn get(url: &str) -> Task {
    Task::Send {
        request: Request {
            url: url.to_string(),
            authorization: None,
            follow_redirects: true,
        },
    }
}

/// Runs a fetch through `events` and returns the tasks that it set and what it came to.
fn run(mut fetch: Fetch, events: Vec<Event>) -> (Vec<Task>, Result<ResolvedAction, String>) {
    let mut tasks = vec![fetch.task()];
    for event in events {
        fetch = fetch.step(event);
        tasks.push(fetch.task());
    }
    match fetch {
        Fetch::Done { result } => (tasks, result),
        other => panic!("still under way: {:?}", other),
    }
}

fn fetch(events: Vec<Event>) -> (Vec<Task>, Result<ResolvedAction, String>) {
    run(
        fetch_and_parse(BASE, "owner/repo", "v1", "action.yml"),
        events,
    )
}

const URL: &str = "http://127.0.0.1:1234/owner/repo/v1/action.yml";

#[test]
fn fetch_success_parses_action_yml() {
    let (tasks, result) = fetch(vec![reply(200), body(ACTION_YML_BODY)]);

    let resolved = result.unwrap();
    match resolved.action_type {
        ActionType::Node { version } => assert_eq!(version, 20),
        other => panic!("Expected Node action, got {:?}", other),
    }
    assert_eq!(tasks, [get(URL), Task::ReadBody, Task::Finish]);
}

#[test]
fn fetch_404_without_token_returns_error() {
    let (tasks, result) = fetch(vec![reply(404), Event::Token { token: None }]);

    assert!(result.is_err());
    assert!(
        result.as_ref().unwrap_err().contains("404"),
        "Expected 404 in error, got: {}",
        result.unwrap_err()
    );
    assert_eq!(tasks, [get(URL), Task::FindToken, Task::Finish]);
    assert_eq!(
        result.unwrap_err(),
        format!("HTTP 404 Not Found fetching {}", URL)
    );
}

/// When the auth request gets a redirect response (e.g., to a CDN), the redirect is followed
/// without the Authorization header.
#[test]
fn auth_redirect_does_not_leak_token() {
    let redirect_url = format!("{}/cdn/redirected/action.yml", BASE);
    let (tasks, result) = fetch(vec![
        reply(404),
        token("ghp_test_token_for_redirect_test"),
        redirect(302, redirect_url.as_bytes()),
        reply(200),
        body(ACTION_YML_BODY),
    ]);

    // The resolution should succeed via the redirect path
    let resolved = result.unwrap();
    assert!(matches!(
        resolved.action_type,
        ActionType::Node { version: 20 }
    ));

    // The redirect request does not include the Authorization header.
    assert_eq!(tasks[3], get(&redirect_url));
    for task in &tasks {
        if let Task::Send { request } = task {
            if request.authorization.is_some() {
                assert_eq!(request.url, URL);
                assert!(!request.follow_redirects);
            }
        }
    }
}

#[test]
fn auth_retry_on_404_with_token_succeeds() {
    let (tasks, result) = fetch(vec![
        reply(404),
        token("ghp_test_token_for_auth_test"),
        reply(200),
        body(ACTION_YML_BODY),
    ]);

    let resolved = result.unwrap();
    assert!(matches!(
        resolved.action_type,
        ActionType::Node { version: 20 }
    ));
    assert_eq!(
        tasks[2],
        Task::Send {
            request: Request {
                url: URL.to_string(),
                authorization: Some("token ghp_test_token_for_auth_test".to_string()),
                follow_redirects: false,
            }
        }
    );
}

fn error(events: Vec<Event>) -> String {
    fetch(events).1.unwrap_err()
}

#[test]
fn each_way_to_fail_is_reported() {
    assert_eq!(
        error(vec![failure("no route")]),
        format!("Failed to fetch {}: no route", URL)
    );
    assert_eq!(
        error(vec![reply(500)]),
        format!("HTTP 500 Internal Server Error fetching {}", URL)
    );
    assert_eq!(
        error(vec![reply(799)]),
        format!("HTTP 799 <unknown status code> fetching {}", URL)
    );
    // Without credentials the client follows redirects by itself: one that is left over fails.
    assert_eq!(
        error(vec![redirect(302, b"http://x/")]),
        format!("HTTP 302 Found fetching {}", URL)
    );
    assert_eq!(
        error(vec![reply(404), token("t"), failure("gone")]),
        format!("Failed to fetch {}: gone", URL)
    );
    assert_eq!(
        error(vec![reply(404), token("t"), reply(404)]),
        format!("HTTP 404 Not Found fetching {}", URL)
    );
    assert_eq!(
        error(vec![reply(404), token("t"), reply(301)]),
        format!(
            "HTTP 301 Moved Permanently (redirect with no Location header) fetching {}",
            URL
        )
    );
    assert_eq!(
        error(vec![reply(404), token("t"), redirect(302, b"http://x/\xe9")]),
        "Invalid redirect URL encoding"
    );
    assert_eq!(
        error(vec![
            reply(404),
            token("t"),
            redirect(302, b"http://x/"),
            failure("refused")
        ]),
        "Failed to follow redirect http://x/: refused"
    );
    assert_eq!(
        error(vec![
            reply(404),
            token("t"),
            redirect(302, b"http://x/"),
            reply(403)
        ]),
        format!("HTTP 403 Forbidden fetching {}", URL)
    );
    assert_eq!(
        error(vec![
            reply(200),
            Event::BodyFailed {
                message: "cut off".to_string()
            }
        ]),
        "Failed to read response body: cut off"
    );
    assert_eq!(
        error(vec![reply(200), body("name: x")]),
        "action.yml missing 'runs' section"
    );
}

#[test]
fn status_ranges_have_exact_bounds() {
    for (code, success, redirection) in [
        (100, false, false),
        (199, false, false),
        (200, true, false),
        (299, true, false),
        (300, false, true),
        (399, false, true),
        (400, false, false),
        (999, false, false),
    ] {
        let status = Status::new(code).unwrap();
        assert_eq!(status.code(), code);
        assert_eq!(status.is_success(), success);
        assert_eq!(status.is_redirection(), redirection);
        assert!(status.text().starts_with(&format!("{} ", code)));
    }
    assert_eq!(Status::new(99), None);
    assert_eq!(Status::new(1000), None);
    assert_eq!(Status::new(200).unwrap().text(), "200 OK");
}

#[test]
fn header_bytes_are_text_where_they_are_visible() {
    for (location, text) in [
        (&b""[..], Some("")),
        (b"http://x/ a\tb~", Some("http://x/ a\tb~")),
        (b"a\x7f", None),
        (b"a\n", None),
        (b"\x80", None),
        (b"\xc3\xa9", None),
    ] {
        let step = fetch_and_parse(BASE, "owner/repo", "v1", "action.yml")
            .step(reply(404))
            .step(token("t"))
            .step(redirect(307, location));
        match text {
            Some(text) => assert_eq!(step.task(), get(text)),
            None => assert_eq!(step.task(), Task::Finish),
        }
    }
}

#[test]
fn events_that_are_not_awaited_change_nothing() {
    let plain = || fetch_and_parse(BASE, "owner/repo", "v1", "action.yml");
    assert_eq!(plain().step(token("t")), plain());
    assert_eq!(plain().step(body("x")), plain());
    let done = || plain().step(failure("x"));
    assert_eq!(done().step(reply(200)), done());
}

const YML: &str = "https://raw.githubusercontent.com/owner/repo/v1/action.yml";
const YAML: &str = "https://raw.githubusercontent.com/owner/repo/v1/action.yaml";

fn start(cache: &BoundedCache) -> Resolution {
    resolve_remote_action(cache, "owner/repo", "v1")
}

fn node20() -> ActionType {
    ActionType::Node { version: 20 }
}

#[test]
fn fetched_action_is_found_again() {
    let mut cache = BoundedCache::new();
    let resolution = start(&cache);
    assert_eq!(resolution.task(), get(YML));
    let resolution = resolution.step(reply(200));
    assert_eq!(resolution.task(), Task::ReadBody);
    let resolution = resolution.step(body(ACTION_YML_BODY));
    assert_eq!(resolution.task(), Task::Finish);
    let resolved = resolution.finish(&mut cache).unwrap().unwrap();
    assert_eq!(resolved.action_type, node20());
    assert_eq!(cache.get("owner/repo@v1"), Some(&resolved));

    let again = start(&cache);
    assert_eq!(again.task(), Task::Finish);
    assert_eq!(again.finish(&mut cache), Some(Ok(resolved)));
    assert_eq!(cache.len(), 1);
    assert_eq!(
        resolve_remote_action(&cache, "owner/repo", "v2").task(),
        get("https://raw.githubusercontent.com/owner/repo/v2/action.yml")
    );
}

#[test]
fn action_yaml_is_the_second_choice() {
    let mut cache = BoundedCache::new();
    let resolution = start(&cache).step(reply(500));
    assert_eq!(resolution.task(), get(YAML));
    let resolved = resolution
        .step(reply(200))
        .step(body(ACTION_YML_BODY))
        .finish(&mut cache)
        .unwrap()
        .unwrap();
    assert_eq!(resolved.action_type, node20());
    assert_eq!(cache.len(), 1);
}

#[test]
fn failures_are_quoted_and_not_cached() {
    let mut cache = BoundedCache::new();
    let result = start(&cache)
        .step(failure("one"))
        .step(reply(200))
        .step(body("name: x"))
        .finish(&mut cache);
    assert_eq!(
        result,
        Some(Err(format!(
            "Neither action.yml (Failed to fetch {}: one) nor action.yaml (action.yml missing \
             'runs' section) could be resolved",
            YML
        )))
    );
    assert_eq!(cache.len(), 0);
    assert_eq!(start(&cache).task(), get(YML));
}

#[test]
fn token_goes_to_the_repository_alone() {
    let cache = BoundedCache::new();
    let with_token = |url: &str| Task::Send {
        request: Request {
            url: url.to_string(),
            authorization: Some("token t".to_string()),
            follow_redirects: false,
        },
    };
    let resolution = start(&cache).step(reply(404)).step(token("t"));
    assert_eq!(resolution.task(), with_token(YML));
    let resolution = resolution.step(redirect(302, b"http://cdn/"));
    assert_eq!(resolution.task(), get("http://cdn/"));
    let resolution = resolution.step(reply(404));
    assert_eq!(resolution.task(), get(YAML));
    let resolution = resolution.step(reply(404)).step(token("t"));
    assert_eq!(resolution.task(), with_token(YAML));
    assert_eq!(resolution.step(reply(404)).task(), Task::Finish);
}

#[test]
fn http_errors_quote_status_and_url() {
    assert_eq!(http_error("404 Gone", " at ", "u"), "HTTP 404 Gone at u");
}

#[test]
fn resolution_under_way_has_no_result() {
    let mut cache = BoundedCache::new();
    assert_eq!(start(&cache).finish(&mut cache), None);
    assert_eq!(start(&cache).step(token("t")), start(&cache));
    assert_eq!(cache.len(), 0);
}
