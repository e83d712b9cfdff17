use wrkflw_actions::action::{
    parse_action_definition, parse_using, resolve_definition, resolve_document, ActionType,
    ResolvedAction,
};
use wrkflw_actions::yaml::Yaml;

#[test]
fn test_parse_node_action() {
    let yaml = r#"
name: 'My Action'
runs:
  using: 'node20'
  main: 'index.js'
"#;
    let resolved = parse_action_definition(yaml).unwrap();
    match resolved.action_type {
        ActionType::Node { version } => assert_eq!(version, 20),
        other => panic!("Expected Node action, got {:?}", other),
    }
}

#[test]
fn test_parse_docker_action() {
    let yaml = r#"
name: 'Docker Action'
runs:
  using: 'docker'
  image: 'docker://rust:latest'
"#;
    let resolved = parse_action_definition(yaml).unwrap();
    match &resolved.action_type {
        ActionType::Docker { image } => assert_eq!(image, "rust:latest"),
        other => panic!("Expected Docker action, got {:?}", other),
    }
}

#[test]
fn test_parse_docker_action_with_dockerfile() {
    let yaml = r#"
name: 'Docker Action'
runs:
  using: 'docker'
  image: 'Dockerfile'
"#;
    let resolved = parse_action_definition(yaml).unwrap();
    assert!(
        matches!(resolved.action_type, ActionType::DockerBuild),
        "Expected DockerBuild, got {:?}",
        resolved.action_type
    );
}

#[test]
fn test_parse_docker_action_with_relative_dockerfile() {
    let yaml = r#"
name: 'Docker Action'
runs:
  using: 'docker'
  image: './docker/Dockerfile'
"#;
    let resolved = parse_action_definition(yaml).unwrap();
    assert!(
        matches!(resolved.action_type, ActionType::DockerBuild),
        "Expected DockerBuild, got {:?}",
        resolved.action_type
    );
}

#[test]
fn test_parse_composite_action() {
    let yaml = r#"
name: 'Composite Action'
runs:
  using: 'composite'
  steps:
    - run: echo hello
"#;
    let resolved = parse_action_definition(yaml).unwrap();
    assert!(matches!(resolved.action_type, ActionType::Composite));
}

#[test]
fn test_parse_missing_runs() {
    let yaml = r#"
name: 'Bad Action'
"#;
    assert!(parse_action_definition(yaml).is_err());
}

#[test]
fn test_parse_node16_action() {
    let yaml = r#"
name: 'Legacy Node Action'
runs:
  using: 'node16'
  main: 'index.js'
"#;
    let resolved = parse_action_definition(yaml).unwrap();
    match resolved.action_type {
        ActionType::Node { version } => assert_eq!(version, 16),
        other => panic!("Expected Node 16, got {:?}", other),
    }
}

#[test]
fn test_parse_unknown_using_value() {
    let yaml = r#"
name: 'Unknown Action'
runs:
  using: 'python3'
"#;
    let err = parse_action_definition(yaml).unwrap_err();
    assert!(err.contains("Unknown runs.using value"));
}

#[test]
fn test_parse_missing_using_field() {
    let yaml = r#"
name: 'Bad Action'
runs:
  main: 'index.js'
"#;
    let err = parse_action_definition(yaml).unwrap_err();
    assert!(err.contains("runs.using"));
}

#[test]
fn test_parse_docker_missing_image() {
    let yaml = r#"
name: 'Bad Docker Action'
runs:
  using: 'docker'
"#;
    let err = parse_action_definition(yaml).unwrap_err();
    assert!(err.contains("runs.image"));
}

#[test]
fn test_parse_docker_with_docker_prefix_and_dockerfile() {
    let yaml = r#"
name: 'Docker Action'
runs:
  using: 'docker'
  image: 'docker://Dockerfile'
"#;
    let resolved = parse_action_definition(yaml).unwrap();
    assert!(
        matches!(resolved.action_type, ActionType::DockerBuild),
        "docker://Dockerfile should be DockerBuild, got {:?}",
        resolved.action_type
    );
}

#[test]
fn test_resolved_action_has_definition() {
    let yaml = r#"
name: 'My Action'
description: 'Test'
runs:
  using: 'node20'
  main: 'index.js'
"#;
    let resolved = parse_action_definition(yaml).unwrap();
    let def = resolved.definition.unwrap();
    assert_eq!(def.get("name").unwrap().as_str().unwrap(), "My Action");
}

#[test]
fn test_parse_malformed_node_version_returns_error() {
    let yaml = r#"
name: 'Bad Node Action'
runs:
  using: 'nodefoo'
  main: 'index.js'
"#;
    let err = parse_action_definition(yaml).unwrap_err();
    assert!(
        err.contains("Invalid node version"),
        "Expected error about invalid node version, got: {}",
        err
    );
}

#[test]
fn test_parse_bare_node_returns_error() {
    let yaml = r#"
name: 'Bare Node Action'
runs:
  using: 'node'
  main: 'index.js'
"#;
    let err = parse_action_definition(yaml).unwrap_err();
    assert!(
        err.contains("Invalid node version"),
        "Expected error about invalid node version, got: {}",
        err
    );
}

fn text(text: &str) -> Yaml {
    Yaml::Text(text.to_string())
}

fn entry(key: &str, value: Yaml) -> (Yaml, Yaml) {
    (text(key), value)
}

fn docker_runs(image: &str) -> Yaml {
    Yaml::Mapping(vec![entry("image", text(image))])
}

fn docker(image: &str) -> Result<ActionType, String> {
    parse_using("docker", &docker_runs(image))
}

#[test]
fn invalid_yaml_is_reported_with_the_reason() {
    let err = parse_action_definition("runs: [unclosed").unwrap_err();
    let reason = Yaml::parse("runs: [unclosed").unwrap_err();
    assert_eq!(err, format!("Invalid action YAML: {}", reason));
    assert!(reason.contains("line 1"), "{}", reason);
}

#[test]
fn error_messages_are_exact() {
    assert_eq!(
        resolve_document(Err("reason".to_string())).unwrap_err(),
        "Invalid action YAML: reason"
    );
    let runs = Yaml::Mapping(vec![]);
    assert_eq!(
        resolve_definition(Yaml::Null).unwrap_err(),
        "action.yml missing 'runs' section"
    );
    assert_eq!(
        resolve_definition(Yaml::Mapping(vec![entry("runs", text("using"))])).unwrap_err(),
        "action.yml missing 'runs.using' field"
    );
    assert_eq!(
        resolve_definition(Yaml::Mapping(vec![entry(
            "runs",
            Yaml::Mapping(vec![entry("using", Yaml::Number("20".to_string()))])
        )]))
        .unwrap_err(),
        "action.yml missing 'runs.using' field"
    );
    assert_eq!(
        parse_using("docker", &runs).unwrap_err(),
        "Docker action missing 'runs.image' field"
    );
    assert_eq!(
        parse_using("python3", &runs).unwrap_err(),
        "Unknown runs.using value: python3"
    );
    assert_eq!(
        parse_using("nodefoo", &runs).unwrap_err(),
        "Invalid node version in runs.using 'nodefoo': expected 'node<N>' (e.g., 'node20')"
    );
}

#[test]
fn docker_prefix_is_optional() {
    for image in ["rust:latest", "Dockerfile", "./Dockerfile", "docker://x", ""] {
        let prefixed = format!("docker://{}", image);
        assert_eq!(docker(&prefixed), docker(image));
    }
    assert_eq!(
        docker("docker://docker://alpine"),
        Ok(ActionType::Docker {
            image: "alpine".to_string()
        })
    );
}

#[test]
fn bundled_dockerfiles_are_built() {
    for image in ["Dockerfile", "./x", "../x", "sub/Dockerfile", "/Dockerfile", "./"] {
        assert_eq!(docker(image), Ok(ActionType::DockerBuild), "{}", image);
    }
    for image in ["dockerfile", "xDockerfile", ".x", "Dockerfile2", "a/./b", ""] {
        assert_eq!(
            docker(image),
            Ok(ActionType::Docker {
                image: image.to_string()
            }),
            "{}",
            image
        );
    }
}

#[test]
fn node_versions_follow_the_integer_syntax() {
    let runs = Yaml::Mapping(vec![]);
    let accepted = [
        ("node0", 0),
        ("node20", 20),
        ("node+20", 20),
        ("node0000000000000000020", 20),
        ("nodenode12", 12),
        ("node4294967295", u32::MAX),
    ];
    for (using, version) in accepted {
        assert_eq!(parse_using(using, &runs), Ok(ActionType::Node { version }));
    }
    for using in [
        "node", "node+", "node-1", "node 20", "node20 ", "node4294967296", "node2\u{0662}",
        "node99999999999999999999",
    ] {
        let err = parse_using(using, &runs).unwrap_err();
        assert!(err.starts_with("Invalid node version"), "{}", err);
    }
    assert!(parse_using("Node20", &runs).unwrap_err().starts_with("Unknown"));
}

#[test]
fn image_is_read_for_docker_alone() {
    let runs = docker_runs("alpine");
    assert_eq!(parse_using("composite", &runs), Ok(ActionType::Composite));
    assert_eq!(
        parse_using("node20", &runs),
        Ok(ActionType::Node { version: 20 })
    );
}

#[test]
fn definition_is_kept_whole() {
    let content = "name: n\nruns:\n  using: composite\n  steps: [{run: a}]\n";
    let definition = Yaml::parse(content).unwrap();
    assert_eq!(
        parse_action_definition(content),
        Ok(ResolvedAction {
            action_type: ActionType::Composite,
            definition: Some(definition.clone()),
        })
    );
    assert_eq!(
        resolve_definition(definition.clone()).unwrap().definition,
        Some(definition)
    );
}

#[test]
fn tags_are_looked_through() {
    let content = "runs: !section\n  using: !kind node20\n";
    assert_eq!(
        parse_action_definition(content).unwrap().action_type,
        ActionType::Node { version: 20 }
    );
}
