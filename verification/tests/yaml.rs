use wrkflw_actions::yaml::Yaml;

fn text(text: &str) -> Yaml {
    Yaml::Text(text.to_string())
}

#[test]
fn every_kind_of_value_is_read() {
    let content = "z: null\nb: true\nn: [1, -2, 1.5, 0x10, .inf]\nt: 'x'\ng: !tag {k: v}\n3: three\n";
    let number = |n: &str| Yaml::Number(n.to_string());
    assert_eq!(
        Yaml::parse(content).unwrap(),
        Yaml::Mapping(vec![
            (text("z"), Yaml::Null),
            (text("b"), Yaml::Bool(true)),
            (
                text("n"),
                Yaml::Sequence(vec![
                    number("1"),
                    number("-2"),
                    number("1.5"),
                    number("16"),
                    number(".inf"),
                ])
            ),
            (text("t"), text("x")),
            (
                text("g"),
                Yaml::Tagged(
                    "!tag".to_string(),
                    Box::new(Yaml::Mapping(vec![(text("k"), text("v"))]))
                )
            ),
            (number("3"), text("three")),
        ])
    );
}

#[test]
fn lookups_agree_with_serde_yaml() {
    let content = "a: 1\nb: {a: x, c: [y]}\nt: !tag {a: z}\ns: !tag w\n1: one\n!k tagged: no\n";
    let value: serde_yaml::Value = serde_yaml::from_str(content).unwrap();
    let yaml = Yaml::from_value(value.clone());
    assert_eq!(yaml, Yaml::parse(content).unwrap());
    for outer in ["a", "b", "t", "s", "1", "tagged", "missing", ""] {
        let expected = value.get(outer);
        let found = yaml.get(outer);
        assert_eq!(found, expected.cloned().map(Yaml::from_value).as_ref());
        assert_eq!(
            found.and_then(|v| v.as_str()),
            expected.and_then(|v| v.as_str())
        );
        for inner in ["a", "c", "missing"] {
            assert_eq!(
                found.and_then(|v| v.get(inner)),
                expected
                    .and_then(|v| v.get(inner))
                    .cloned()
                    .map(Yaml::from_value)
                    .as_ref()
            );
        }
    }
}

#[test]
fn the_first_of_equal_keys_counts() {
    let yaml = Yaml::Mapping(vec![(text("k"), text("1")), (text("k"), text("2"))]);
    assert_eq!(yaml.get("k").and_then(|v| v.as_str()), Some("1"));
}

#[test]
fn a_copy_is_the_same_tree() {
    let yaml = Yaml::parse("a: [1, {b: !t x}, null, false]").unwrap();
    assert_eq!(yaml.clone(), yaml);
}

#[test]
fn errors_are_those_of_serde_yaml() {
    let content = "a: [";
    let expected = serde_yaml::from_str::<serde_yaml::Value>(content).unwrap_err();
    assert_eq!(Yaml::parse(content).unwrap_err(), expected.to_string());
}
