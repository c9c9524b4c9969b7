use agent_supervisor::environment::ExecutionEnvironment;

fn pairs(list: &[(&str, &str)]) -> Vec<(String, String)> {
    list.iter()
        .map(|(name, value)| (name.to_string(), value.to_string()))
        .collect()
}

#[test]
fn new_environment_has_no_overrides() {
    let env = ExecutionEnvironment::new();
    assert!(env.entries().is_empty());
    assert_eq!(env.get("PATH"), None);
}

#[test]
fn new_environment_shows_the_ambient_value() {
    let env = ExecutionEnvironment::new();
    assert_eq!(
        env.lookup("HOME", Some(String::from("/home/alice"))),
        Some(String::from("/home/alice"))
    );
    assert_eq!(env.lookup("UNSET", None), None);
}

#[test]
fn override_wins_over_ambient_value() {
    let env = ExecutionEnvironment::new().with_overrides(&pairs(&[("FOO", "1")]));
    assert_eq!(
        env.lookup("FOO", Some(String::from("0"))),
        Some(String::from("1"))
    );
    assert_eq!(
        env.lookup("BAR", Some(String::from("kept"))),
        Some(String::from("kept"))
    );
    assert_eq!(env.lookup("BAZ", None), None);
}

#[test]
fn override_adds_a_name_the_ambient_lacks() {
    let env = ExecutionEnvironment::new().with_overrides(&pairs(&[("NEW", "value")]));
    assert_eq!(env.lookup("NEW", None), Some(String::from("value")));
}

#[test]
fn with_overrides_sets_every_name() {
    let env = ExecutionEnvironment::new().with_overrides(&pairs(&[("A", "1"), ("B", "2")]));
    assert_eq!(env.get("A"), Some(&String::from("1")));
    assert_eq!(env.get("B"), Some(&String::from("2")));
    assert_eq!(env.get("C"), None);
}

#[test]
fn later_override_replaces_earlier_one() {
    let env = ExecutionEnvironment::new()
        .with_overrides(&pairs(&[("A", "1"), ("B", "2")]))
        .with_overrides(&pairs(&[("A", "3")]));
    assert_eq!(env.get("A"), Some(&String::from("3")));
    assert_eq!(env.get("B"), Some(&String::from("2")));
    assert_eq!(env.entries(), &pairs(&[("A", "3"), ("B", "2")]));
}

#[test]
fn repeated_name_in_one_list_keeps_the_last_value() {
    let env =
        ExecutionEnvironment::new().with_overrides(&pairs(&[("A", "1"), ("B", "2"), ("A", "9")]));
    assert_eq!(env.get("A"), Some(&String::from("9")));
    assert_eq!(env.entries().len(), 2);
}

#[test]
fn empty_overrides_change_nothing() {
    let env = ExecutionEnvironment::new()
        .with_overrides(&pairs(&[("A", "1")]))
        .with_overrides(&Vec::new());
    assert_eq!(env.entries(), &pairs(&[("A", "1")]));
}

#[test]
fn names_are_compared_exactly() {
    let env = ExecutionEnvironment::new().with_overrides(&pairs(&[("Path", "x"), ("", "empty")]));
    assert_eq!(env.get("PATH"), None);
    assert_eq!(env.get("Path"), Some(&String::from("x")));
    assert_eq!(env.get(""), Some(&String::from("empty")));
}
