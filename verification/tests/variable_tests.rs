use envmn::variable::Variable;

#[test]
fn test_variable_raw_equality_by_key() {
    let v1 = Variable {
        key: "KEY".to_string(),
        value: "value1".to_string(),
    };
    let v2 = Variable {
        key: "KEY".to_string(),
        value: "value2".to_string(),
    };
    assert_eq!(v1, v2);
}

#[test]
fn test_variable_new_equality_by_key() {
    let v1 = Variable::new("KEY", "value1");
    let v2 = Variable::new("KEY", "value2");
    assert_eq!(v1, v2);
}

#[test]
fn test_raw_and_new_interop() {
    let v1 = Variable {
        key: "KEY".to_string(),
        value: "value1".to_string(),
    };
    let v2 = Variable::new("KEY", "value1");
    assert_eq!(v1, v2);
}

#[test]
fn variables_of_different_keys_differ() {
    let v1 = Variable::new("KEY", "value");
    let v2 = Variable::new("KEY2", "value");
    assert_ne!(v1, v2);
}

#[test]
fn variable_text_is_key_equals_value() {
    assert_eq!(Variable::new("KEY", "value").to_string(), "KEY=value");
    assert_eq!(Variable::new("KEY", "").to_string(), "KEY=");
    assert_eq!(Variable::new("KEY", "a=b").to_string(), "KEY=a=b");
}

#[test]
fn variable_clone_keeps_key_and_value() {
    let v = Variable::new("KEY", "value");
    let c = v.clone();
    assert_eq!(c.key, "KEY");
    assert_eq!(c.value, "value");
}
