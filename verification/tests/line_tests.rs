use envmn::line::Line;
use envmn::variable::Variable;

#[test]
fn test_line_equality_by_variable() {
    let v1 = Variable::new("KEY", "value1");
    let v2 = Variable::new("KEY", "value2");
    let line1 = Line::Variable(v1);
    let line2 = Line::Variable(v2);
    assert_eq!(line1, line2);
}

#[test]
fn test_line_inequality_by_comment() {
    let line1 = Line::Comment("comment".to_string());
    let line2 = Line::Comment("comment".to_string());
    assert_ne!(line1, line2);
}

#[test]
fn test_is_comment() {
    let line = Line::Comment("comment".to_string());
    assert!(line.is_comment());
}

#[test]
fn test_is_variable() {
    let line = Line::Variable(Variable::new("KEY", "value"));
    assert!(line.is_variable());
}

#[test]
fn comment_is_no_variable_and_variable_no_comment() {
    assert!(!Line::Comment("comment".to_string()).is_variable());
    assert!(!Line::Variable(Variable::new("KEY", "value")).is_comment());
}

#[test]
fn comment_differs_from_variable_line() {
    let comment = Line::Comment("KEY".to_string());
    let variable = Line::Variable(Variable::new("KEY", "value"));
    assert_ne!(comment, variable);
    assert_ne!(variable, comment);
}

#[test]
fn line_text() {
    assert_eq!(Line::Comment("note".to_string()).to_string(), "# note");
    assert_eq!(Line::Comment(String::new()).to_string(), "# ");
    assert_eq!(
        Line::Variable(Variable::new("KEY", "value")).to_string(),
        "KEY=value"
    );
}

#[test]
fn line_clone_keeps_content() {
    let line = Line::Variable(Variable::new("KEY", "value"));
    assert_eq!(line.clone().to_string(), "KEY=value");
    let comment = Line::Comment("note".to_string());
    assert_eq!(comment.clone().to_string(), "# note");
}
