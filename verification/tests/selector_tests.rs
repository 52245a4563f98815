use terminator::element::UIElement;
use terminator::errors::{AutomationError, ErrorKind};
use terminator::selector::{Attribute, Condition, Selector};

fn conditions(text: &str) -> Vec<(Attribute, String)> {
    Selector::parse(text)
        .unwrap()
        .conditions
        .iter()
        .map(|c| (c.attribute, c.value.clone()))
        .collect()
}

fn refused(text: &str) {
    match Selector::parse(text) {
        Err(AutomationError::InvalidSelector(message)) => assert_eq!(message, text),
        other => panic!("{:?} should be refused, got {:?}", text, other),
    }
}

#[test]
fn parses_a_single_bare_clause() {
    assert_eq!(conditions("role=button"), vec![(Attribute::Role, "button".to_string())]);
}

#[test]
fn parses_two_clauses_joined_by_and() {
    assert_eq!(
        conditions("role=button AND name=\"OK\""),
        vec![(Attribute::Role, "button".to_string()), (Attribute::Name, "OK".to_string())]
    );
}

#[test]
fn parses_every_attribute() {
    assert_eq!(
        conditions("role=a AND name=b AND automation_id=c AND class_name=d"),
        vec![
            (Attribute::Role, "a".to_string()),
            (Attribute::Name, "b".to_string()),
            (Attribute::AutomationId, "c".to_string()),
            (Attribute::ClassName, "d".to_string()),
        ]
    );
}

#[test]
fn quoted_value_keeps_its_blanks() {
    assert_eq!(
        conditions("name=\"Save As\""),
        vec![(Attribute::Name, "Save As".to_string())]
    );
}

#[test]
fn quoted_value_may_be_empty() {
    assert_eq!(conditions("name=\"\""), vec![(Attribute::Name, String::new())]);
}

#[test]
fn quoted_value_may_hold_the_word_and() {
    assert_eq!(
        conditions("name=\"Cut AND Paste\" AND role=menu"),
        vec![(Attribute::Name, "Cut AND Paste".to_string()), (Attribute::Role, "menu".to_string())]
    );
}

#[test]
fn blanks_around_the_text_are_passed_over() {
    assert_eq!(
        conditions("  \trole=button   AND\t name=OK  "),
        vec![(Attribute::Role, "button".to_string()), (Attribute::Name, "OK".to_string())]
    );
}

#[test]
fn bare_value_may_hold_an_equals_sign() {
    assert_eq!(conditions("name=a=b"), vec![(Attribute::Name, "a=b".to_string())]);
}

#[test]
fn value_with_characters_beyond_ascii() {
    assert_eq!(
        conditions("name=\"Größe ändern\""),
        vec![(Attribute::Name, "Größe ändern".to_string())]
    );
}

#[test]
fn unbalanced_quote_is_refused() {
    refused("role=button AND name=\"OK");
}

#[test]
fn unknown_attribute_is_refused() {
    refused("colour=red");
}

#[test]
fn attribute_names_are_case_sensitive() {
    refused("Role=button");
}

#[test]
fn missing_operator_is_refused() {
    refused("role button");
    refused("role");
}

#[test]
fn empty_text_is_refused() {
    refused("");
    refused("   ");
}

#[test]
fn empty_bare_value_is_refused() {
    refused("role=");
    refused("role= AND name=x");
}

#[test]
fn dangling_and_is_refused() {
    refused("role=button AND");
    refused("role=button AND ");
    refused("AND role=button");
}

#[test]
fn lower_case_and_is_refused() {
    refused("role=button and name=OK");
}

#[test]
fn clauses_without_and_are_refused() {
    refused("role=button name=OK");
}

#[test]
fn text_after_a_closing_quote_is_refused() {
    refused("name=\"OK\"x");
    refused("name=\"OK\"AND role=button");
}

#[test]
fn quote_inside_a_bare_value_is_refused() {
    refused("name=O\"K");
    refused("name=OK\"");
}

#[test]
fn blank_before_the_operator_is_refused() {
    refused("role =button");
}

#[test]
fn and_must_be_followed_by_a_blank() {
    refused("role=button ANDname=OK");
}

#[test]
fn invalid_selector_error_has_its_kind() {
    let e = Selector::parse("nonsense").unwrap_err();
    assert_eq!(e.kind(), ErrorKind::InvalidSelector);
    assert_eq!(e.message(), "nonsense");
}

fn element(role: &str, name: Option<&str>) -> UIElement {
    let mut e = UIElement::with_role(role);
    e.name = name.map(|n| n.to_string());
    e
}

#[test]
fn selector_matches_when_every_condition_holds() {
    let s = Selector::parse("role=button AND name=OK").unwrap();
    assert!(s.matches(&element("button", Some("OK"))));
    assert!(!s.matches(&element("button", Some("Cancel"))));
    assert!(!s.matches(&element("text", Some("OK"))));
}

#[test]
fn absent_attribute_matches_nothing() {
    let s = Selector::parse("name=OK").unwrap();
    assert!(!s.matches(&element("button", None)));
    let empty = Selector::parse("name=\"\"").unwrap();
    assert!(!empty.matches(&element("button", None)));
    assert!(empty.matches(&element("button", Some(""))));
}

#[test]
fn comparison_is_case_sensitive() {
    let s = Selector::parse("role=Button").unwrap();
    assert!(!s.matches(&element("button", None)));
    assert!(s.matches(&element("Button", None)));
}

#[test]
fn selector_of_no_conditions_matches_everything() {
    let s = Selector { conditions: vec![] };
    assert!(s.matches(&element("anything", None)));
}

#[test]
fn condition_reads_the_attribute_it_names() {
    let mut e = UIElement::with_role("edit");
    e.automation_id = Some("input-1".to_string());
    e.class_name = Some("TextBox".to_string());
    let by_id = Condition { attribute: Attribute::AutomationId, value: "input-1".to_string() };
    let by_class = Condition { attribute: Attribute::ClassName, value: "TextBox".to_string() };
    let wrong = Condition { attribute: Attribute::ClassName, value: "input-1".to_string() };
    assert!(by_id.holds(&e));
    assert!(by_class.holds(&e));
    assert!(!wrong.holds(&e));
}

#[test]
fn attribute_names() {
    assert_eq!(Attribute::Role.name(), "role");
    assert_eq!(Attribute::Name.name(), "name");
    assert_eq!(Attribute::AutomationId.name(), "automation_id");
    assert_eq!(Attribute::ClassName.name(), "class_name");
}

#[test]
fn cloned_selector_has_the_same_conditions() {
    let s = Selector::parse("role=button AND name=OK").unwrap();
    let c = s.clone();
    assert_eq!(c.conditions.len(), 2);
    assert_eq!(c.conditions[1].value, "OK");
    assert_eq!(c.conditions[1].attribute, Attribute::Name);
}

#[test]
fn to_text_quotes_every_value() {
    let s = Selector::parse("role=button AND name=\"Save As\" AND automation_id=x1").unwrap();
    assert_eq!(s.to_text(), "role=\"button\" AND name=\"Save As\" AND automation_id=\"x1\"");
    let one = Selector::parse("class_name=Edit").unwrap();
    assert_eq!(one.to_text(), "class_name=\"Edit\"");
    assert_eq!(one.conditions[0].to_text(), "class_name=\"Edit\"");
    assert_eq!(Selector { conditions: vec![] }.to_text(), "");
}

#[test]
fn text_of_a_selector_reads_back_as_the_selector() {
    for text in [
        "role=button",
        "role=button AND name=\"OK\"",
        "name=\"\"",
        "name=\" AND \" AND role=\"a=b\"",
        "automation_id=\"tab\there\" AND class_name=x AND name=y AND role=z",
    ] {
        let first = Selector::parse(text).unwrap();
        let again = Selector::parse(&first.to_text()).unwrap();
        assert_eq!(conditions(&first.to_text()), conditions(text), "{}", text);
        assert_eq!(again.to_text(), first.to_text(), "{}", text);
    }
}

#[test]
fn value_with_a_quote_does_not_read_back() {
    let s = Selector {
        conditions: vec![Condition { attribute: Attribute::Name, value: "a\"b".to_string() }],
    };
    assert_eq!(s.to_text(), "name=\"a\"b\"");
    assert!(Selector::parse(&s.to_text()).is_err());
}
