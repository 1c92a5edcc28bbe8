use service_plan::error::PlanError;
use service_plan::json::JsonValue;
use service_plan::processable_value::{ProcessableValue, Variables};

fn vars(pairs: &[(&str, &str)]) -> Variables {
    let mut v = Variables::new();
    for (k, val) in pairs {
        v.insert(k.to_string(), val.to_string());
    }
    v
}

fn text(s: &str) -> JsonValue {
    JsonValue::Str(s.to_string())
}

#[test]
fn literal_ignores_variables() {
    let value = ProcessableValue::fixed(text("{a}"));
    let empty = value.render(&Variables::new()).unwrap();
    let full = value.render(&vars(&[("a", "x")])).unwrap();
    assert_eq!(empty, text("{a}"));
    assert_eq!(full, text("{a}"));
}

#[test]
fn literal_keeps_non_string_values() {
    let value = ProcessableValue::fixed(JsonValue::Bool(true));
    assert_eq!(value.render(&Variables::new()).unwrap(), JsonValue::Bool(true));
    let null = ProcessableValue::fixed(JsonValue::Null);
    assert_eq!(null.render(&vars(&[("a", "x")])).unwrap(), JsonValue::Null);
}

#[test]
fn template_substitutes_placeholders() {
    let value = ProcessableValue::template(text("{a}-{b}"));
    let out = value.render(&vars(&[("a", "x"), ("b", "y")])).unwrap();
    assert_eq!(out, text("x-y"));
}

#[test]
fn template_uses_latest_binding() {
    let value = ProcessableValue::template(text("{project}.sg"));
    let out = value.render(&vars(&[("project", "old"), ("project", "acme")])).unwrap();
    assert_eq!(out, text("acme.sg"));
}

#[test]
fn template_with_missing_placeholder_fails() {
    let value = ProcessableValue::template(text("{a}-{missing}"));
    assert_eq!(value.render(&vars(&[("a", "x")])), Err(PlanError::TemplateFailed));
}

#[test]
fn template_that_is_not_a_string_fails() {
    let value = ProcessableValue::template(JsonValue::Int(4));
    assert_eq!(value.render(&Variables::new()), Err(PlanError::TemplateNotString));
}

#[test]
fn sequence_renders_each_element_in_order() {
    let value = ProcessableValue::sequence(vec![
        ProcessableValue::template(text("{a}")),
        ProcessableValue::fixed(text("lit")),
        ProcessableValue::template(text("{b}!")),
    ]);
    let out = value.render(&vars(&[("a", "x"), ("b", "y")])).unwrap();
    assert_eq!(out, JsonValue::Array(vec![text("x"), text("lit"), text("y!")]));
}

#[test]
fn empty_sequence_renders_to_empty_array() {
    let value = ProcessableValue::sequence(Vec::new());
    assert_eq!(value.render(&Variables::new()).unwrap(), JsonValue::Array(Vec::new()));
}

#[test]
fn sequence_with_failing_element_fails() {
    let value = ProcessableValue::sequence(vec![
        ProcessableValue::fixed(text("ok")),
        ProcessableValue::template(text("{nope}")),
    ]);
    assert_eq!(value.render(&Variables::new()), Err(PlanError::TemplateFailed));
}

#[test]
fn nested_sequences_render() {
    let inner = ProcessableValue::sequence(vec![ProcessableValue::template(text("{a}"))]);
    let value = ProcessableValue::sequence(vec![inner]);
    let out = value.render(&vars(&[("a", "x")])).unwrap();
    assert_eq!(out, JsonValue::Array(vec![JsonValue::Array(vec![text("x")])]));
}

#[test]
fn unknown_tag_is_refused() {
    let r = ProcessableValue::from_tagged("dynamic", text("x"));
    match r {
        Err(PlanError::UnknownTag(tag)) => assert_eq!(tag, "dynamic"),
        other => panic!("unexpected {:?}", other),
    }
}

#[test]
fn empty_tag_means_static() {
    let value = ProcessableValue::from_tagged("", text("{a}")).unwrap();
    assert!(!value.is_template);
    assert_eq!(value.render(&vars(&[("a", "x")])).unwrap(), text("{a}"));
}

#[test]
fn template_tag_makes_a_template() {
    let value = ProcessableValue::from_tagged("template", text("{a}")).unwrap();
    assert!(value.is_template);
    assert_eq!(value.render(&vars(&[("a", "x")])).unwrap(), text("x"));
    let fixed = ProcessableValue::from_tagged("static", text("{a}")).unwrap();
    assert!(!fixed.is_template);
}

#[test]
fn duplicate_keeps_the_value() {
    let v = JsonValue::Array(vec![text("a"), JsonValue::Int(-3), JsonValue::Null]);
    assert_eq!(v.duplicate(), v);
    assert_eq!(v.clone(), v);
}
