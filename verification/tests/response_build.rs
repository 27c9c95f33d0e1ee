use rest_to_a2a::json::Json;
use rest_to_a2a::response_build::{assemble, BuiltField};
use rest_to_a2a::select::select;
use serde_json::Value;

fn value(text: &str) -> Value {
    serde_json::from_str(text).unwrap()
}

fn f(name: &str, text: &str) -> BuiltField {
    BuiltField {
        name: name.to_string(),
        value: Json::parse(text.as_bytes()).unwrap(),
    }
}

#[test]
fn flat_fields_build_single_level_object() {
    let out = assemble(vec![
        f("conversationId", r#""ctx-7""#),
        f("taskRef", r#""task-42""#),
        f("status", r#""TASK_STATE_INPUT_REQUIRED""#),
        f("reply", r#""hi""#),
    ]);
    assert!(out.collisions.is_empty());
    assert_eq!(
        out.object.into_value(),
        value(
            r#"{
                "conversationId": "ctx-7",
                "taskRef": "task-42",
                "status": "TASK_STATE_INPUT_REQUIRED",
                "reply": "hi"
            }"#
        )
    );
}

#[test]
fn dotted_names_build_nested_objects() {
    let out = assemble(vec![
        f("data.taskRef", r#""task-42""#),
        f("data.context", r#""ctx-7""#),
        f("meta.state", r#""done""#),
    ]);
    assert!(out.collisions.is_empty());
    assert_eq!(
        out.object.into_value(),
        value(
            r#"{
                "data": { "taskRef": "task-42", "context": "ctx-7" },
                "meta": { "state": "done" }
            }"#
        )
    );
}

#[test]
fn deeply_nested_path() {
    let out = assemble(vec![f("a.b.c.d", "1")]);
    assert!(out.collisions.is_empty());
    assert_eq!(
        out.object.into_value(),
        value(r#"{ "a": { "b": { "c": { "d": 1 } } } }"#)
    );
}

#[test]
fn non_string_values_are_preserved_verbatim() {
    let out = assemble(vec![
        f("n", "42"),
        f("b", "true"),
        f("nul", "null"),
        f("arr", "[1, 2]"),
        f("obj", r#"{ "k": "v" }"#),
    ]);
    assert!(out.collisions.is_empty());
    let object = out.object.into_value();
    assert_eq!(object["n"], value("42"));
    assert_eq!(object["b"], value("true"));
    assert_eq!(object["nul"], Value::Null);
    assert_eq!(object["arr"], value("[1, 2]"));
    assert_eq!(object["obj"], value(r#"{ "k": "v" }"#));
}

#[test]
fn duplicate_leaf_first_wins_and_is_reported() {
    let out = assemble(vec![f("x", r#""first""#), f("x", r#""second""#)]);
    assert_eq!(out.object.into_value(), value(r#"{ "x": "first" }"#));
    assert_eq!(out.collisions, vec!["x".to_string()]);
}

#[test]
fn scalar_then_nested_under_it_collides() {
    // `a` is a scalar; `a.b` cannot nest under it.
    let out = assemble(vec![f("a", r#""scalar""#), f("a.b", r#""nested""#)]);
    assert_eq!(out.object.into_value(), value(r#"{ "a": "scalar" }"#));
    assert_eq!(out.collisions, vec!["a.b".to_string()]);
}

#[test]
fn nested_then_scalar_on_prefix_collides() {
    // `a.b` makes `a` an object; a later bare `a` has no place.
    let out = assemble(vec![f("a.b", r#""nested""#), f("a", r#""scalar""#)]);
    assert_eq!(out.object.into_value(), value(r#"{ "a": { "b": "nested" } }"#));
    assert_eq!(out.collisions, vec!["a".to_string()]);
}

#[test]
fn empty_segments_are_invalid_and_reported() {
    let out = assemble(vec![f("", "1"), f(".x", "2"), f("x.", "3"), f("a..b", "4")]);
    assert_eq!(out.object.into_value(), value("{}"));
    assert_eq!(out.collisions.len(), 4);
}

#[test]
fn empty_list_yields_empty_object() {
    let out = assemble(vec![]);
    assert_eq!(out.object.into_value(), value("{}"));
    assert!(out.collisions.is_empty());
}

#[test]
fn collisions_are_reported_in_their_order() {
    let out = assemble(vec![f("x", "1"), f("", "2"), f("x", "3"), f("y", "4"), f("x.z", "5")]);
    assert_eq!(out.object.into_value(), value(r#"{ "x": 1, "y": 4 }"#));
    assert_eq!(
        out.collisions,
        vec!["".to_string(), "x".to_string(), "x.z".to_string()]
    );
}

#[test]
fn placed_object_stays_as_it_was_given() {
    let out = assemble(vec![f("a", r#"{ "k": 1 }"#), f("a.l", "2"), f("a.k", "3")]);
    assert_eq!(out.object.into_value(), value(r#"{ "a": { "k": 1 } }"#));
    assert_eq!(out.collisions, vec!["a.l".to_string(), "a.k".to_string()]);

    let out = assemble(vec![f("a", r#"{ "k": "v" }"#), f("a.b", "1")]);
    assert_eq!(out.object.into_value(), value(r#"{ "a": { "k": "v" } }"#));
    assert_eq!(out.collisions, vec!["a.b".to_string()]);

    // Also further down, and where the object is empty.
    let out = assemble(vec![f("x.a", "{}"), f("x.a.b.c", "1"), f("x.c", "2"), f("x", "3")]);
    assert_eq!(out.object.into_value(), value(r#"{ "x": { "a": {}, "c": 2 } }"#));
    assert_eq!(out.collisions, vec!["x.a.b.c".to_string(), "x".to_string()]);
}

#[test]
fn name_selects_its_field() {
    let out = assemble(vec![
        f("data.a", "1"),
        f("data.b", "[2]"),
        f("c", "null"),
        f("o", r#"{ "k": 1 }"#),
    ]);
    let found = select(&out.object, "o").unwrap().clone();
    assert_eq!(found.into_value(), value(r#"{ "k": 1 }"#));
    let found = select(&out.object, "data.b").unwrap().clone();
    assert_eq!(found.into_value(), value("[2]"));
    let found = select(&out.object, "c").unwrap().clone();
    assert_eq!(found.into_value(), Value::Null);
}

#[test]
fn field_without_a_place_leaves_nothing_behind() {
    // No object is made on the way to a value that is left out.
    let out = assemble(vec![f("a", "1"), f("a.b.c", "2"), f("x..y", "3"), f("d.e", "4")]);
    assert_eq!(out.object.into_value(), value(r#"{ "a": 1, "d": { "e": 4 } }"#));
    assert_eq!(out.collisions, vec!["a.b.c".to_string(), "x..y".to_string()]);
}
