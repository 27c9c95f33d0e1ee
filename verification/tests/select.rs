use rest_to_a2a::json::Json;
use rest_to_a2a::select::select;
use serde_json::Value;

fn sample() -> Json {
    Json::parse(
        br#"{
            "task": {
                "id": "task-42",
                "contextId": "ctx-7",
                "status": {
                    "state": "TASK_STATE_INPUT_REQUIRED",
                    "update": { "parts": [{ "text": "hello" }, { "text": "world" }] }
                },
                "count": 3,
                "flag": true
            }
        }"#,
    )
    .unwrap()
}

fn found(root: &Json, path: &str) -> Option<Value> {
    select(root, path).map(|json| json.clone().into_value())
}

fn value(text: &str) -> Option<Value> {
    Some(serde_json::from_str(text).unwrap())
}

#[test]
fn selects_nested_scalar() {
    assert_eq!(found(&sample(), "task.id"), value(r#""task-42""#));
    assert_eq!(
        found(&sample(), "task.status.state"),
        value(r#""TASK_STATE_INPUT_REQUIRED""#)
    );
}

#[test]
fn selects_through_array_index() {
    assert_eq!(
        found(&sample(), "task.status.update.parts[0].text"),
        value(r#""hello""#)
    );
    assert_eq!(
        found(&sample(), "task.status.update.parts[1].text"),
        value(r#""world""#)
    );
}

#[test]
fn preserves_non_string_types() {
    assert_eq!(found(&sample(), "task.count"), value("3"));
    assert_eq!(found(&sample(), "task.flag"), value("true"));
}

#[test]
fn strips_optional_payload_prefix() {
    assert_eq!(found(&sample(), "payload.task.id"), value(r#""task-42""#));
    assert!(found(&sample(), "payload").unwrap().is_object());
}

#[test]
fn empty_path_selects_root() {
    assert!(found(&sample(), "").unwrap().is_object());
    assert!(found(&sample(), "  ").unwrap().is_object());
}

#[test]
fn missing_paths_yield_none() {
    assert_eq!(found(&sample(), "task.missing"), None);
    assert_eq!(found(&sample(), "task.status.update.parts[9].text"), None);
    assert_eq!(found(&sample(), "task.id.deeper"), None); // a member of a scalar
    assert_eq!(found(&sample(), "task[0]"), None); // a position in an object
}

#[test]
fn malformed_tokens_yield_none() {
    assert_eq!(found(&sample(), "task.status.update.parts[0]x"), None);
    assert_eq!(found(&sample(), "task.status.update.parts[abc]"), None);
    assert_eq!(found(&sample(), "task.status.update.parts["), None);
}

#[test]
fn leading_index_token_indexes_root() {
    let arr = Json::parse(br#"["a","b","c"]"#).unwrap();
    assert_eq!(found(&arr, "[1]"), value(r#""b""#));
}

#[test]
fn positions_may_follow_one_another() {
    let matrix = Json::parse(br#"{"m":[[1,2],[3,4]]}"#).unwrap();
    assert_eq!(found(&matrix, "m[1][0]"), value("3"));
    assert_eq!(found(&matrix, "m[1].[0]"), value("3"));
    assert_eq!(found(&matrix, "m[1][2]"), None);
}

#[test]
fn position_is_a_number_that_fits() {
    let arr = Json::parse(br#"[10,20]"#).unwrap();
    assert_eq!(found(&arr, "[01]"), value("20"));
    assert_eq!(found(&arr, "[+1]"), value("20"));
    assert_eq!(found(&arr, "[-1]"), None);
    assert_eq!(found(&arr, "[]"), None);
    assert_eq!(found(&arr, "[+]"), None);
    assert_eq!(found(&arr, "[ 1]"), None);
    assert_eq!(found(&arr, "[99999999999999999999999999]"), None);
}

#[test]
fn white_space_and_prefix_do_not_matter() {
    assert_eq!(
        found(&sample(), " \t payload.task.id \n"),
        found(&sample(), "task.id")
    );
    // The prefix goes once.
    let root = Json::parse(br#"{"payload":{"x":1}}"#).unwrap();
    assert_eq!(found(&root, "payload.payload.x"), value("1"));
    assert_eq!(found(&root, "payload.x"), None);
    assert_eq!(found(&root, "payload."), value(r#"{"payload":{"x":1}}"#));
    assert_eq!(found(&root, "payload[0]"), None);
}

#[test]
fn empty_token_stays_where_it_is() {
    assert_eq!(found(&sample(), "task..id"), found(&sample(), "task.id"));
    assert_eq!(found(&sample(), "task."), found(&sample(), "task"));
}

#[test]
fn paths_compose() {
    let root = sample();
    for first in ["", "  ", "payload", "payload.", " payload.task", "task", ".task"] {
        let inner = select(&root, first).unwrap();
        for second in ["status.state", "task.id ", "", "nothing"] {
            let joined = format!("{first}.{second}");
            assert_eq!(found(&root, &joined), found(inner, second), "{joined}");
        }
    }
    let inner = select(&root, "task.status").unwrap();
    assert_eq!(
        found(inner, "update.parts[1]"),
        found(&root, "task.status.update.parts[1]")
    );
}
