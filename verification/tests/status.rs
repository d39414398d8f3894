use backend::status::{status_source, ObjectValue, StatusAccumulator, StatusSource};
use serde_json::Value;

fn json(text: &str) -> Value {
    serde_json::from_str(text).unwrap()
}

/// The entries of a JSON `status` block, as the server hands them over.
fn entries(status: &Value) -> Vec<(String, ObjectValue)> {
    let Value::Object(objects) = status else { return Vec::new() };
    objects
        .iter()
        .map(|(name, value)| {
            let v = match value {
                Value::Object(fields) => {
                    ObjectValue::Fields(fields.iter().map(|(k, f)| (k.clone(), f.to_string())).collect())
                }
                other => ObjectValue::Other(other.to_string()),
            };
            (name.clone(), v)
        })
        .collect()
}

fn value(acc: &StatusAccumulator, object: &str, field: &str) -> Option<Value> {
    acc.field(object, field).map(|t| json(&t))
}

fn num(acc: &StatusAccumulator, object: &str, field: &str) -> f64 {
    value(acc, object, field).and_then(|v| v.as_f64()).unwrap_or(0.0)
}

/// The status block of a message, located as the server does.
fn status_from_message(msg: &Value) -> Option<&Value> {
    let result_status = msg.get("result").and_then(|r| r.get("status"));
    let method = msg.get("method").and_then(Value::as_str);
    match status_source(result_status.is_some(), method)? {
        StatusSource::ResultStatus => result_status,
        StatusSource::FirstParam => msg.get("params").and_then(|p| p.get(0)),
    }
}

#[test]
fn accumulator_merges_partial_updates() {
    let mut acc = StatusAccumulator::new();
    acc.apply(&entries(&json(
        r#"{
            "print_stats": { "state": "printing", "filename": "benchy.gcode", "print_duration": 12.0 },
            "display_status": { "progress": 0.25 },
            "extruder": { "temperature": 210.0, "target": 220.0 },
            "heater_bed": { "temperature": 60.0, "target": 60.0 }
        }"#,
    )));
    // Partial update: only the progress changes.
    acc.apply(&entries(&json(r#"{ "display_status": { "progress": 0.5 } }"#)));

    assert_eq!(value(&acc, "print_stats", "state").unwrap().as_str(), Some("printing"));
    assert_eq!(value(&acc, "print_stats", "filename").unwrap().as_str(), Some("benchy.gcode"));
    assert!((num(&acc, "display_status", "progress") - 0.5).abs() < 1e-9);
    assert!((num(&acc, "print_stats", "print_duration") - 12.0).abs() < 1e-9);
    assert!((num(&acc, "extruder", "temperature") - 210.0).abs() < 1e-9);
    assert!((num(&acc, "heater_bed", "target") - 60.0).abs() < 1e-9);
}

#[test]
fn status_extracted_from_subscribe_reply_and_notification() {
    let reply = json(
        r#"{ "jsonrpc": "2.0", "id": 1,
             "result": { "eventtime": 1.0, "status": { "print_stats": { "state": "paused" } } } }"#,
    );
    assert_eq!(status_from_message(&reply).unwrap()["print_stats"]["state"], "paused");

    let notify = json(
        r#"{ "jsonrpc": "2.0", "method": "notify_status_update",
             "params": [{ "display_status": { "progress": 0.9 } }, 2.0] }"#,
    );
    assert_eq!(status_from_message(&notify).unwrap()["display_status"]["progress"], 0.9);

    let unrelated = json(r#"{ "jsonrpc": "2.0", "method": "notify_klippy_ready" }"#);
    assert!(status_from_message(&unrelated).is_none());
}

#[test]
fn status_source_prefers_the_result() {
    assert_eq!(status_source(true, Some("notify_status_update")), Some(StatusSource::ResultStatus));
    assert_eq!(status_source(false, Some("notify_status_update")), Some(StatusSource::FirstParam));
    assert_eq!(status_source(false, Some("notify_klippy_ready")), None);
    assert_eq!(status_source(false, None), None);
}

#[test]
fn unnamed_objects_stay_as_they_were() {
    let mut acc = StatusAccumulator::new();
    acc.apply(&vec![
        ("extruder".to_string(), ObjectValue::Fields(vec![("target".to_string(), "220".to_string())])),
        ("heater_bed".to_string(), ObjectValue::Fields(vec![("target".to_string(), "60".to_string())])),
    ]);
    acc.apply(&vec![(
        "extruder".to_string(),
        ObjectValue::Fields(vec![("temperature".to_string(), "200".to_string())]),
    )]);
    assert_eq!(acc.field("heater_bed", "target").as_deref(), Some("60"));
    assert_eq!(acc.field("extruder", "target").as_deref(), Some("220"));
    assert_eq!(acc.field("extruder", "temperature").as_deref(), Some("200"));
    assert_eq!(acc.field("extruder", "power"), None);
    assert_eq!(acc.field("toolhead", "position"), None);
}

#[test]
fn non_object_values_replace_and_are_replaced() {
    let mut acc = StatusAccumulator::new();
    acc.apply(&vec![(
        "print_stats".to_string(),
        ObjectValue::Fields(vec![("state".to_string(), "\"printing\"".to_string())]),
    )]);
    acc.apply(&vec![("print_stats".to_string(), ObjectValue::Other("null".to_string()))]);
    assert_eq!(acc.field("print_stats", "state"), None);
    acc.apply(&vec![(
        "print_stats".to_string(),
        ObjectValue::Fields(vec![("filename".to_string(), "\"a.gcode\"".to_string())]),
    )]);
    assert_eq!(acc.field("print_stats", "filename").as_deref(), Some("\"a.gcode\""));
    assert_eq!(acc.field("print_stats", "state"), None);
}

#[test]
fn later_fields_of_one_block_win() {
    let mut acc = StatusAccumulator::new();
    acc.apply(&vec![
        ("extruder".to_string(), ObjectValue::Fields(vec![("target".to_string(), "1".to_string())])),
        ("extruder".to_string(), ObjectValue::Fields(vec![("target".to_string(), "2".to_string())])),
    ]);
    assert_eq!(acc.field("extruder", "target").as_deref(), Some("2"));
}
