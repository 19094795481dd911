use clef_reader::aggregate::collect_events;
use clef_reader::model::EventRecord;
use clef_reader::model::SerializableEvent;
use clef_reader::pager::load_page;
use clef_reader::project::custom_properties;
use clef_reader::project::is_reserved_key_name;
use clef_reader::project::project_event;
use serde_json::Value;

fn one_record(line: &str) -> EventRecord {
    let page = load_page(&vec![line.to_string()], 0, 500);
    assert_eq!(page.len(), 1);
    page.into_iter().next().unwrap()
}

fn keys(r: &EventRecord) -> Vec<String> {
    r.properties.as_ref().map(|m| m.keys().cloned().collect()).unwrap_or_default()
}

#[test]
fn user_login_line_projects() {
    let r = one_record(
        r#"{"@t":"2024-01-15T10:30:45.123Z","@mt":"User {UserId} logged in","UserId":"john_doe","@l":"Information"}"#,
    );
    assert_eq!(r.timestamp, "2024-01-15T10:30:45.123Z");
    assert_eq!(r.level, "Information");
    assert_eq!(r.message, "User {UserId} logged in");
    assert_eq!(r.template, None);
    assert_eq!(r.exception, None);
    assert_eq!(r.event_id, None);
    let props = r.properties.unwrap();
    assert_eq!(props.len(), 1);
    assert_eq!(props["UserId"], Value::from("john_doe"));
}

#[test]
fn line_without_timestamp_projects() {
    let r = one_record(
        r#"{"@mt":"No timestamp event with template {Name}","Name":"TestEvent","@l":"Warning"}"#,
    );
    assert_eq!(r.timestamp, "Unknown");
    assert_eq!(r.level, "Warning");
    let props = r.properties.unwrap();
    assert_eq!(props.len(), 1);
    assert_eq!(props["Name"], Value::from("TestEvent"));
}

#[test]
fn missing_level_defaults_to_information() {
    let r = one_record(r#"{"@mt":"plain"}"#);
    assert_eq!(r.level, "Information");
    assert_eq!(r.message, "plain");
    assert_eq!(r.properties, None);
}

#[test]
fn properties_never_hold_standard_fields() {
    let r = one_record(
        r#"{"@t":"t","@mt":"m {A}","@m":"m 1","@l":"Error","@x":"boom","@i":"id7","@r":["1"],"B":true,"A":1}"#,
    );
    assert_eq!(keys(&r), vec!["B".to_string(), "A".to_string()]);
    assert_eq!(r.exception, Some("boom".to_string()));
    assert_eq!(r.event_id, Some("id7".to_string()));
    let only_standard = one_record(r#"{"@t":"t","@mt":"m","@l":"Error","@r":[]}"#);
    assert_eq!(only_standard.properties, None);
}

#[test]
fn nested_properties_are_kept_verbatim() {
    let r = one_record(r#"{"@mt":"x","Ctx":{"@t":"inner","n":[1,2]},"Z":null}"#);
    let props = r.properties.unwrap();
    assert_eq!(props["Ctx"]["@t"], Value::from("inner"));
    assert_eq!(props["Ctx"]["n"][1], Value::from(2));
    assert_eq!(props["Z"], Value::Null);
}

#[test]
fn template_kept_when_it_differs_from_message() {
    let r = one_record(r#"{"@mt":"Hello {Who}","@m":"Hello world","Who":"world"}"#);
    assert_eq!(r.message, "Hello world");
    assert_eq!(r.template, Some("Hello {Who}".to_string()));
}

#[test]
fn template_omitted_when_empty_or_equal() {
    let r = one_record(r#"{"@m":"Direct message without template","@l":"Debug"}"#);
    assert_eq!(r.message, "Direct message without template");
    assert_eq!(r.template, None);
    let same = one_record(r#"{"@m":"same","@mt":"same"}"#);
    assert_eq!(same.template, None);
    let empty = one_record(r#"{"@mt":""}"#);
    assert_eq!(empty.message, "");
    assert_eq!(empty.template, None);
}

#[test]
fn project_event_uses_defaults() {
    let ev = SerializableEvent {
        time: None,
        message: None,
        template: "T".to_string(),
        level: None,
        exception: None,
        eventid: Some("e".to_string()),
        renderings: vec![],
    };
    let r = project_event("not json", ev);
    assert_eq!(r.timestamp, "Unknown");
    assert_eq!(r.level, "Information");
    assert_eq!(r.message, "T");
    assert_eq!(r.template, None);
    assert_eq!(r.event_id, Some("e".to_string()));
    assert_eq!(r.properties, None);
}

#[test]
fn custom_properties_of_non_objects_are_absent() {
    assert_eq!(custom_properties("[1,2]"), None);
    assert_eq!(custom_properties("{"), None);
    assert_eq!(custom_properties("{}"), None);
    let m = custom_properties(r#"{"@l":"x","k":"v"}"#).unwrap();
    assert_eq!(m.keys().cloned().collect::<Vec<_>>(), vec!["k".to_string()]);
}

#[test]
fn reserved_key_names() {
    for k in ["@t", "@mt", "@m", "@l", "@x", "@i", "@r"] {
        assert!(is_reserved_key_name(k));
    }
    assert!(!is_reserved_key_name("@props"));
    assert!(!is_reserved_key_name("t"));
    assert!(!is_reserved_key_name(""));
}

#[test]
fn undecodable_lines_are_passed_over() {
    let lines = vec![
        "[1,2,3]".to_string(),
        r#"{"@mt":"kept"}"#.to_string(),
        r#"{"@mt":42}"#.to_string(),
    ];
    let page = load_page(&lines, 0, 500);
    assert_eq!(page.len(), 1);
    assert_eq!(page[0].message, "kept");
}

#[test]
fn test_cleverlib_parsing() {
    let entries = vec![
        r#"{"@t":"2024-01-15T10:30:45.123Z","@mt":"User {UserId} logged in","UserId":"john_doe","@l":"Information"}"#.to_string(),
        r#"{"@t":"2024-01-15T10:31:02.456Z","@mt":"Database connection failed","@l":"Error","@x":"System.Exception: Connection timeout"}"#.to_string(),
    ];
    let batch = collect_events(&entries, true).unwrap();
    assert_eq!(batch.entries.len(), 2);
    let second = &batch.entries[1].event;
    assert_eq!(second.time, Some("2024-01-15T10:31:02.456Z".to_string()));
    assert_eq!(second.template, "Database connection failed");
    assert_eq!(second.level, Some("Error".to_string()));
    assert_eq!(second.exception, Some("System.Exception: Connection timeout".to_string()));
    assert_eq!(second.message, None);
    assert!(second.renderings.is_empty());
}

#[test]
fn examine_cleverlib_event() {
    let entries = vec![
        r#"{"@t":"2024-01-15T10:30:45.123Z","@mt":"User {UserId} logged in","UserId":"john_doe","@l":"Information"}"#.to_string(),
        r#"{"@t":"2024-01-15T10:31:02.456Z","@mt":"Database connection failed","@l":"Error","@x":"System.Data.SqlClient.SqlException: A network-related error occurred"}"#.to_string(),
        r#"{"@t":"2024-01-15T10:31:15.789Z","@mt":"Processing order {OrderId} for customer {CustomerId}","OrderId":"ORD-12345","CustomerId":"CUST-789","Amount":99.99,"Currency":"USD","@l":"Information","@i":"event123"}"#.to_string(),
        r#"{"@mt":"No timestamp event with template {Name}","Name":"TestEvent","@l":"Warning"}"#.to_string(),
        r#"{"@t":"2024-01-15T10:32:00.000Z","@m":"Direct message without template","@l":"Debug"}"#.to_string(),
    ];
    let batch = collect_events(&entries, true).unwrap();
    assert_eq!(batch.entries.len(), 5);
    assert_eq!(
        batch.levels,
        vec![
            "Debug".to_string(),
            "Error".to_string(),
            "Information".to_string(),
            "Warning".to_string()
        ]
    );
    assert_eq!(batch.entries[2].event.eventid, Some("event123".to_string()));
    assert_eq!(batch.entries[3].event.time, None);
    assert_eq!(
        batch.entries[4].event.message,
        Some("Direct message without template".to_string())
    );
    assert_eq!(batch.entries[4].event.template, "");
    let page = load_page(&entries, 0, 500);
    assert_eq!(
        keys(&page[2]),
        vec![
            "OrderId".to_string(),
            "CustomerId".to_string(),
            "Amount".to_string(),
            "Currency".to_string()
        ]
    );
    assert_eq!(page[3].timestamp, "Unknown");
}
