use vstd::prelude::*;
use crate::json::keep_custom_keys;
use crate::json::object_is_empty;
use crate::json::parse_object;
use crate::json::parsed_object_keys;
use crate::model::EventRecord;
use crate::model::EventView;
use crate::model::RecordView;
use crate::model::SerializableEvent;

verus! {

/// The keys that name the standard fields of an event: timestamp, template,
/// message, level, exception, event id and renderings.
pub open spec fn is_reserved_key(k: Seq<char>) -> bool {
    k == "@t"@ || k == "@mt"@ || k == "@m"@ || k == "@l"@ || k == "@x"@ || k == "@i"@ || k
        == "@r"@
}

/// Whether `k` names a standard field of an event.
pub fn is_reserved_key_name(k: &str) -> (r: bool)
    ensures
        r == is_reserved_key(k@),
{
    let s = k.to_owned();
    s == "@t".to_owned() || s == "@mt".to_owned() || s == "@m".to_owned() || s == "@l".to_owned()
        || s == "@x".to_owned() || s == "@i".to_owned() || s == "@r".to_owned()
}

/// The message a record shows: the rendered message, else the template.
pub open spec fn shown_message(ev: EventView) -> Seq<char> {
    match ev.message {
        Some(m) => m,
        None => ev.template,
    }
}

/// The template a record carries: only one that is non-empty and says more
/// than the message.
pub open spec fn shown_template(ev: EventView) -> Option<Seq<char>> {
    if ev.template.len() > 0 && ev.template != shown_message(ev) {
        Some(ev.template)
    } else {
        None
    }
}

/// The custom property keys of a raw line: those of its JSON object that name
/// no standard field, or `None` where it is no object or no such key remains.
pub open spec fn custom_keys(line: Seq<char>) -> Option<Seq<Seq<char>>> {
    match parsed_object_keys(line) {
        Some(keys) => {
            let rest = keys.filter(|k: Seq<char>| !is_reserved_key(k));
            if rest.len() > 0 {
                Some(rest)
            } else {
                None
            }
        },
        None => None,
    }
}

/// The record made of a decoded event and the raw line it came from.
pub open spec fn project(line: Seq<char>, ev: EventView) -> RecordView {
    RecordView {
        timestamp: match ev.time {
            Some(t) => t,
            None => "Unknown"@,
        },
        level: match ev.level {
            Some(l) => l,
            None => "Information"@,
        },
        message: shown_message(ev),
        template: shown_template(ev),
        exception: ev.exception,
        event_id: ev.eventid,
        property_keys: custom_keys(line),
    }
}

/// The custom properties of a raw line: its JSON object without the standard
/// fields, or `None` where nothing remains or the line is no JSON object.
pub fn custom_properties(line: &str) -> (r: Option<serde_json::Map<String, serde_json::Value>>)
    ensures
        match r {
            Some(m) => custom_keys(line@) == Some(crate::json::object_keys(m)),
            None => custom_keys(line@) is None,
        },
{
    match parse_object(line) {
        Some(mut m) => {
            keep_custom_keys(&mut m);
            if object_is_empty(&m) {
                None
            } else {
                Some(m)
            }
        },
        None => None,
    }
}

/// Turns a decoded event and its raw line into the record a caller sees.
pub fn project_event(line: &str, ev: SerializableEvent) -> (r: EventRecord)
    ensures
        r@ == project(line@, ev@),
{
    let message = match ev.message {
        Some(m) => m,
        None => ev.template.clone(),
    };
    let template = if !ev.template.as_str().is_empty() && !(ev.template == message) {
        Some(ev.template)
    } else {
        None
    };
    let timestamp = match ev.time {
        Some(t) => t,
        None => "Unknown".to_owned(),
    };
    let level = match ev.level {
        Some(l) => l,
        None => "Information".to_owned(),
    };
    EventRecord {
        timestamp,
        level,
        message,
        template,
        exception: ev.exception,
        event_id: ev.eventid,
        properties: custom_properties(line),
    }
}

} // verus!
