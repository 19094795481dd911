use vstd::prelude::*;
use crate::model::SerializableEvent;
use crate::model::EventView;

verus! {

#[verifier::external_type_specification]
#[verifier::external_body]
pub struct ExJsonError(serde_json::Error);

#[verifier::external_type_specification]
#[verifier::external_body]
pub struct ExJsonValue(serde_json::Value);

#[verifier::external_type_specification]
#[verifier::external_body]
#[verifier::reject_recursive_types(K)]
#[verifier::reject_recursive_types(V)]
pub struct ExJsonMap<K, V>(serde_json::Map<K, V>);

/// The keys of a JSON object, in the order the object keeps them.
pub uninterp spec fn object_keys(m: serde_json::Map<String, serde_json::Value>) -> Seq<Seq<char>>;

/// The keys of the JSON object that a line of text holds, or `None` where the
/// text is not a JSON object.
pub uninterp spec fn parsed_object_keys(line: Seq<char>) -> Option<Seq<Seq<char>>>;

/// The event that a line decodes to, or `None` where it does not decode.
pub uninterp spec fn clef_decode(line: Seq<char>) -> Option<EventView>;

/// Relies on serde_json::from_str reading a line into cleverlib's `Event`, whose
/// serde field names are those of the compact log event format (`@t`, `@m`,
/// `@mt`, `@l`, `@x`, `@i`, `@r`). The outcome depends on the line alone.
#[verifier::external_body]
pub(crate) fn decode_event(line: &str) -> (r: Result<SerializableEvent, serde_json::Error>)
    ensures
        match r {
            Ok(e) => clef_decode(line@) == Some(e@),
            Err(_) => clef_decode(line@) is None,
        },
{
    match serde_json::from_str::<cleverlib::event::Event>(line) {
        Ok(e) => Ok(SerializableEvent {
            time: e.time,
            message: e.message,
            template: e.template,
            level: e.level,
            exception: e.exception,
            eventid: e.eventid,
            renderings: e.renderings,
        }),
        Err(err) => Err(err),
    }
}

/// Relies on the `Display` of serde_json's `Error` for a readable description.
#[verifier::external_body]
pub(crate) fn error_text(e: &serde_json::Error) -> String {
    e.to_string()
}

/// Relies on serde_json::from_str reading a line as a JSON object, which keeps
/// its keys in the order they appear (serde_json's `preserve_order`).
#[verifier::external_body]
pub(crate) fn parse_object(line: &str) -> (r: Option<serde_json::Map<String, serde_json::Value>>)
    ensures
        match r {
            Some(m) => parsed_object_keys(line@) == Some(object_keys(m)),
            None => parsed_object_keys(line@) is None,
        },
{
    match serde_json::from_str::<serde_json::Map<String, serde_json::Value>>(line) {
        Ok(m) => Some(m),
        Err(_) => None,
    }
}

/// Relies on serde_json's `Map::retain`: it drops the entries whose key the
/// predicate refuses and keeps the others in their order.
#[verifier::external_body]
pub(crate) fn keep_custom_keys(m: &mut serde_json::Map<String, serde_json::Value>)
    ensures
        object_keys(*final(m)) == object_keys(*old(m)).filter(
            |k: Seq<char>| !crate::project::is_reserved_key(k),
        ),
{
    m.retain(|k, _| !crate::project::is_reserved_key_name(k.as_str()))
}

/// Relies on serde_json's `Map::is_empty`.
#[verifier::external_body]
pub(crate) fn object_is_empty(m: &serde_json::Map<String, serde_json::Value>) -> (r: bool)
    ensures
        r == (object_keys(*m).len() == 0),
{
    m.is_empty()
}

} // verus!
