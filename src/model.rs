use vstd::prelude::*;

verus! {

/// The view of an optional string.
pub open spec fn opt_view(o: Option<String>) -> Option<Seq<char>> {
    match o {
        Some(s) => Some(s@),
        None => None,
    }
}

/// One decoded event, with the fields of the compact log event format.
#[derive(Clone, Debug, PartialEq, Eq)]
pub struct SerializableEvent {
    pub time: Option<String>,
    pub message: Option<String>,
    pub template: String,
    pub level: Option<String>,
    pub exception: Option<String>,
    pub eventid: Option<String>,
    pub renderings: Vec<String>,
}

/// The mathematical content of a decoded event.
pub struct EventView {
    pub time: Option<Seq<char>>,
    pub message: Option<Seq<char>>,
    pub template: Seq<char>,
    pub level: Option<Seq<char>>,
    pub exception: Option<Seq<char>>,
    pub eventid: Option<Seq<char>>,
    pub renderings: Seq<Seq<char>>,
}

impl View for SerializableEvent {
    type V = EventView;

    open spec fn view(&self) -> EventView {
        EventView {
            time: opt_view(self.time),
            message: opt_view(self.message),
            template: self.template@,
            level: opt_view(self.level),
            exception: opt_view(self.exception),
            eventid: opt_view(self.eventid),
            renderings: self.renderings@.map_values(|r: String| r@),
        }
    }
}

/// A summary of a whole log file.
#[derive(Clone, Debug, PartialEq, Eq)]
pub struct LogFileInfo {
    pub path: String,
    pub total_count: usize,
    pub log_levels: Vec<String>,
    pub date_range: Option<(String, String)>,
}

/// Criteria a caller may use to narrow the records it shows.
#[derive(Clone, Debug, PartialEq, Eq)]
pub struct FilterOptions {
    pub level_filter: Option<String>,
    pub text_filter: Option<String>,
    pub date_from: Option<String>,
    pub date_to: Option<String>,
}

/// The externally visible shape of one event.
#[derive(Clone, Debug, PartialEq)]
pub struct EventRecord {
    pub timestamp: String,
    pub level: String,
    pub message: String,
    pub template: Option<String>,
    pub exception: Option<String>,
    pub event_id: Option<String>,
    pub properties: Option<serde_json::Map<String, serde_json::Value>>,
}

/// What a record says, with its custom properties seen through their keys.
pub struct RecordView {
    pub timestamp: Seq<char>,
    pub level: Seq<char>,
    pub message: Seq<char>,
    pub template: Option<Seq<char>>,
    pub exception: Option<Seq<char>>,
    pub event_id: Option<Seq<char>>,
    pub property_keys: Option<Seq<Seq<char>>>,
}

impl View for EventRecord {
    type V = RecordView;

    open spec fn view(&self) -> RecordView {
        RecordView {
            timestamp: self.timestamp@,
            level: self.level@,
            message: self.message@,
            template: opt_view(self.template),
            exception: opt_view(self.exception),
            event_id: opt_view(self.event_id),
            property_keys: match self.properties {
                Some(m) => Some(crate::json::object_keys(m)),
                None => None,
            },
        }
    }
}

/// The ways an operation on a log file can fail.
#[derive(Clone, Debug, PartialEq, Eq)]
pub enum LogError {
    /// The path does not exist.
    NotFound { path: String },
    /// The file could not be opened or read.
    IoFailure { detail: String },
    /// A line could not be decoded while decoding was strict; `line` counts the
    /// lines of the batch from zero.
    DecodeFailure { line: usize, detail: String },
}

} // verus!
