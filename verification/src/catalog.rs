//! The message catalog: category names and severities with their codes.

use crate::fold::{
    category_key, lemma_folded_is_stable, lemma_folded_twice, lemma_trimmed, lowercase,
    to_lowercase, trim, trimmed, unquoted, unrendered,
};
use crate::text::str_eq;
use vstd::prelude::*;
use vstd::std_specs::convert::FromSpecImpl;
use vstd::utf8::is_ascii_chars;

verus! {

/// How many categories the catalog holds.
pub const CATEGORY_COUNT: u32 = 3;

/// The code of the category "Database Events".
pub const DATABASE_EVENTS_CATEGORY: u16 = 1;

/// The code of the category "Network Events".
pub const NETWORK_EVENTS_CATEGORY: u16 = 2;

/// The code of the category "UI Events".
pub const UI_EVENTS_CATEGORY: u16 = 3;

/// The message that renders an error.
pub const MSG_ERROR: u32 = 0xC0000100;

/// The message that renders a warning.
pub const MSG_WARNING: u32 = 0x80000101;

/// The message that renders a piece of information.
pub const MSG_INFO: u32 = 0x40000102;

/// The message that renders an event for debugging.
pub const MSG_DEBUG: u32 = 0x40000103;

/// The message that renders a trace.
pub const MSG_TRACE: u32 = 0x40000104;

/// The event type of an error, as the operating system numbers it.
pub const EVENTLOG_ERROR_TYPE: u16 = 1;

/// The event type of a warning, as the operating system numbers it.
pub const EVENTLOG_WARNING_TYPE: u16 = 2;

/// The event type of a piece of information, as the operating system
/// numbers it.
pub const EVENTLOG_INFORMATION_TYPE: u16 = 4;

/// The event types that a source of this catalog reports, as one mask.
pub const TYPES_SUPPORTED: u32 = 7;

/// How important an event is, from most to least severe.
#[derive(Clone, Copy, Debug, PartialEq, Eq, Structural)]
pub enum Severity {
    Error,
    Warn,
    Info,
    Debug,
    Trace,
}

/// The event type and the message of a severity, as the operating system
/// takes them.
#[derive(Clone, Copy, Debug, PartialEq, Eq, Structural)]
pub struct MessageType {
    pub message_type: u16,
    pub level: u32,
}

/// The event type under which the operating system files events of a
/// severity.
pub open spec fn event_type_of(level: Severity) -> u16 {
    match level {
        Severity::Error => EVENTLOG_ERROR_TYPE,
        Severity::Warn => EVENTLOG_WARNING_TYPE,
        Severity::Info => EVENTLOG_INFORMATION_TYPE,
        Severity::Debug => EVENTLOG_INFORMATION_TYPE,
        Severity::Trace => EVENTLOG_INFORMATION_TYPE,
    }
}

/// The message of the catalog that renders events of a severity.
pub open spec fn message_id_of(level: Severity) -> u32 {
    match level {
        Severity::Error => MSG_ERROR,
        Severity::Warn => MSG_WARNING,
        Severity::Info => MSG_INFO,
        Severity::Debug => MSG_DEBUG,
        Severity::Trace => MSG_TRACE,
    }
}

impl From<Severity> for MessageType {
    fn from(level: Severity) -> (kind: MessageType) {
        let (message_type, level) = match level {
            Severity::Error => (EVENTLOG_ERROR_TYPE, MSG_ERROR),
            Severity::Warn => (EVENTLOG_WARNING_TYPE, MSG_WARNING),
            Severity::Info => (EVENTLOG_INFORMATION_TYPE, MSG_INFO),
            Severity::Debug => (EVENTLOG_INFORMATION_TYPE, MSG_DEBUG),
            Severity::Trace => (EVENTLOG_INFORMATION_TYPE, MSG_TRACE),
        };
        MessageType { message_type, level }
    }
}

impl FromSpecImpl<Severity> for MessageType {
    open spec fn obeys_from_spec() -> bool {
        true
    }

    open spec fn from_spec(level: Severity) -> MessageType {
        MessageType { message_type: event_type_of(level), level: message_id_of(level) }
    }
}

/// The event type and the message id of a severity. The pair depends on the
/// severity alone: every call with one severity gives one pair.
pub fn severity_info(level: Severity) -> (info: (u32, u32))
    ensures
        info.0 == event_type_of(level),
        info.1 == message_id_of(level),
{
    let kind = MessageType::from(level);
    (kind.message_type as u32, kind.level)
}

/// No two severities share a message.
pub proof fn lemma_message_ids_differ(a: Severity, b: Severity)
    requires
        a != b,
    ensures
        message_id_of(a) != message_id_of(b),
{
}

/// The code of the category that the catalog holds under `key`, or 0 where
/// it holds none. The keys are the names of the categories in lower case.
pub open spec fn category_code(key: Seq<char>) -> u16 {
    if key == "database events"@ {
        DATABASE_EVENTS_CATEGORY
    } else if key == "network events"@ {
        NETWORK_EVENTS_CATEGORY
    } else if key == "ui events"@ {
        UI_EVENTS_CATEGORY
    } else {
        0
    }
}

/// The code of the category that a label names, however the label is cased
/// and whatever white space surrounds it, or 0 where it names none.
pub open spec fn category_id(label: Seq<char>) -> u16 {
    category_code(lowercase(trimmed(label)))
}

/// The code of the category that the catalog holds under `key`, taken as it
/// stands.
pub fn category_of_key(key: &str) -> (code: u16)
    ensures
        code == category_code(key@),
{
    if str_eq(key, "database events") {
        DATABASE_EVENTS_CATEGORY
    } else if str_eq(key, "network events") {
        NETWORK_EVENTS_CATEGORY
    } else if str_eq(key, "ui events") {
        UI_EVENTS_CATEGORY
    } else {
        0
    }
}

/// The code of the category that `category` names, or 0 where the catalog
/// knows no such category. Only the white space around the name and the case
/// of its letters are left out of account.
pub fn get_category(category: String) -> (code: u16)
    ensures
        code == category_id(category@),
{
    let key = to_lowercase(trim(category.as_str()));
    category_of_key(key.as_str())
}

/// A label that the catalog knows resolves as the label does that trimming
/// and lower case make of it, whatever its characters, and a label that is,
/// trimmed and in lower case, none of the catalog's names resolves to 0.
pub proof fn lemma_category_resolution(label: Seq<char>)
    ensures
        category_id(label) != 0 ==> category_id(lowercase(trimmed(label))) == category_id(label),
        lowercase(trimmed(label)) != "database events"@ && lowercase(trimmed(label))
            != "network events"@ && lowercase(trimmed(label)) != "ui events"@ ==> category_id(
            label,
        ) == 0,
{
    reveal_strlit("database events");
    reveal_strlit("network events");
    reveal_strlit("ui events");
    if category_id(label) != 0 {
        lemma_folded_is_stable(lowercase(trimmed(label)));
    }
}

/// A label resolves as the label does that trimming and lower case make of
/// it, whether the catalog knows it or not, where the trimmed label is of
/// ASCII.
pub proof fn lemma_category_ignores_case_and_space(label: Seq<char>)
    requires
        is_ascii_chars(trimmed(label)),
    ensures
        category_id(lowercase(trimmed(label))) == category_id(label),
{
    lemma_folded_twice(label);
}

/// The code tells the name: two labels with one code that is not 0 are,
/// trimmed and in lower case, the same.
pub proof fn lemma_code_tells_the_name(one: Seq<char>, other: Seq<char>)
    requires
        category_id(one) != 0,
        category_id(one) == category_id(other),
    ensures
        lowercase(trimmed(one)) == lowercase(trimmed(other)),
{
}

/// The category of an event is that of the name its field stands for: the
/// key under which the field is looked up is what trimming and lower case
/// make of that name.
pub proof fn lemma_category_of_rendered(label: Seq<char>)
    ensures
        category_code(category_key(label)) == category_id(unrendered(label)),
{
    lemma_trimmed(unquoted(trimmed(label)));
}

/// How many categories the catalog holds.
pub fn total_category_count() -> (count: u32)
    ensures
        count == CATEGORY_COUNT,
{
    CATEGORY_COUNT
}

/// The mask of the event types that a source reports: errors, warnings and
/// information.
pub fn supported_types() -> (mask: u32)
    ensures
        mask == TYPES_SUPPORTED,
        mask == (EVENTLOG_ERROR_TYPE | EVENTLOG_WARNING_TYPE | EVENTLOG_INFORMATION_TYPE) as u32,
{
    let mask: u16 = EVENTLOG_ERROR_TYPE | EVENTLOG_WARNING_TYPE | EVENTLOG_INFORMATION_TYPE;
    assert(1u16 | 2u16 | 4u16 == 7u16) by (bit_vector);
    mask as u32
}

} // verus!
