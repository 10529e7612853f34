//! One event on its way to the operating system: the category that its
//! fields name, the text that was rendered for it, and the record that is
//! reported.

use crate::buffer::FormatBuffer;
use crate::catalog::{
    category_code, category_of_key, event_type_of, message_id_of, MessageType, Severity,
};
use crate::fold::{category_key, fold};
use crate::error::EventLogError;
use crate::text::str_eq;
use crate::wide::{to_wide, wide_encoding};
use vstd::prelude::*;
use vstd::string::StringSliceAdditionalSpecFns;
use vstd::utf8::{decode_utf8, encode_utf8_decode_utf8, valid_utf8};

verus! {

/// One field of an event: its name and its value as rendered for debugging.
pub struct FieldView {
    pub name: Seq<char>,
    pub value: Seq<char>,
}

/// The label that the fields of an event give as its category: the value of
/// the last field named `category`, or nothing where no field has that
/// name. Only that very name counts.
pub open spec fn category_label(fields: Seq<FieldView>) -> Seq<char>
    decreases fields.len(),
{
    if fields.len() == 0 {
        Seq::empty()
    } else if fields.last().name == "category"@ {
        fields.last().value
    } else {
        category_label(fields.drop_last())
    }
}

/// The label after one more field was seen.
pub open spec fn recorded(label: Seq<char>, field: FieldView) -> Seq<char> {
    if field.name == "category"@ {
        field.value
    } else {
        label
    }
}

/// The label after the fields `fields` were seen in their order.
pub open spec fn recorded_all(label: Seq<char>, fields: Seq<FieldView>) -> Seq<char>
    decreases fields.len(),
{
    if fields.len() == 0 {
        label
    } else {
        recorded(recorded_all(label, fields.drop_last()), fields.last())
    }
}

/// Whether a field of this name gives the category of an event.
pub fn is_category_field(field: &str) -> (named: bool)
    ensures
        named == (field@ == "category"@),
{
    str_eq(field, "category")
}

/// Looks at the fields of an event, one after the other, for its category.
#[derive(Debug)]
pub struct CategoryVisitor {
    category: String,
}

impl View for CategoryVisitor {
    type V = Seq<char>;

    closed spec fn view(&self) -> Seq<char> {
        self.category@
    }
}

impl CategoryVisitor {
    /// A visitor that has seen no field: its label is empty.
    pub fn new() -> (visitor: CategoryVisitor)
        ensures
            visitor@ == Seq::<char>::empty(),
    {
        CategoryVisitor { category: String::new() }
    }

    /// Takes note of one field, given by its name and its rendered value.
    pub fn record_debug(&mut self, field: &str, value: &str)
        ensures
            final(self)@ == recorded(old(self)@, FieldView { name: field@, value: value@ }),
    {
        if is_category_field(field) {
            self.category = value.to_owned();
        }
    }

    /// The label that was found.
    pub fn into_category(self) -> (label: String)
        ensures
            label@ == self@,
    {
        self.category
    }
}

/// A visitor that has seen all fields of an event holds the value of the
/// last field named `category`, or an empty label where there is none.
pub proof fn lemma_visitor_finds_category(fields: Seq<FieldView>)
    ensures
        recorded_all(Seq::empty(), fields) == category_label(fields),
        (forall|i: int| 0 <= i < fields.len() ==> (#[trigger] fields[i]).name != "category"@)
            ==> category_label(fields) == Seq::<char>::empty(),
    decreases fields.len(),
{
    if fields.len() > 0 {
        let front = fields.drop_last();
        lemma_visitor_finds_category(front);
        if forall|i: int| 0 <= i < fields.len() ==> (#[trigger] fields[i]).name != "category"@ {
            assert forall|i: int| 0 <= i < front.len() implies (#[trigger] front[i]).name
                != "category"@ by {
                assert(front[i] == fields[i]);
            }
            assert(fields[fields.len() - 1].name != "category"@);
        }
    }
}

/// An event as it is handed to the operating system.
#[derive(Debug, Clone, PartialEq, Eq)]
pub struct EventRecord {
    /// The event type of the severity.
    pub event_type: u16,
    /// The code of the category, 0 for none.
    pub category: u16,
    /// The message of the catalog that renders the event.
    pub event_id: u32,
    /// The rendered text in wide characters, without a terminator.
    pub message: Vec<u16>,
}

/// What encoding the rendered bytes of an event for the operating system
/// gives: the UTF-16 code units of the text, or the reason why they are no
/// message.
pub open spec fn message_encoding(bytes: Seq<u8>) -> Result<Seq<u16>, EventLogError> {
    if !valid_utf8(bytes) {
        Err(EventLogError::InvalidMessage(None))
    } else {
        match wide_encoding(decode_utf8(bytes)) {
            Ok(units) => Ok(units),
            Err(at) => Err(EventLogError::InvalidMessage(Some(at as usize))),
        }
    }
}

/// What encoding the name of an event source for the operating system
/// gives.
pub open spec fn name_encoding(name: Seq<char>) -> Result<Seq<u16>, EventLogError> {
    match wide_encoding(name) {
        Ok(units) => Ok(units),
        Err(at) => Err(EventLogError::InvalidName(at as usize)),
    }
}

/// Calls `core::str::from_utf8` and keeps the text where there is one. The
/// contract says what the documentation of that function says: the bytes
/// are taken for text exactly where they are UTF-8, and the text is then
/// made of those very bytes.
#[verifier::external_body]
fn utf8_text(bytes: &[u8]) -> (text: Option<&str>)
    ensures
        text is Some == valid_utf8(bytes@),
        text matches Some(found) ==> found.spec_bytes() == bytes@,
{
    core::str::from_utf8(bytes).ok()
}

/// Encodes the name of an event source for the operating system.
pub fn encode_source_name(source: &str) -> (wide: Result<Vec<u16>, EventLogError>)
    ensures
        match wide {
            Ok(units) => name_encoding(source@) == Ok::<Seq<u16>, EventLogError>(units@),
            Err(error) => name_encoding(source@) == Err::<Seq<u16>, EventLogError>(error),
        },
{
    match to_wide(source) {
        Ok(units) => Ok(units),
        Err(at) => Err(EventLogError::InvalidName(at)),
    }
}

/// Encodes the rendered bytes of an event for the operating system.
pub fn encode_message(bytes: &[u8]) -> (wide: Result<Vec<u16>, EventLogError>)
    ensures
        match wide {
            Ok(units) => message_encoding(bytes@) == Ok::<Seq<u16>, EventLogError>(units@),
            Err(error) => message_encoding(bytes@) == Err::<Seq<u16>, EventLogError>(error),
        },
{
    match utf8_text(bytes) {
        None => Err(EventLogError::InvalidMessage(None)),
        Some(text) => {
            proof {
                encode_utf8_decode_utf8(text@);
            }
            match to_wide(text) {
                Ok(units) => Ok(units),
                Err(at) => Err(EventLogError::InvalidMessage(Some(at))),
            }
        },
    }
}

/// Makes the record of one event: drains the buffer, which holds the text
/// rendered for the event, and joins the text in wide characters with the
/// codes of the severity and of the category. `category` is the field of
/// the event as rendered for debugging: the quotes around it and the white
/// space inside them are taken off before the catalog is asked for the name.
///
/// The buffer is left empty whether or not a record comes of it.
pub fn on_event(level: Severity, category: String, buffer: &mut FormatBuffer) -> (record: Result<
    EventRecord,
    EventLogError,
>)
    ensures
        final(buffer)@ == Seq::<u8>::empty(),
        match record {
            Ok(event) => {
                &&& message_encoding(old(buffer)@) == Ok::<Seq<u16>, EventLogError>(event.message@)
                &&& event.event_type == event_type_of(level)
                &&& event.event_id == message_id_of(level)
                &&& event.category == category_code(category_key(category@))
            },
            Err(error) => message_encoding(old(buffer)@) == Err::<Seq<u16>, EventLogError>(error),
        },
{
    let text = buffer.drain();
    let key = fold(category.as_str());
    let code = category_of_key(key.as_str());
    let kind = MessageType::from(level);
    match encode_message(text.as_slice()) {
        Ok(message) => Ok(
            EventRecord {
                event_type: kind.message_type,
                category: code,
                event_id: kind.level,
                message,
            },
        ),
        Err(error) => Err(error),
    }
}

} // verus!
