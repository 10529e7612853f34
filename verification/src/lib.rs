//! Structured log events for the operating system's event log.
//!
//! The crate holds what is decided when an event is reported and when an
//! event source is made known to the operating system: the message catalog,
//! the buffer that takes the rendered text of one event, the encoding of
//! text in wide characters, the record that is reported, and the plan of
//! the registry writes that register a source. The calls into the operating
//! system are made by whoever uses the crate, from what it hands out.

pub mod buffer;
pub mod catalog;
pub mod demo;
pub mod error;
pub mod event;
pub mod fold;
pub mod keys;
pub mod laws;
pub mod model;
pub mod registry;
pub mod state;
pub mod text;
pub mod wide;

pub use buffer::FormatBuffer;
pub use catalog::{get_category, severity_info, total_category_count, MessageType, Severity};
pub use error::{EventLogError, RegistryError};
pub use event::{on_event, CategoryVisitor, EventRecord};
pub use keys::{KeyPath, RegistryValue, RegistryWrite};
pub use registry::{ExeLookup, LogSource, Probe};
pub use state::RegistryState;
