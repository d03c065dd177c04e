//! Converts a product feed (an XML dialect with nested "offer" records) into
//! a flat row-major table, driven by a user-supplied column mapping.
//!
//! The pipeline is: decode raw bytes to text, pull structural events out of
//! the text, fold the events into a list of flat records, and project the
//! records through the column specification into a table. File discovery,
//! configuration loading and spreadsheet serialization are left to the
//! surrounding application.

pub mod casefold;
pub mod convert;
pub mod decode;
pub mod error;
pub mod events;
pub mod extract;
pub mod project;
pub mod record;
pub mod source;
