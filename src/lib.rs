//! Catalog of note files: stable numeric ids with slot reuse, access recency,
//! query resolution by id, file name or file stem, and a summary line per note.

pub mod clock;
pub mod entry;
pub mod index;
pub mod laws;
pub mod paths;
pub mod query;
