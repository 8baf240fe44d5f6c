//! Regular-expression search over the flattened paths of a JSON document.
//!
//! A document is a tree of objects, arrays and scalars. Flattening turns it
//! into an ordered sequence of records, one per scalar leaf or empty
//! container, each made of a slash-joined path of object keys and the JSON
//! text of the leaf. A search keeps the records whose path matches a pattern
//! and renders one line per kept record.

pub mod error;
pub mod flatten;
pub mod json;
pub mod options;
pub mod pattern;
pub mod search;
