//! A buffering writer for the JSON-lines import format of time-series
//! databases: each record is encoded as one JSON object on a line of its
//! own, and the lines are taken out together as one payload to post.
//!
//! - `timestamp`: instants in UTC and their millisecond counts.
//! - `json`: the text of a record line.
//! - `labels`: the order of label keys in a record.
//! - `writer`: the buffer, and the outcome of a flush.

pub mod json;
pub mod labels;
pub mod timestamp;
pub mod writer;
