//! Access records gathered from web-server logs.
//!
//! A log line that requests `/observabilityapp/d/<identifier>/<slug>` yields a
//! record of the identifier, the slug and the time of the request. Records are
//! collected per file and then merged over all files of a run, keeping for
//! each identifier the newest time seen.
//!
//! - `text`: characters, scanning, lines.
//! - `pattern`: the shape of a matching line, and the matcher.
//! - `timestamp`: the time of a request, parsed by `chrono`.
//! - `record`: records, and how one is built from the parts of a line.
//! - `mapping`: mappings from identifier to record, and how they merge.
//! - `extract`: the records of a text.
//! - `decode`: the text and the records of a file, given as bytes; gzip
//!   streams are decoded by `flate2`.
//! - `reduce`: the records of a run over several files.
//! - `laws`: what holds of all of these, proved.

pub mod decode;
pub mod extract;
pub mod laws;
pub mod mapping;
pub mod pattern;
pub mod record;
pub mod reduce;
pub mod text;
pub mod timestamp;
