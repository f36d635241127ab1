//! Typed failure reasons for file access and parsing, shared by every
//! collector.

use vstd::prelude::*;
use vstd::string::*;
use crate::text::{dec_str, u64_to_string};

verus! {

/// A collection cycle's typed failure.  A cycle either yields a fully
/// populated result or exactly one of these; no partial result exists.
#[derive(Debug, Clone)]
pub enum CollectorError {
    /// The target pseudo-file could not be opened or read.
    ProcReadError { path: String, source: String },
    /// The file was read but a required field was absent, malformed, or the
    /// line structure was unexpected.
    ParseError { path: String, field: String, raw: String },
    /// A tracked process disappeared during collection.
    ProcessVanished { pid: u32 },
    /// A collection cycle exceeded its deadline.
    Timeout { timeout_ms: u64 },
}

impl CollectorError {
    /// The error's one-line description.
    pub fn describe(&self) -> (r: String)
        ensures
            match self {
                CollectorError::ProcReadError { path, source } => r@ == "failed to read "@
                    + path@ + ": "@ + source@,
                CollectorError::ParseError { path, field, raw } => r@ == "failed to parse "@
                    + field@ + " from "@ + path@ + ": "@ + raw@,
                CollectorError::ProcessVanished { pid } => r@ == "process "@ + dec_str(
                    *pid as int,
                ) + " disappeared during collection"@,
                CollectorError::Timeout { timeout_ms } => r@ == "collection timed out after "@
                    + dec_str(*timeout_ms as int) + "ms"@,
            },
    {
        match self {
            CollectorError::ProcReadError { path, source } => {
                let mut s = "failed to read ".to_owned();
                s.append(path.as_str());
                s.append(": ");
                s.append(source.as_str());
                s
            },
            CollectorError::ParseError { path, field, raw } => {
                let mut s = "failed to parse ".to_owned();
                s.append(field.as_str());
                s.append(" from ");
                s.append(path.as_str());
                s.append(": ");
                s.append(raw.as_str());
                s
            },
            CollectorError::ProcessVanished { pid } => {
                let mut s = "process ".to_owned();
                s.append(u64_to_string(*pid as u64).as_str());
                s.append(" disappeared during collection");
                s
            },
            CollectorError::Timeout { timeout_ms } => {
                let mut s = "collection timed out after ".to_owned();
                s.append(u64_to_string(*timeout_ms).as_str());
                s.append("ms");
                s
            },
        }
    }
}

} // verus!
