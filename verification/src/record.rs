//! The immutable value describing one log event.

use vstd::prelude::*;

use crate::level::Level;

verus! {

/// One log event: a severity, the hierarchical name of the emitting
/// component, the already-rendered argument text, and optional source
/// metadata.
///
/// A record is immutable once constructed.  The dispatch tree only ever reads
/// it and derives new rendered text from it; no node or sink mutates it.
pub struct Record {
    pub level: Level,
    pub target: String,
    pub message: String,
    pub module: Option<String>,
    pub file: Option<String>,
    pub line: Option<u32>,
}

impl Record {
    /// Builds a record without source metadata.
    pub fn new(level: Level, target: String, message: String) -> (r: Record)
        ensures
            r.level == level,
            r.target == target,
            r.message == message,
            r.module is None,
            r.file is None,
            r.line is None,
    {
        Record { level, target, message, module: None, file: None, line: None }
    }

    /// Builds a record carrying the emitting call site's source metadata.
    pub fn with_source(
        level: Level,
        target: String,
        message: String,
        module: Option<String>,
        file: Option<String>,
        line: Option<u32>,
    ) -> (r: Record)
        ensures
            r.level == level,
            r.target == target,
            r.message == message,
            r.module == module,
            r.file == file,
            r.line == line,
    {
        Record { level, target, message, module, file, line }
    }
}

} // verus!
