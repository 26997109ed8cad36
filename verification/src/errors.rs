//! Failure taxonomy of a run. A failure aborts only the file it occurred
//! in and is surfaced to the orchestrator as that file's reason; a
//! skipped record is not a failure and never escalates.

use vstd::prelude::*;
use vstd::string::StringExecFns;

verus! {

/// Why one input file failed.
pub enum AnnotatetorError {
    /// Archive framing or annotation structure was malformed: record
    /// boundaries cannot be recovered, fatal to the current file.
    Decode(String),
    /// A path could not be opened, read, created or written: fatal to the
    /// current file, or to the run when it is the destination root.
    Io(String),
    /// A required field was absent where the layout mandates presence:
    /// fatal to the current file.
    Schema(String),
}

impl AnnotatetorError {
    /// A one-line report of the failure: its kind, then its detail.
    pub fn describe(&self) -> (r: String)
        ensures
            match self {
                AnnotatetorError::Decode(m) => r@ == "decode error: "@ + m@,
                AnnotatetorError::Io(m) => r@ == "io error: "@ + m@,
                AnnotatetorError::Schema(m) => r@ == "schema error: "@ + m@,
            },
    {
        match self {
            AnnotatetorError::Decode(m) => {
                let mut s = "decode error: ".to_owned();
                s.append(m.as_str());
                s
            },
            AnnotatetorError::Io(m) => {
                let mut s = "io error: ".to_owned();
                s.append(m.as_str());
                s
            },
            AnnotatetorError::Schema(m) => {
                let mut s = "schema error: ".to_owned();
                s.append(m.as_str());
                s
            },
        }
    }
}

} // verus!
