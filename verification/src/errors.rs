//! The error taxonomy of the orchestration engine. Every failure a caller can
//! see is one of these variants; each carries enough to render an actionable
//! message.

use vstd::prelude::*;

verus! {

use crate::text::int_text;
use crate::text::i64_text;

/// A terminal failure of one invocation of the tool.
#[derive(Debug, Clone, PartialEq, Eq)]
pub enum Error {
    /// No project root could be resolved where one was required.
    NotInProject,
    /// The container backend tool is not installed.
    BackendUnavailable,
    /// Hardware source discovery produced an empty set.
    NoSourcesFound,
    /// A backend invocation returned a non-zero exit status.
    CommandFailed { code: Option<i32> },
    /// A test requested by name has no test-bench file.
    TestNotFound { name: String },
    /// At least one unit of the test suite was classified as failing.
    SomeTestsFailed,
}

/// The human-readable message of each error.
pub open spec fn message_of(e: Error) -> Seq<char> {
    match e {
        Error::NotInProject => "Not in an Affogato project. Run 'affogato new <name>' to create one, or 'affogato init' to initialize the current directory."@,
        Error::BackendUnavailable => "Docker not found. Please install Docker: https://docs.docker.com/get-docker/"@,
        Error::NoSourcesFound => "No Verilog files found in fpga/rtl/"@,
        Error::CommandFailed { code } => match code {
            Some(c) => "Command failed with exit code: "@ + int_text(c as int),
            None => "Command failed with exit code: unknown"@,
        },
        Error::TestNotFound { name } => "Test not found: "@ + name@ + "_tb.v"@,
        Error::SomeTestsFailed => "Some tests failed"@,
    }
}

impl Error {
    /// Renders the error for the console.
    pub fn message(&self) -> (r: String)
        ensures
            r@ == message_of(*self),
    {
        match self {
            Error::NotInProject => "Not in an Affogato project. Run 'affogato new <name>' to create one, or 'affogato init' to initialize the current directory.".to_owned(),
            Error::BackendUnavailable => "Docker not found. Please install Docker: https://docs.docker.com/get-docker/".to_owned(),
            Error::NoSourcesFound => "No Verilog files found in fpga/rtl/".to_owned(),
            Error::CommandFailed { code } => {
                match code {
                    Some(c) => {
                        let mut s = "Command failed with exit code: ".to_owned();
                        let t = i64_text(*c as i64);
                        proof {
                            assert(*c as i64 as int == *c as int);
                        }
                        s.append(t.as_str());
                        s
                    },
                    None => "Command failed with exit code: unknown".to_owned(),
                }
            },
            Error::TestNotFound { name } => {
                let mut s = "Test not found: ".to_owned();
                s.append(name.as_str());
                s.append("_tb.v");
                s
            },
            Error::SomeTestsFailed => "Some tests failed".to_owned(),
        }
    }
}

} // verus!
