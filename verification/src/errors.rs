//! The harness error taxonomy. Compilation of a pattern and the uniqueness
//! of scenario names are the only things the harness itself can get wrong;
//! a failure inside a measured operation propagates uncaught, and export
//! I/O is the caller's affair.

use vstd::prelude::*;
use vstd::string::StringExecFns;

verus! {

/// Invalid pattern syntax, found at startup before any measurement: the
/// offending pattern together with the compiler's diagnostic.
#[derive(Debug)]
pub struct CompileError {
    pub pattern: String,
    pub message: String,
}

/// What can stop a suite run: a pattern that does not compile, or two
/// scenarios under one name.
#[derive(Debug)]
pub enum BenchError {
    Compile(CompileError),
    DuplicateName(String),
}

impl BenchError {
    /// A one-line diagnostic identifying the failing stage.
    pub fn describe(&self) -> (r: String)
        ensures
            self matches BenchError::Compile(e) ==> r@ == "pattern failed to compile: "@ + e.pattern@,
            self matches BenchError::DuplicateName(n) ==> r@ == "duplicate scenario name: "@ + n@,
    {
        match self {
            BenchError::Compile(e) => {
                let mut s = String::new();
                s.append("pattern failed to compile: ");
                s.append(e.pattern.as_str());
                proof {
                    assert(s@ =~= "pattern failed to compile: "@ + e.pattern@);
                }
                s
            },
            BenchError::DuplicateName(n) => {
                let mut s = String::new();
                s.append("duplicate scenario name: ");
                s.append(n.as_str());
                proof {
                    assert(s@ =~= "duplicate scenario name: "@ + n@);
                }
                s
            },
        }
    }
}

} // verus!
