use vstd::prelude::*;

verus! {

/// Why a pass over a configuration document stopped.
#[derive(Debug, PartialEq, Eq)]
pub enum TransformError {
    /// A `[[subsection]]` header came before any `[section]` header;
    /// `line` is the header as classified (comment marker and whitespace removed).
    SubsectionAtRoot { line: String },
    /// A line taken for an assignment did not split into a key and a value.
    MalformedAssignment { line: String },
}

} // verus!
