use vstd::prelude::*;

verus! {

/// The ways in which reading an archive or decoding one of its lumps can fail.
#[derive(Debug, Clone, Copy, PartialEq, Eq, Structural)]
pub enum WadError {
    /// The archive is cut short at the container level (header or directory).
    IoError,
    /// The bytes do not follow the expected layout.
    FormatError,
    /// No lump has the requested name.
    NotFound,
}

} // verus!
