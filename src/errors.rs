use vstd::prelude::*;

verus! {

/// Why a dataset could not be read.
#[derive(Debug, Clone, Copy, PartialEq, Eq, Structural)]
pub enum LoadError {
    /// The source is missing, unreadable or could not be opened.
    File,
    /// The content is not a valid record collection.
    Format,
}

/// Why a dataset could not be written.
#[derive(Debug, Clone, Copy, PartialEq, Eq, Structural)]
pub enum SaveError {
    /// The destination could not be opened or created.
    File,
    /// Writing failed part of the way through.
    Write,
    /// A record could not be encoded.
    Format,
}

} // verus!
