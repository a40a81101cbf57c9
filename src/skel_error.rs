//! The error that the engine reports: a kind to match on and a message.
use vstd::prelude::*;

verus! {

/// What went wrong.
#[derive(Debug, Clone, Copy, PartialEq, Eq, Structural)]
pub enum SkelErrType {
    /// An error of another layer, carried as its message.
    BoxError,
    /// The destination root exists already.
    ProjectExists,
    /// A file-system operation failed.
    IoError,
    /// A configuration is missing, unreadable or incomplete.
    ConfigError,
    /// Registry entries share a key or an alias.
    DuplicateAlias,
    /// No registry entry has the requested name or alias.
    NotFound,
    /// A template entry has no content, or its include file is missing.
    ResolveError,
}

/// An error with its kind and message.
#[derive(Debug)]
pub struct SkelError {
    pub err_str: String,
    pub err_type: SkelErrType,
}

impl SkelError {
    pub fn new(err_type: SkelErrType, err_str: String) -> (r: SkelError)
        ensures
            r.err_type == err_type,
            r.err_str@ == err_str@,
    {
        Self { err_type, err_str }
    }

    /// An I/O error, from the text of the error that the file system gave.
    pub fn from_io_err(io_err: String) -> (r: SkelError)
        ensures
            r.err_type == SkelErrType::IoError,
            r.err_str@ == io_err@,
    {
        SkelError::new(SkelErrType::IoError, io_err)
    }

    /// An error of another layer, from its message.
    pub fn from_box_err(box_err: String) -> (r: SkelError)
        ensures
            r.err_type == SkelErrType::BoxError,
            r.err_str@ == box_err@,
    {
        SkelError::new(SkelErrType::BoxError, box_err)
    }

    pub fn into_string(self) -> (r: String)
        ensures
            r@ == self.err_str@,
    {
        self.err_str
    }

    pub fn kind(&self) -> (r: SkelErrType)
        ensures
            r == self.err_type,
    {
        self.err_type
    }
}

} // verus!
