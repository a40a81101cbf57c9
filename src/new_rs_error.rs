//! The error of the project maker: a kind to match on and a message.
use vstd::prelude::*;

verus! {

#[derive(Debug, Clone, Copy, PartialEq, Eq, Structural)]
pub enum NewInnerErrType {
    ProjectExists,
    IoError,
}

#[derive(Debug)]
pub struct NewInnerError {
    pub err_str: String,
    pub err_type: NewInnerErrType,
}

impl NewInnerError {
    pub fn new(err_type: NewInnerErrType, err_str: String) -> (r: NewInnerError)
        ensures
            r.err_type == err_type,
            r.err_str@ == err_str@,
    {
        Self { err_type, err_str }
    }

    pub fn io_error(err_string: &str) -> (r: NewInnerError)
        ensures
            r.err_type == NewInnerErrType::IoError,
            r.err_str@ == err_string@,
    {
        Self { err_type: NewInnerErrType::IoError, err_str: err_string.to_owned() }
    }

    /// An I/O error, from the text of the error that the file system gave.
    pub fn from_io_err(io_err: String) -> (r: NewInnerError)
        ensures
            r.err_type == NewInnerErrType::IoError,
            r.err_str@ == io_err@,
    {
        NewInnerError::new(NewInnerErrType::IoError, io_err)
    }

    pub fn kind(&self) -> (r: NewInnerErrType)
        ensures
            r == self.err_type,
    {
        self.err_type
    }
}

} // verus!
