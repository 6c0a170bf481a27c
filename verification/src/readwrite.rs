use vstd::prelude::*;
use crate::pipeline::Pipeline;

verus! {

/// When a field may be read.
#[derive(Debug)]
pub enum Read {
    Read,
    NoRead,
    ReadIf(Pipeline),
}

impl Read {
    /// Whether the field is never read.
    pub fn is_no_read(&self) -> (r: bool)
        ensures
            r == (*self is NoRead),
    {
        match self {
            Read::NoRead => true,
            _ => false,
        }
    }
}

/// When a field may be written.
#[derive(Debug)]
pub enum Write {
    NoWrite,
    Write,
    WriteOnCreate,
    WriteOnce,
    WriteNonNull,
    WriteIf(Pipeline),
}

impl Write {
    /// Whether the field is never written.
    pub fn is_no_write(&self) -> (r: bool)
        ensures
            r == (*self is NoWrite),
    {
        match self {
            Write::NoWrite => true,
            _ => false,
        }
    }
}

} // verus!
