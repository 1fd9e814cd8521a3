use vstd::prelude::*;

verus! {

/// Error kinds shared with the kernel (wire codes -1 .. -4).
#[derive(Debug, Clone, Copy, PartialEq, Eq, Structural)]
pub enum Error {
    /// Malformed request, unknown name, bad tag.
    Invalid,
    /// The slot is empty or stale.
    NoCap,
    /// Local store or kernel allocator exhausted.
    NoMem,
    /// Authentication failed or the policy forbids the request.
    AccessDenied,
}

/// The error that a negative kernel return code stands for; unknown codes
/// are `Invalid`.
pub open spec fn error_of_code(v: int) -> Error {
    if v == -2 {
        Error::NoCap
    } else if v == -3 {
        Error::NoMem
    } else if v == -4 {
        Error::AccessDenied
    } else {
        Error::Invalid
    }
}

/// The kernel-wire code of an error.
pub open spec fn code_of_error(e: Error) -> int {
    match e {
        Error::Invalid => -1,
        Error::NoCap => -2,
        Error::NoMem => -3,
        Error::AccessDenied => -4,
    }
}

impl Error {
    /// Decode a kernel return code.
    pub fn from_raw(v: isize) -> (r: Error)
        ensures
            r == error_of_code(v as int),
    {
        match v {
            -1 => Error::Invalid,
            -2 => Error::NoCap,
            -3 => Error::NoMem,
            -4 => Error::AccessDenied,
            _ => Error::Invalid,
        }
    }

    /// The kernel-wire code of this error.
    pub fn raw(&self) -> (r: isize)
        ensures
            r as int == code_of_error(*self),
            error_of_code(r as int) == *self,
    {
        match self {
            Error::Invalid => -1,
            Error::NoCap => -2,
            Error::NoMem => -3,
            Error::AccessDenied => -4,
        }
    }
}

} // verus!
