use vstd::prelude::*;

verus! {

/// Why a transaction is rejected.
#[derive(Clone, Copy, Debug, PartialEq, Eq, Structural)]
pub enum Error {
    IndexOutOfBound,
    ItemMissing,
    LengthNotEnough,
    Encoding,
    Amount,
    ArgumentsLen,
    Overflow,
}

/// A failure that the host reports for a load request.
#[derive(Clone, Copy, Debug, PartialEq, Eq, Structural)]
pub enum SysFault {
    /// No record at the requested index: the end of a channel.
    IndexOutOfBound,
    ItemMissing,
    /// The record is longer than the buffer; carries the record's length.
    LengthNotEnough(usize),
    Encoding,
    /// Any other failure class, which no rule here can recover from.
    Unknown(u64),
}

/// The status code that the host sees for each rejection; acceptance is 0.
pub open spec fn error_code(e: Error) -> i8 {
    match e {
        Error::IndexOutOfBound => 1,
        Error::ItemMissing => 2,
        Error::LengthNotEnough => 3,
        Error::Encoding => 4,
        Error::Amount => 5,
        Error::ArgumentsLen => 6,
        Error::Overflow => 7,
    }
}

/// The error that a recoverable host failure turns into. An unknown class
/// is fatal and is never mapped (`from_fault` requires a known one); its
/// entry here is only there to make the function total.
pub open spec fn fault_error(f: SysFault) -> Error {
    match f {
        SysFault::IndexOutOfBound => Error::IndexOutOfBound,
        SysFault::ItemMissing => Error::ItemMissing,
        SysFault::LengthNotEnough(_) => Error::LengthNotEnough,
        SysFault::Encoding => Error::Encoding,
        SysFault::Unknown(_) => Error::Encoding,
    }
}

pub open spec fn is_known(f: SysFault) -> bool {
    !(f is Unknown)
}

impl Error {
    /// Maps a host failure to the rejection it causes. An unknown failure
    /// class is fatal and has no such mapping.
    pub fn from_fault(f: SysFault) -> (r: Error)
        requires
            is_known(f),
        ensures
            r == fault_error(f),
    {
        match f {
            SysFault::IndexOutOfBound => Error::IndexOutOfBound,
            SysFault::ItemMissing => Error::ItemMissing,
            SysFault::LengthNotEnough(_) => Error::LengthNotEnough,
            SysFault::Encoding => Error::Encoding,
            SysFault::Unknown(_) => Error::Encoding,
        }
    }

    /// The stable nonzero status code of this rejection.
    pub fn code(&self) -> (r: i8)
        ensures
            r == error_code(*self),
            r != 0,
    {
        match self {
            Error::IndexOutOfBound => 1,
            Error::ItemMissing => 2,
            Error::LengthNotEnough => 3,
            Error::Encoding => 4,
            Error::Amount => 5,
            Error::ArgumentsLen => 6,
            Error::Overflow => 7,
        }
    }
}

/// Zero for an accepted transaction; for a rejected one, the number of its error.
pub open spec fn status_code(r: Result<(), Error>) -> i8 {
    match r {
        Ok(_) => 0,
        Err(e) => error_code(e),
    }
}

/// Turns a verdict into the status code returned to the host.
pub fn status_of(r: Result<(), Error>) -> (c: i8)
    ensures
        c == status_code(r),
        (c == 0) == (r is Ok),
{
    match r {
        Ok(_) => 0,
        Err(e) => e.code(),
    }
}

} // verus!
