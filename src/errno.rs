use vstd::prelude::*;

verus! {

/// Operation not permitted.
pub const EPERM: u32 = 1;

/// Interrupted call.
pub const EINTR: u32 = 4;

/// Try again: a wait timed out.
pub const EAGAIN: u32 = 11;

/// Out of memory.
pub const ENOMEM: u32 = 12;

/// Resource busy: a call that would not wait found it unavailable.
pub const EBUSY: u32 = 16;

/// Invalid argument.
pub const EINVAL: u32 = 22;

/// A kernel return code: non-negative on success, else the negated error
/// number.
pub open spec fn neg_err_of(v: i32) -> Result<u32, u32> {
    if v >= 0 {
        Ok(v as u32)
    } else {
        Err((-v) as u32)
    }
}

/// Converts a negative error code to a `Result`.
pub trait NegErr {
    spec fn neg_err_spec(&self) -> Result<u32, u32>;

    fn neg_err(&self) -> (r: Result<u32, u32>)
        ensures
            r == self.neg_err_spec(),
    ;
}

impl NegErr for i32 {
    open spec fn neg_err_spec(&self) -> Result<u32, u32> {
        neg_err_of(*self)
    }

    fn neg_err(&self) -> (r: Result<u32, u32>) {
        if *self >= 0 {
            Ok(*self as u32)
        } else {
            Err((-(*self as i64)) as u32)
        }
    }
}

/// The return code of a call that failed with error number `e`.
pub open spec fn neg_code(e: u32) -> i32 {
    (-(e as int)) as i32
}

} // verus!
