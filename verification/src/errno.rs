//! Error numbers returned by kernel calls.
use vstd::prelude::*;

verus! {

/// Success.
pub const OK: i32 = 0;
/// Operation not permitted.
pub const EPERM: i32 = 1;
/// No such entry.
pub const ENOENT: i32 = 2;
/// Argument list too long.
pub const E2BIG: i32 = 7;
/// No space left.
pub const ENOSPC: i32 = 12;
/// Bad address.
pub const EFAULT: i32 = 14;
/// Resource busy.
pub const EBUSY: i32 = 16;
/// Invalid argument.
pub const EINVAL: i32 = 22;
/// Function not implemented.
pub const ENOSYS: i32 = 78;

} // verus!
