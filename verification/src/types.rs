//! Plain value types shared by the kernel modules: endpoints and
//! physical / virtual byte addresses.
use vstd::prelude::*;

verus! {

/// Number of kernel tasks (slots with negative process numbers).
pub const NR_TASKS: usize = 5;

/// Raw value of the "no endpoint" endpoint.
pub const ENDPOINT_NONE: i32 = 0x6ace;
/// Raw value of the "any endpoint" endpoint.
pub const ENDPOINT_ANY: i32 = 0x7ace;
/// Raw value of the "caller itself" endpoint.
pub const ENDPOINT_SELF: i32 = 0x8ace;
/// Shift of the generation number inside an endpoint.
pub const ENDPOINT_GENERATION_SHIFT: u32 = 15;

/// An IPC endpoint identifier.
#[derive(Debug, Clone, Copy, PartialEq, Eq, Structural)]
pub struct Endpoint(pub i32);

/// The endpoint built from a generation number and a slot number.
pub open spec fn endpoint_value(generation: int, slot: int) -> int {
    generation * 0x8000 + slot
}

impl Endpoint {
    /// Raw value of this endpoint.
    pub fn get(&self) -> (r: i32)
        ensures
            r == self.0,
    {
        self.0
    }

    /// The "no endpoint" endpoint.
    pub fn none() -> (r: Endpoint)
        ensures
            r.0 == ENDPOINT_NONE,
    {
        Endpoint(ENDPOINT_NONE)
    }

    /// The "caller itself" endpoint.
    pub fn self_endpoint() -> (r: Endpoint)
        ensures
            r.0 == ENDPOINT_SELF,
    {
        Endpoint(ENDPOINT_SELF)
    }

    /// Build an endpoint from a generation number and a slot number.
    pub fn from_generation_slot(generation: i32, slot: i32) -> (r: Endpoint)
        requires
            i32::MIN <= endpoint_value(generation as int, slot as int) <= i32::MAX,
        ensures
            r.0 == endpoint_value(generation as int, slot as int),
    {
        assert(generation * 0x8000 == generation * 0x8000) by (nonlinear_arith);
        let g: i32 = (generation as i64 * 0x8000i64 + slot as i64) as i32;
        Endpoint(g)
    }
}

/// A physical address in bytes.
#[derive(Debug, Clone, Copy, PartialEq, Eq, Structural)]
pub struct PhysBytes(pub u64);

/// A virtual address in bytes.
#[derive(Debug, Clone, Copy, PartialEq, Eq, Structural)]
pub struct VirBytes(pub u64);

} // verus!
