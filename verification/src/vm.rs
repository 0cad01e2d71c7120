//! What a process suspended on a memory request to VM carries: the kind of
//! work that was interrupted, the range VM must make available, and how
//! far the request has come.
use vstd::prelude::*;
use crate::types::{Endpoint, VirBytes};

verus! {

/// The work interrupted by a memory request.
#[derive(Debug, Clone, Copy, PartialEq, Eq, Structural)]
pub enum VmSuspendType {
    /// A kernel call, redone once VM answers.
    KernelCall,
    /// Delivery of a message into the process.
    DeliverMsg,
    /// A request to map memory.
    MapRequest,
}

/// The range VM is asked to check or make present.
#[derive(Debug, Clone, Copy, PartialEq, Eq, Structural)]
pub struct VmCheckParams {
    pub start: VirBytes,
    pub length: VirBytes,
    /// Whether the range must be writable.
    pub write_flag: bool,
}

/// How far a memory request has come: waiting in the queue, taken by VM,
/// or answered with a status code.
#[derive(Debug, Clone, Copy, PartialEq, Eq, Structural)]
pub enum VmSuspendState {
    Pending,
    Fetched,
    Completed(i32),
}

/// The state kept while a process waits on VM.
#[derive(Debug, Clone, Copy, PartialEq, Eq, Structural)]
pub struct VmSuspendContext {
    pub suspend_type: VmSuspendType,
    /// The process whose memory the request is about.
    pub target: Endpoint,
    pub check_params: VmCheckParams,
    pub state: VmSuspendState,
}

} // verus!
