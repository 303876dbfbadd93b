//! The boot result of a run against the memory provider: the platform boot
//! result plus the provider's fault and request counters.
use vstd::prelude::*;
use crate::platform::BootResultV2;

verus! {

#[derive(Clone, Copy, Debug, Default, PartialEq, Eq, Structural)]
pub struct MemoryRunResultV1 {
    pub abi_version: u32,
    pub struct_size: u32,
    pub provider_status: u32,
    pub reserved0: u32,
    pub execution: BootResultV2,
    pub guest_far: u64,
    pub last_address: u64,
    pub fetch_requests: u64,
    pub data_requests: u64,
    pub completed_data_operations: u64,
    pub reserved1: u64,
}

} // verus!
