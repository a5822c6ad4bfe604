//! The machine the host runs on.
use vstd::prelude::*;
use crate::uuid::Uuid;

verus! {

/// The uuid that stands for this machine until machines get real identities.
pub const CURRENT_HOST_MACHINE_GUID: u128 = 0x00000000_0000_0000_0000_100000000000;

/// The machine the host runs on.
pub struct HostMachine {}

impl HostMachine {
    /// The uuid of the machine the host runs on.
    pub fn getCurrentHostMachineGuid() -> (u: Uuid)
        ensures
            u@ == CURRENT_HOST_MACHINE_GUID,
    {
        Uuid::from_u128(CURRENT_HOST_MACHINE_GUID)
    }
}

} // verus!
