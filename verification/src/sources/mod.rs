//! What wakes a duty.

use vstd::prelude::*;

pub mod cron;

verus! {

/// A duty whose trigger fired.
#[derive(Debug)]
pub struct FiredTrigger {
    /// The duty.
    pub def_id: String,
    /// What arrived with the trigger; a timer carries nothing.
    pub payload: Vec<u8>,
}

/// What a [`FiredTrigger`] holds.
#[verifier::ext_equal]
pub struct FiredV {
    pub def_id: Seq<char>,
    pub payload: Seq<u8>,
}

impl DeepView for FiredTrigger {
    type V = FiredV;

    open spec fn deep_view(&self) -> FiredV {
        FiredV { def_id: self.def_id@, payload: self.payload@ }
    }
}

} // verus!
