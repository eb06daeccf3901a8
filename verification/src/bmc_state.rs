//! The state of a baseboard management controller, by vendor.

use crate::idrac::{completed, IdracState, JobView};
use vstd::prelude::*;

verus! {

/// The part of a controller's state that differs by vendor.
#[derive(Debug)]
pub enum OemState {
    /// A Dell iDRAC, with its jobs.
    DellIdrac(IdracState),
    /// A controller without vendor state.
    Other,
}

/// The state of one controller.
#[derive(Debug)]
pub struct BmcState {
    pub oem_state: OemState,
}

/// The jobs of a controller: those of its iDRAC, or none.
pub open spec fn jobs_of(state: OemState) -> Seq<(Seq<char>, JobView)> {
    match state {
        OemState::DellIdrac(idrac) => idrac@,
        OemState::Other => Seq::empty(),
    }
}

impl BmcState {
    /// Completes every configuration job of an iDRAC at `now`. A controller
    /// of another vendor stays as it is.
    pub fn complete_all_bios_jobs(&mut self, now: i64)
        ensures
            final(self).oem_state is DellIdrac == old(self).oem_state is DellIdrac,
            jobs_of(final(self).oem_state) == Seq::new(
                jobs_of(old(self).oem_state).len(),
                |i: int|
                    (
                        jobs_of(old(self).oem_state)[i].0,
                        completed(jobs_of(old(self).oem_state)[i].1, now),
                    ),
            ),
    {
        match &mut self.oem_state {
            OemState::DellIdrac(idrac) => {
                idrac.complete_all_bios_jobs(now);
            },
            OemState::Other => {
                proof {
                    assert(jobs_of(self.oem_state) =~= Seq::new(
                        0,
                        |i: int|
                            (
                                jobs_of(self.oem_state)[i].0,
                                completed(jobs_of(self.oem_state)[i].1, now),
                            ),
                    ));
                }
            },
        }
    }
}

} // verus!
