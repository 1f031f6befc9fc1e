//! Platform analytics: an append-only history of metric snapshots.
//!
//! Only the administrator may record a snapshot; anyone may read the
//! history.

use vstd::prelude::*;
use crate::clock::{bump, bump_clock};
use crate::errors::OpError;
use crate::ident::str_eq;

verus! {

/// One snapshot of platform-wide metrics.  The average progress is carried
/// in basis points.
#[derive(Clone, Copy, Debug, PartialEq, Eq, Structural)]
pub struct AnalyticsRecord {
    pub timestamp: u64,
    pub total_users: u64,
    pub total_courses: u64,
    pub total_completions: u64,
    pub avg_progress_bps: u32,
}

/// The mathematical model of the analytics store.
pub struct AnalyticsState {
    pub admin: Seq<char>,
    pub history: Seq<AnalyticsRecord>,
    pub clock: u64,
}

/// The analytics store: the administrator identity and the snapshot history.
pub struct AnalyticsContract {
    admin: String,
    history: Vec<AnalyticsRecord>,
    clock: u64,
}

impl View for AnalyticsContract {
    type V = AnalyticsState;

    closed spec fn view(&self) -> AnalyticsState {
        AnalyticsState { admin: self.admin@, history: self.history@, clock: self.clock }
    }
}

impl AnalyticsContract {
    /// Create the analytics store with its administrator identity and an
    /// empty history.
    pub fn initialize(admin: String) -> (r: AnalyticsContract)
        ensures
            r@.admin == admin@,
            r@.history.len() == 0,
            r@.clock == 0,
    {
        AnalyticsContract { admin, history: Vec::new(), clock: 0 }
    }

    /// Append one metrics snapshot, stamped with the store clock.
    ///
    /// Fails `Unauthorized` exactly when the caller is not the
    /// administrator; nothing changes in that case.
    pub fn record_metrics(
        &mut self,
        caller: &str,
        total_users: u64,
        total_courses: u64,
        total_completions: u64,
        avg_progress_bps: u32,
    ) -> (r: Result<(), OpError>)
        ensures
            caller@ != old(self)@.admin ==> r == Err::<(), OpError>(OpError::Unauthorized)
                && final(self)@ == old(self)@,
            caller@ == old(self)@.admin ==> {
                &&& r == Ok::<(), OpError>(())
                &&& final(self)@.history == old(self)@.history.push(
                    (AnalyticsRecord {
                        timestamp: final(self)@.clock,
                        total_users,
                        total_courses,
                        total_completions,
                        avg_progress_bps,
                    }),
                )
                &&& final(self)@.admin == old(self)@.admin
                &&& final(self)@.clock == bump(old(self)@.clock)
            },
    {
        if !str_eq(caller, self.admin.as_str()) {
            return Err(OpError::Unauthorized);
        }
        self.clock = bump_clock(self.clock);
        let rec = AnalyticsRecord {
            timestamp: self.clock,
            total_users,
            total_courses,
            total_completions,
            avg_progress_bps,
        };
        self.history.push(rec);
        Ok(())
    }

    /// The full snapshot history, oldest first.
    pub fn get_history(&self) -> (r: Vec<AnalyticsRecord>)
        ensures
            r@ == self@.history,
    {
        let mut out: Vec<AnalyticsRecord> = Vec::new();
        let mut i: usize = 0;
        while i < self.history.len()
            invariant
                i <= self@.history.len(),
                out@ == self@.history.subrange(0, i as int),
            decreases self@.history.len() - i,
        {
            out.push(self.history[i]);
            i += 1;
            proof {
                assert(out@ =~= self@.history.subrange(0, i as int));
            }
        }
        proof {
            assert(self@.history.subrange(0, self@.history.len() as int) =~= self@.history);
        }
        out
    }

    /// The most recent snapshot, when any exists.
    pub fn get_latest(&self) -> (r: Option<AnalyticsRecord>)
        ensures
            self@.history.len() == 0 ==> r is None,
            self@.history.len() > 0 ==> r == Some(self@.history.last()),
    {
        if self.history.is_empty() {
            None
        } else {
            Some(self.history[self.history.len() - 1])
        }
    }
}

} // verus!
