//! The multi-device synchronization coordinator.
//!
//! One logical user operates several devices against a shared set of mutable
//! records.  A device registers once, opens a bounded sync session, submits
//! entries, and completes the session.  Conflicting writes to the same
//! logical record — the `(user, data type)` pair — are detected on
//! submission and resolved exactly once under an explicit policy.
//!
//! All state lives in one store value, [`SyncCoordinationContract`]; every
//! operation is an atomic read-modify-write over it.  Timestamps come from a
//! single monotonically non-decreasing clock that the store itself advances.

use vstd::prelude::*;
use vstd::string::*;
use crate::errors::OpError;
use crate::clock::bump;
use crate::ident::{id_seq, str_eq, make_id, lemma_id_seq_injective};

verus! {

/// The class of a registered device.
#[derive(Clone, Copy, Debug, PartialEq, Eq, Structural)]
pub enum DeviceType {
    Mobile,
    Desktop,
    Tablet,
    Web,
}

/// The lifecycle state of a sync session or of a submitted entry.
#[derive(Clone, Copy, Debug, PartialEq, Eq, Structural)]
pub enum SyncStatus {
    Pending,
    InProgress,
    Completed,
    Failed,
    Conflict,
}

/// The policy chosen to settle a detected conflict.
#[derive(Clone, Copy, Debug, PartialEq, Eq, Structural)]
pub enum ConflictResolution {
    LastWriteWins,
    ManualReview,
    MergeData,
    FirstWriteWins,
    TimestampWins,
}

/// A device registered by a user.  Never deleted, only deactivated.
pub struct Device {
    pub id: String,
    pub user_address: String,
    pub device_type: DeviceType,
    pub name: String,
    pub last_sync: u64,
    pub is_active: bool,
    pub capabilities: Vec<String>,
    pub created_at: u64,
    pub last_seen: u64,
    pub sync_version: u64,
}

/// One synchronized data item, appended on submission.
pub struct SyncEntry {
    pub id: String,
    pub user_address: String,
    pub device_id: String,
    pub data_type: String,
    pub data_hash: String,
    pub timestamp: u64,
    pub sync_status: SyncStatus,
    pub conflict_resolution: Option<ConflictResolution>,
    pub parent_entry_id: Option<String>,
    pub merged_with: Vec<String>,
    pub payload: String,
}

/// A detected divergence between two entries for one logical record.
/// Resolved exactly once: the resolution fields are set together and never
/// reset.
pub struct SyncConflict {
    pub id: String,
    pub user_address: String,
    pub entry_id_1: String,
    pub entry_id_2: String,
    pub conflict_type: String,
    pub detected_at: u64,
    pub resolution: Option<ConflictResolution>,
    pub resolved_at: Option<u64>,
    pub resolved_by: Option<String>,
    pub winning_entry_id: Option<String>,
}

/// A bounded unit of sync work for one device.
pub struct SyncSession {
    pub id: String,
    pub user_address: String,
    pub device_id: String,
    pub started_at: u64,
    pub completed_at: Option<u64>,
    pub status: SyncStatus,
    pub entries_synced: u64,
    pub conflicts_resolved: u64,
    pub error_message: Option<String>,
}

/// The mathematical model of the coordinator's store.
pub struct SyncState {
    pub admin: Seq<char>,
    pub clock: u64,
    pub devices: Seq<Device>,
    pub sessions: Seq<SyncSession>,
    pub entries: Seq<SyncEntry>,
    pub conflicts: Seq<SyncConflict>,
}

/// The coordinator: a single serialized ledger of devices, sessions,
/// entries and conflicts, plus the shared clock and the administrator
/// identity that may resolve any user's conflicts.
pub struct SyncCoordinationContract {
    admin: String,
    clock: u64,
    devices: Vec<Device>,
    sessions: Vec<SyncSession>,
    entries: Vec<SyncEntry>,
    conflicts: Vec<SyncConflict>,
}

impl View for SyncCoordinationContract {
    type V = SyncState;

    closed spec fn view(&self) -> SyncState {
        SyncState {
            admin: self.admin@,
            clock: self.clock,
            devices: self.devices@,
            sessions: self.sessions@,
            entries: self.entries@,
            conflicts: self.conflicts@,
        }
    }
}

/// Some device in `devs` carries the identity `id`.
pub open spec fn has_device(devs: Seq<Device>, id: Seq<char>) -> bool {
    exists|i: int| 0 <= i < devs.len() && devs[i].id@ == id
}

/// The position of the device carrying `id`; meaningful when `has_device`.
pub open spec fn device_idx(devs: Seq<Device>, id: Seq<char>) -> int {
    choose|i: int| 0 <= i < devs.len() && devs[i].id@ == id
}

/// Some session in `sess` carries the identity `id`.
pub open spec fn has_session(sess: Seq<SyncSession>, id: Seq<char>) -> bool {
    exists|i: int| 0 <= i < sess.len() && sess[i].id@ == id
}

/// The position of the session carrying `id`; meaningful when `has_session`.
pub open spec fn session_idx(sess: Seq<SyncSession>, id: Seq<char>) -> int {
    choose|i: int| 0 <= i < sess.len() && sess[i].id@ == id
}

/// Some entry in `entries` carries the identity `id`.
pub open spec fn has_entry(entries: Seq<SyncEntry>, id: Seq<char>) -> bool {
    exists|i: int| 0 <= i < entries.len() && entries[i].id@ == id
}

/// The position of the entry carrying `id`; meaningful when `has_entry`.
pub open spec fn entry_idx(entries: Seq<SyncEntry>, id: Seq<char>) -> int {
    choose|i: int| 0 <= i < entries.len() && entries[i].id@ == id
}

/// Some conflict in `confs` carries the identity `id`.
pub open spec fn has_conflict(confs: Seq<SyncConflict>, id: Seq<char>) -> bool {
    exists|i: int| 0 <= i < confs.len() && confs[i].id@ == id
}

/// The position of the conflict carrying `id`; meaningful when `has_conflict`.
pub open spec fn conflict_idx(confs: Seq<SyncConflict>, id: Seq<char>) -> int {
    choose|i: int| 0 <= i < confs.len() && confs[i].id@ == id
}

/// Well-formedness of the store.
///
/// Identities are positional — the record at position `i` is named by the
/// counter value `i + 1` — so identities are unique.  Session counters never
/// exceed the corresponding ledgers, every session points at a registered
/// device, and every conflict points at two recorded entries.
pub open spec fn inv(s: SyncState) -> bool {
    &&& forall|i: int|
        0 <= i < s.devices.len() ==> (#[trigger] s.devices[i]).id@ == id_seq(
            "device_"@,
            (i + 1) as nat,
        )
    &&& forall|i: int|
        0 <= i < s.sessions.len() ==> (#[trigger] s.sessions[i]).id@ == id_seq(
            "session_"@,
            (i + 1) as nat,
        )
    &&& forall|i: int|
        0 <= i < s.entries.len() ==> (#[trigger] s.entries[i]).id@ == id_seq(
            "entry_"@,
            (i + 1) as nat,
        )
    &&& forall|i: int|
        0 <= i < s.conflicts.len() ==> (#[trigger] s.conflicts[i]).id@ == id_seq(
            "conflict_"@,
            (i + 1) as nat,
        )
    &&& forall|i: int|
        0 <= i < s.sessions.len() ==> (#[trigger] s.sessions[i]).entries_synced <= s.entries.len()
    &&& forall|i: int|
        0 <= i < s.sessions.len() ==> (#[trigger] s.sessions[i]).conflicts_resolved
            <= s.conflicts.len()
    &&& forall|i: int|
        0 <= i < s.sessions.len() ==> has_device(s.devices, (#[trigger] s.sessions[i]).device_id@)
    &&& forall|i: int|
        0 <= i < s.conflicts.len() ==> has_entry(
            s.entries,
            (#[trigger] s.conflicts[i]).entry_id_1@,
        ) && has_entry(s.entries, s.conflicts[i].entry_id_2@)
}

/// In a well-formed store, two positions never hold the same device
/// identity: every identity handed out by registration is unique.
pub proof fn lemma_device_ids_unique(s: SyncState, i: int, j: int)
    requires
        inv(s),
        0 <= i < s.devices.len(),
        0 <= j < s.devices.len(),
        i != j,
    ensures
        s.devices[i].id@ != s.devices[j].id@,
{
    if s.devices[i].id@ == s.devices[j].id@ {
        lemma_id_seq_injective("device_"@, (i + 1) as nat, (j + 1) as nat);
    }
}

proof fn lemma_device_idx_is(s: SyncState, id: Seq<char>, i: int)
    requires
        inv(s),
        0 <= i < s.devices.len(),
        s.devices[i].id@ == id,
    ensures
        has_device(s.devices, id),
        device_idx(s.devices, id) == i,
{
    assert(has_device(s.devices, id));
    let j = device_idx(s.devices, id);
    if j != i {
        lemma_device_ids_unique(s, i, j);
    }
}

proof fn lemma_session_idx_is(s: SyncState, id: Seq<char>, i: int)
    requires
        inv(s),
        0 <= i < s.sessions.len(),
        s.sessions[i].id@ == id,
    ensures
        has_session(s.sessions, id),
        session_idx(s.sessions, id) == i,
{
    assert(has_session(s.sessions, id));
    let j = session_idx(s.sessions, id);
    if j != i {
        lemma_id_seq_injective("session_"@, (i + 1) as nat, (j + 1) as nat);
    }
}

proof fn lemma_entry_idx_is(s: SyncState, id: Seq<char>, i: int)
    requires
        inv(s),
        0 <= i < s.entries.len(),
        s.entries[i].id@ == id,
    ensures
        has_entry(s.entries, id),
        entry_idx(s.entries, id) == i,
{
    assert(has_entry(s.entries, id));
    let j = entry_idx(s.entries, id);
    if j != i {
        lemma_id_seq_injective("entry_"@, (i + 1) as nat, (j + 1) as nat);
    }
}

proof fn lemma_conflict_idx_is(s: SyncState, id: Seq<char>, i: int)
    requires
        inv(s),
        0 <= i < s.conflicts.len(),
        s.conflicts[i].id@ == id,
    ensures
        has_conflict(s.conflicts, id),
        conflict_idx(s.conflicts, id) == i,
{
    assert(has_conflict(s.conflicts, id));
    let j = conflict_idx(s.conflicts, id);
    if j != i {
        lemma_id_seq_injective("conflict_"@, (i + 1) as nat, (j + 1) as nat);
    }
}

/// The device identities registered for `user`, in registration order.
pub open spec fn user_device_ids(devs: Seq<Device>, user: Seq<char>) -> Seq<Seq<char>>
    decreases devs.len(),
{
    if devs.len() == 0 {
        Seq::empty()
    } else {
        let rest = user_device_ids(devs.drop_last(), user);
        if devs.last().user_address@ == user {
            rest.push(devs.last().id@)
        } else {
            rest
        }
    }
}

/// Whether an entry is the recorded version of the logical record
/// `(user, data_type)`: it belongs to that record and its status is
/// `Completed` or `Conflict`.
pub open spec fn record_matches(e: SyncEntry, user: Seq<char>, data_type: Seq<char>) -> bool {
    &&& e.user_address@ == user
    &&& e.data_type@ == data_type
    &&& (e.sync_status == SyncStatus::Completed || e.sync_status == SyncStatus::Conflict)
}

/// The position of the most recent recorded version of the logical record
/// `(user, data_type)`, or `-1` when none exists.
pub open spec fn latest_record_idx(
    entries: Seq<SyncEntry>,
    user: Seq<char>,
    data_type: Seq<char>,
) -> int
    decreases entries.len(),
{
    if entries.len() == 0 {
        -1
    } else if record_matches(entries.last(), user, data_type) {
        entries.len() - 1
    } else {
        latest_record_idx(entries.drop_last(), user, data_type)
    }
}

/// `latest_record_idx` names the greatest matching position.
pub proof fn lemma_latest_record_idx_props(
    entries: Seq<SyncEntry>,
    user: Seq<char>,
    data_type: Seq<char>,
)
    ensures
        ({
            let r = latest_record_idx(entries, user, data_type);
            &&& -1 <= r < entries.len()
            &&& r >= 0 ==> record_matches(entries[r], user, data_type)
            &&& forall|j: int|
                r < j < entries.len() ==> !record_matches(#[trigger] entries[j], user, data_type)
        }),
    decreases entries.len(),
{
    if entries.len() > 0 && !record_matches(entries.last(), user, data_type) {
        lemma_latest_record_idx_props(entries.drop_last(), user, data_type);
        let r = latest_record_idx(entries, user, data_type);
        if r >= 0 {
            assert(entries[r] == entries.drop_last()[r]);
        }
        assert forall|j: int| r < j < entries.len() implies !record_matches(
            #[trigger] entries[j],
            user,
            data_type,
        ) by {
            if j < entries.len() - 1 {
                assert(entries[j] == entries.drop_last()[j]);
            } else {
                assert(entries[j] == entries.last());
            }
        }
    }
}

/// A submission diverges exactly when some version of its logical record is
/// already recorded and carries a different content fingerprint.
pub open spec fn detects_conflict(
    entries: Seq<SyncEntry>,
    user: Seq<char>,
    data_type: Seq<char>,
    data_hash: Seq<char>,
) -> bool {
    let i = latest_record_idx(entries, user, data_type);
    i >= 0 && entries[i].data_hash@ != data_hash
}

/// What one entry submission does to the submitting session's counters.
pub open spec fn submit_effect(
    pre: SyncState,
    post: SyncState,
    sidx: int,
    conflicted: bool,
) -> bool {
    &&& 0 <= sidx < pre.sessions.len()
    &&& post.sessions.len() == pre.sessions.len()
    &&& post.sessions[sidx].entries_synced == pre.sessions[sidx].entries_synced + 1
    &&& post.sessions[sidx].conflicts_resolved == pre.sessions[sidx].conflicts_resolved + (
    if conflicted {
        1int
    } else {
        0int
    })
}

/// Registration extends exactly the registering user's device listing, by
/// exactly the new device's identity, at the end; every other user's
/// listing is unchanged.
pub proof fn lemma_user_devices_after_register(devs: Seq<Device>, d: Device, user: Seq<char>)
    ensures
        user_device_ids(devs.push(d), user) == (if d.user_address@ == user {
            user_device_ids(devs, user).push(d.id@)
        } else {
            user_device_ids(devs, user)
        }),
{
    assert(devs.push(d).drop_last() =~= devs);
    assert(devs.push(d).last() == d);
}

/// How often an identity occurs in a merge list.
pub open spec fn occurrences(ids: Seq<Seq<char>>, id: Seq<char>) -> nat
    decreases ids.len(),
{
    if ids.len() == 0 {
        0
    } else {
        occurrences(ids.drop_last(), id) + (if ids.last() == id {
            1nat
        } else {
            0nat
        })
    }
}

/// An identity absent from a merge list occurs zero times in it.
pub proof fn lemma_absent_occurrences(ids: Seq<Seq<char>>, id: Seq<char>)
    requires
        !ids.contains(id),
    ensures
        occurrences(ids, id) == 0,
    decreases ids.len(),
{
    if ids.len() > 0 {
        assert(!ids.drop_last().contains(id)) by {
            if ids.drop_last().contains(id) {
                let j = choose|j: int|
                    0 <= j < ids.drop_last().len() && ids.drop_last()[j] == id;
                assert(ids[j] == id);
            }
        }
        lemma_absent_occurrences(ids.drop_last(), id);
        assert(ids.last() != id) by {
            if ids.last() == id {
                assert(ids[ids.len() - 1] == id);
            }
        }
    }
}

/// A merge appends the losing identity exactly once: if the winning entry's
/// merge list did not hold that identity before the merge, it holds it
/// exactly once afterwards.
pub proof fn lemma_merge_appends_once(before: Seq<Seq<char>>, losing: Seq<char>)
    requires
        !before.contains(losing),
    ensures
        occurrences(before.push(losing), losing) == 1,
{
    lemma_absent_occurrences(before, losing);
    assert(before.push(losing).drop_last() =~= before);
}

/// After any run of entry submissions into one session in which no conflict
/// was detected, the session's entries counter has grown by exactly the
/// number of submissions and its conflicts counter is unchanged.  `states`
/// is the chain of store states, each consecutive pair related by one
/// submission's effect.
pub proof fn lemma_counters_after_submissions(states: Seq<SyncState>, sidx: int)
    requires
        states.len() >= 1,
        0 <= sidx < states.first().sessions.len(),
        forall|k: int|
            0 <= k < states.len() - 1 ==> submit_effect(
                #[trigger] states[k],
                states[k + 1],
                sidx,
                false,
            ),
    ensures
        states.last().sessions[sidx].entries_synced == states.first().sessions[sidx].entries_synced
            + states.len() - 1,
        states.last().sessions[sidx].conflicts_resolved
            == states.first().sessions[sidx].conflicts_resolved,
    decreases states.len(),
{
    if states.len() > 1 {
        let rest = states.drop_first();
        assert(submit_effect(states[0], states[1], sidx, false));
        assert forall|k: int| 0 <= k < rest.len() - 1 implies submit_effect(
            #[trigger] rest[k],
            rest[k + 1],
            sidx,
            false,
        ) by {
            assert(rest[k] == states[k + 1]);
            assert(rest[k + 1] == states[k + 2]);
            assert(submit_effect(states[k + 1], states[k + 2], sidx, false));
        }
        lemma_counters_after_submissions(rest, sidx);
        assert(rest.last() == states.last());
        assert(rest.first() == states[1]);
    }
}

impl SyncCoordinationContract {
    /// The store is well formed.
    pub open spec fn wf(&self) -> bool {
        inv(self@)
    }

    /// Create the coordinator's store with its administrator identity and
    /// all counters at zero.
    pub fn initialize(admin: String) -> (r: SyncCoordinationContract)
        ensures
            r.wf(),
            r@.admin == admin@,
            r@.clock == 0,
            r@.devices.len() == 0,
            r@.sessions.len() == 0,
            r@.entries.len() == 0,
            r@.conflicts.len() == 0,
    {
        SyncCoordinationContract {
            admin,
            clock: 0,
            devices: Vec::new(),
            sessions: Vec::new(),
            entries: Vec::new(),
            conflicts: Vec::new(),
        }
    }

    /// Advance the shared clock by one step and report the new time.
    fn tick(&mut self) -> (ts: u64)
        ensures
            final(self)@ == (SyncState { clock: bump(old(self)@.clock), ..old(self)@ }),
            ts == final(self)@.clock,
            ts >= old(self)@.clock,
    {
        if self.clock < u64::MAX {
            self.clock = self.clock + 1;
        }
        self.clock
    }

    /// Register a new device for a user.
    ///
    /// Fails `ValidationError` exactly when the user identity is empty.
    /// Otherwise appends a fresh active device with sync version 1 and
    /// returns its identity, minted from the device counter.
    pub fn register_device(
        &mut self,
        user_address: String,
        device_type: DeviceType,
        name: String,
        capabilities: Vec<String>,
    ) -> (r: Result<String, OpError>)
        requires
            old(self).wf(),
            old(self)@.devices.len() < usize::MAX,
        ensures
            final(self).wf(),
            user_address@.len() == 0 ==> r == Err::<String, OpError>(OpError::ValidationError)
                && final(self)@ == old(self)@,
            user_address@.len() > 0 ==> match r {
                Ok(id) => {
                    &&& id@ == id_seq("device_"@, (old(self)@.devices.len() + 1) as nat)
                    &&& final(self)@.devices == old(self)@.devices.push(
                        final(self)@.devices.last(),
                    )
                    &&& ({
                        let d = final(self)@.devices.last();
                        &&& d.id@ == id@
                        &&& d.user_address == user_address
                        &&& d.device_type == device_type
                        &&& d.name == name
                        &&& d.last_sync == 0
                        &&& d.is_active
                        &&& d.capabilities == capabilities
                        &&& d.created_at == final(self)@.clock
                        &&& d.last_seen == final(self)@.clock
                        &&& d.sync_version == 1
                    })
                    &&& final(self)@.sessions == old(self)@.sessions
                    &&& final(self)@.entries == old(self)@.entries
                    &&& final(self)@.conflicts == old(self)@.conflicts
                    &&& final(self)@.admin == old(self)@.admin
                    &&& final(self)@.clock == bump(old(self)@.clock)
                },
                Err(_) => false,
            },
    {
        if user_address.as_str().is_empty() {
            return Err(OpError::ValidationError);
        }
        let ts = self.tick();
        let n = self.devices.len() as u64;
        let device_id = make_id("device_", n + 1);
        let device = Device {
            id: device_id.clone(),
            user_address,
            device_type,
            name,
            last_sync: 0,
            is_active: true,
            capabilities,
            created_at: ts,
            last_seen: ts,
            sync_version: 1,
        };
        self.devices.push(device);
        proof {
            let post = self@;
            let pre = old(self)@;
            assert forall|i: int| 0 <= i < post.sessions.len() implies has_device(
                post.devices,
                (#[trigger] post.sessions[i]).device_id@,
            ) by {
                let j = device_idx(pre.devices, post.sessions[i].device_id@);
                assert(post.devices[j].id@ == post.sessions[i].device_id@);
            }
        }
        Ok(device_id)
    }

    fn find_device(&self, device_id: &str) -> (r: Option<usize>)
        requires
            self.wf(),
        ensures
            match r {
                Some(i) => {
                    &&& i < self@.devices.len()
                    &&& self@.devices[i as int].id@ == device_id@
                    &&& has_device(self@.devices, device_id@)
                    &&& device_idx(self@.devices, device_id@) == i as int
                },
                None => !has_device(self@.devices, device_id@),
            },
    {
        let mut i: usize = 0;
        while i < self.devices.len()
            invariant
                self.wf(),
                i <= self@.devices.len(),
                forall|j: int| 0 <= j < i ==> (#[trigger] self@.devices[j]).id@ != device_id@,
            decreases self@.devices.len() - i,
        {
            if str_eq(self.devices[i].id.as_str(), device_id) {
                proof {
                    lemma_device_idx_is(self@, device_id@, i as int);
                }
                return Some(i);
            }
            i += 1;
        }
        None
    }

    fn find_session(&self, session_id: &str) -> (r: Option<usize>)
        requires
            self.wf(),
        ensures
            match r {
                Some(i) => {
                    &&& i < self@.sessions.len()
                    &&& self@.sessions[i as int].id@ == session_id@
                    &&& has_session(self@.sessions, session_id@)
                    &&& session_idx(self@.sessions, session_id@) == i as int
                },
                None => !has_session(self@.sessions, session_id@),
            },
    {
        let mut i: usize = 0;
        while i < self.sessions.len()
            invariant
                self.wf(),
                i <= self@.sessions.len(),
                forall|j: int| 0 <= j < i ==> (#[trigger] self@.sessions[j]).id@ != session_id@,
            decreases self@.sessions.len() - i,
        {
            if str_eq(self.sessions[i].id.as_str(), session_id) {
                proof {
                    lemma_session_idx_is(self@, session_id@, i as int);
                }
                return Some(i);
            }
            i += 1;
        }
        None
    }

    fn find_entry(&self, entry_id: &str) -> (r: Option<usize>)
        requires
            self.wf(),
        ensures
            match r {
                Some(i) => {
                    &&& i < self@.entries.len()
                    &&& self@.entries[i as int].id@ == entry_id@
                    &&& has_entry(self@.entries, entry_id@)
                    &&& entry_idx(self@.entries, entry_id@) == i as int
                },
                None => !has_entry(self@.entries, entry_id@),
            },
    {
        let mut i: usize = 0;
        while i < self.entries.len()
            invariant
                self.wf(),
                i <= self@.entries.len(),
                forall|j: int| 0 <= j < i ==> (#[trigger] self@.entries[j]).id@ != entry_id@,
            decreases self@.entries.len() - i,
        {
            if str_eq(self.entries[i].id.as_str(), entry_id) {
                proof {
                    lemma_entry_idx_is(self@, entry_id@, i as int);
                }
                return Some(i);
            }
            i += 1;
        }
        None
    }

    fn find_conflict(&self, conflict_id: &str) -> (r: Option<usize>)
        requires
            self.wf(),
        ensures
            match r {
                Some(i) => {
                    &&& i < self@.conflicts.len()
                    &&& self@.conflicts[i as int].id@ == conflict_id@
                    &&& has_conflict(self@.conflicts, conflict_id@)
                    &&& conflict_idx(self@.conflicts, conflict_id@) == i as int
                },
                None => !has_conflict(self@.conflicts, conflict_id@),
            },
    {
        let mut i: usize = 0;
        while i < self.conflicts.len()
            invariant
                self.wf(),
                i <= self@.conflicts.len(),
                forall|j: int| 0 <= j < i ==> (#[trigger] self@.conflicts[j]).id@ != conflict_id@,
            decreases self@.conflicts.len() - i,
        {
            if str_eq(self.conflicts[i].id.as_str(), conflict_id) {
                proof {
                    lemma_conflict_idx_is(self@, conflict_id@, i as int);
                }
                return Some(i);
            }
            i += 1;
        }
        None
    }

    /// Look up a device; fails `NotFound` exactly when the identity is not
    /// registered.
    pub fn get_device(&self, device_id: &str) -> (r: Result<&Device, OpError>)
        requires
            self.wf(),
        ensures
            match r {
                Ok(d) => has_device(self@.devices, device_id@) && *d == self@.devices[device_idx(
                    self@.devices,
                    device_id@,
                )],
                Err(e) => e == OpError::NotFound && !has_device(self@.devices, device_id@),
            },
    {
        match self.find_device(device_id) {
            Some(i) => Ok(&self.devices[i]),
            None => Err(OpError::NotFound),
        }
    }

    /// Look up a session; fails `NotFound` exactly when the identity is
    /// unknown.
    pub fn get_sync_session(&self, session_id: &str) -> (r: Result<&SyncSession, OpError>)
        requires
            self.wf(),
        ensures
            match r {
                Ok(s) => has_session(self@.sessions, session_id@) && *s
                    == self@.sessions[session_idx(self@.sessions, session_id@)],
                Err(e) => e == OpError::NotFound && !has_session(self@.sessions, session_id@),
            },
    {
        match self.find_session(session_id) {
            Some(i) => Ok(&self.sessions[i]),
            None => Err(OpError::NotFound),
        }
    }

    /// Look up an entry; fails `NotFound` exactly when the identity is
    /// unknown.
    pub fn get_sync_entry(&self, entry_id: &str) -> (r: Result<&SyncEntry, OpError>)
        requires
            self.wf(),
        ensures
            match r {
                Ok(e) => has_entry(self@.entries, entry_id@) && *e == self@.entries[entry_idx(
                    self@.entries,
                    entry_id@,
                )],
                Err(e) => e == OpError::NotFound && !has_entry(self@.entries, entry_id@),
            },
    {
        match self.find_entry(entry_id) {
            Some(i) => Ok(&self.entries[i]),
            None => Err(OpError::NotFound),
        }
    }

    /// Look up a conflict; fails `NotFound` exactly when the identity is
    /// unknown.
    pub fn get_sync_conflict(&self, conflict_id: &str) -> (r: Result<&SyncConflict, OpError>)
        requires
            self.wf(),
        ensures
            match r {
                Ok(c) => has_conflict(self@.conflicts, conflict_id@) && *c
                    == self@.conflicts[conflict_idx(self@.conflicts, conflict_id@)],
                Err(e) => e == OpError::NotFound && !has_conflict(self@.conflicts, conflict_id@),
            },
    {
        match self.find_conflict(conflict_id) {
            Some(i) => Ok(&self.conflicts[i]),
            None => Err(OpError::NotFound),
        }
    }

    /// The identities of the user's devices, in registration order.
    pub fn get_user_devices(&self, user_address: &str) -> (r: Vec<String>)
        ensures
            r.deep_view() == user_device_ids(self@.devices, user_address@),
    {
        let mut out: Vec<String> = Vec::new();
        let mut i: usize = 0;
        while i < self.devices.len()
            invariant
                i <= self@.devices.len(),
                out.deep_view() == user_device_ids(
                    self@.devices.subrange(0, i as int),
                    user_address@,
                ),
            decreases self@.devices.len() - i,
        {
            let ghost pre_out = out.deep_view();
            if str_eq(self.devices[i].user_address.as_str(), user_address) {
                out.push(self.devices[i].id.clone());
            }
            i += 1;
            proof {
                let part = self@.devices.subrange(0, i as int);
                assert(part.drop_last() =~= self@.devices.subrange(0, i - 1));
                assert(part.last() == self@.devices[i - 1]);
                assert(out.deep_view() =~= user_device_ids(part, user_address@));
            }
        }
        proof {
            assert(self@.devices.subrange(0, self@.devices.len() as int) =~= self@.devices);
        }
        out
    }

    /// Start a sync session on a registered, active device owned by the
    /// caller.
    ///
    /// Fails `NotFound` when the device is unknown, `Unauthorized` when it is
    /// owned by a different user, and `InvalidState` when it is deactivated.
    /// Otherwise appends a fresh `InProgress` session with both counters at
    /// zero, refreshes the device's last-seen time, and returns the session
    /// identity.  A device may hold several open sessions at once.
    pub fn start_sync_session(&mut self, user_address: &str, device_id: &str) -> (r: Result<
        String,
        OpError,
    >)
        requires
            old(self).wf(),
            old(self)@.sessions.len() < usize::MAX,
        ensures
            final(self).wf(),
            !has_device(old(self)@.devices, device_id@) ==> r == Err::<String, OpError>(
                OpError::NotFound,
            ) && final(self)@ == old(self)@,
            ({
                let pre = old(self)@;
                let post = final(self)@;
                let didx = device_idx(pre.devices, device_id@);
                let dev = pre.devices[didx];
                has_device(pre.devices, device_id@) ==> {
                    &&& dev.user_address@ != user_address@ ==> r == Err::<String, OpError>(
                        OpError::Unauthorized,
                    ) && post == pre
                    &&& dev.user_address@ == user_address@ && !dev.is_active ==> r == Err::<
                        String,
                        OpError,
                    >(OpError::InvalidState) && post == pre
                    &&& dev.user_address@ == user_address@ && dev.is_active ==> match r {
                        Ok(sid) => {
                            &&& sid@ == id_seq("session_"@, (pre.sessions.len() + 1) as nat)
                            &&& post.sessions == pre.sessions.push(post.sessions.last())
                            &&& ({
                                let s = post.sessions.last();
                                &&& s.id@ == sid@
                                &&& s.user_address@ == user_address@
                                &&& s.device_id@ == device_id@
                                &&& s.started_at == post.clock
                                &&& s.completed_at is None
                                &&& s.status == SyncStatus::InProgress
                                &&& s.entries_synced == 0
                                &&& s.conflicts_resolved == 0
                                &&& s.error_message is None
                            })
                            &&& post.devices == pre.devices.update(
                                didx,
                                (Device { last_seen: post.clock, ..dev }),
                            )
                            &&& post.entries == pre.entries
                            &&& post.conflicts == pre.conflicts
                            &&& post.admin == pre.admin
                            &&& post.clock == bump(pre.clock)
                        },
                        Err(_) => false,
                    }
                }
            }),
    {
        let didx = match self.find_device(device_id) {
            None => {
                return Err(OpError::NotFound);
            },
            Some(i) => i,
        };
        if !str_eq(self.devices[didx].user_address.as_str(), user_address) {
            return Err(OpError::Unauthorized);
        }
        if !self.devices[didx].is_active {
            return Err(OpError::InvalidState);
        }
        let ts = self.tick();
        let n = self.sessions.len() as u64;
        let session_id = make_id("session_", n + 1);
        let session = SyncSession {
            id: session_id.clone(),
            user_address: String::from_str(user_address),
            device_id: String::from_str(device_id),
            started_at: ts,
            completed_at: None,
            status: SyncStatus::InProgress,
            entries_synced: 0,
            conflicts_resolved: 0,
            error_message: None,
        };
        self.sessions.push(session);
        self.devices[didx].last_seen = ts;
        proof {
            let pre = old(self)@;
            let post = self@;
            assert forall|i: int| 0 <= i < post.sessions.len() implies has_device(
                post.devices,
                (#[trigger] post.sessions[i]).device_id@,
            ) by {
                if i < pre.sessions.len() {
                    let j = device_idx(pre.devices, pre.sessions[i].device_id@);
                    assert(post.devices[j].id@ == post.sessions[i].device_id@);
                } else {
                    assert(post.devices[didx as int].id@ == device_id@);
                }
            }
        }
        Ok(session_id)
    }

    /// Deactivate a device.  Devices are never deleted, only deactivated.
    ///
    /// Fails `NotFound` when the device is unknown and `Unauthorized` when it
    /// is owned by a different user; otherwise clears the activity flag and
    /// refreshes the device's last-seen time.
    pub fn deactivate_device(&mut self, user_address: &str, device_id: &str) -> (r: Result<
        (),
        OpError,
    >)
        requires
            old(self).wf(),
        ensures
            final(self).wf(),
            !has_device(old(self)@.devices, device_id@) ==> r == Err::<(), OpError>(
                OpError::NotFound,
            ) && final(self)@ == old(self)@,
            ({
                let pre = old(self)@;
                let post = final(self)@;
                let didx = device_idx(pre.devices, device_id@);
                let dev = pre.devices[didx];
                has_device(pre.devices, device_id@) ==> {
                    &&& dev.user_address@ != user_address@ ==> r == Err::<(), OpError>(
                        OpError::Unauthorized,
                    ) && post == pre
                    &&& dev.user_address@ == user_address@ ==> {
                        &&& r == Ok::<(), OpError>(())
                        &&& post.devices == pre.devices.update(
                            didx,
                            (Device { is_active: false, last_seen: post.clock, ..dev }),
                        )
                        &&& post.sessions == pre.sessions
                        &&& post.entries == pre.entries
                        &&& post.conflicts == pre.conflicts
                        &&& post.admin == pre.admin
                        &&& post.clock == bump(pre.clock)
                    }
                }
            }),
    {
        let didx = match self.find_device(device_id) {
            None => {
                return Err(OpError::NotFound);
            },
            Some(i) => i,
        };
        if !str_eq(self.devices[didx].user_address.as_str(), user_address) {
            return Err(OpError::Unauthorized);
        }
        let ts = self.tick();
        self.devices[didx].is_active = false;
        self.devices[didx].last_seen = ts;
        proof {
            self.lemma_device_update_keeps_wf(old(self)@, didx as int);
        }
        Ok(())
    }

    /// Replace a device's capability set wholesale.
    ///
    /// Fails `NotFound` when the device is unknown and `Unauthorized` when it
    /// is owned by a different user; otherwise installs the new capability
    /// set and refreshes the device's last-seen time.
    pub fn update_device_capabilities(
        &mut self,
        user_address: &str,
        device_id: &str,
        capabilities: Vec<String>,
    ) -> (r: Result<(), OpError>)
        requires
            old(self).wf(),
        ensures
            final(self).wf(),
            !has_device(old(self)@.devices, device_id@) ==> r == Err::<(), OpError>(
                OpError::NotFound,
            ) && final(self)@ == old(self)@,
            ({
                let pre = old(self)@;
                let post = final(self)@;
                let didx = device_idx(pre.devices, device_id@);
                let dev = pre.devices[didx];
                has_device(pre.devices, device_id@) ==> {
                    &&& dev.user_address@ != user_address@ ==> r == Err::<(), OpError>(
                        OpError::Unauthorized,
                    ) && post == pre
                    &&& dev.user_address@ == user_address@ ==> {
                        &&& r == Ok::<(), OpError>(())
                        &&& post.devices == pre.devices.update(
                            didx,
                            (Device { capabilities, last_seen: post.clock, ..dev }),
                        )
                        &&& post.sessions == pre.sessions
                        &&& post.entries == pre.entries
                        &&& post.conflicts == pre.conflicts
                        &&& post.admin == pre.admin
                        &&& post.clock == bump(pre.clock)
                    }
                }
            }),
    {
        let didx = match self.find_device(device_id) {
            None => {
                return Err(OpError::NotFound);
            },
            Some(i) => i,
        };
        if !str_eq(self.devices[didx].user_address.as_str(), user_address) {
            return Err(OpError::Unauthorized);
        }
        let ts = self.tick();
        self.devices[didx].capabilities = capabilities;
        self.devices[didx].last_seen = ts;
        proof {
            self.lemma_device_update_keeps_wf(old(self)@, didx as int);
        }
        Ok(())
    }

    /// A device update that keeps identity, over an otherwise unchanged
    /// store, preserves well-formedness.
    proof fn lemma_device_update_keeps_wf(&self, pre: SyncState, didx: int)
        requires
            inv(pre),
            0 <= didx < pre.devices.len(),
            self@.devices.len() == pre.devices.len(),
            forall|i: int|
                0 <= i < pre.devices.len() && i != didx ==> #[trigger] self@.devices[i]
                    == pre.devices[i],
            self@.devices[didx].id == pre.devices[didx].id,
            self@.sessions == pre.sessions,
            self@.entries == pre.entries,
            self@.conflicts == pre.conflicts,
        ensures
            self.wf(),
    {
        let post = self@;
        assert forall|i: int| 0 <= i < post.devices.len() implies (#[trigger] post.devices[i]).id@
            == id_seq("device_"@, (i + 1) as nat) by {
            if i != didx {
                assert(post.devices[i] == pre.devices[i]);
            }
        }
        assert forall|i: int| 0 <= i < post.sessions.len() implies has_device(
            post.devices,
            (#[trigger] post.sessions[i]).device_id@,
        ) by {
            let j = device_idx(pre.devices, pre.sessions[i].device_id@);
            assert(post.devices[j].id@ == post.sessions[i].device_id@);
        }
    }

    fn latest_record(&self, user: &str, data_type: &str) -> (r: Option<usize>)
        ensures
            match r {
                Some(i) => i < self@.entries.len() && i as int == latest_record_idx(
                    self@.entries,
                    user@,
                    data_type@,
                ),
                None => latest_record_idx(self@.entries, user@, data_type@) == -1,
            },
    {
        let mut i: usize = self.entries.len();
        while i > 0
            invariant
                i <= self@.entries.len(),
                forall|j: int|
                    i <= j < self@.entries.len() ==> !record_matches(
                        #[trigger] self@.entries[j],
                        user@,
                        data_type@,
                    ),
            decreases i,
        {
            i = i - 1;
            let e = &self.entries[i];
            let is_recorded = (e.sync_status == SyncStatus::Completed || e.sync_status
                == SyncStatus::Conflict) && str_eq(e.user_address.as_str(), user) && str_eq(
                e.data_type.as_str(),
                data_type,
            );
            if is_recorded {
                proof {
                    lemma_latest_record_idx_props(self@.entries, user@, data_type@);
                }
                return Some(i);
            }
        }
        proof {
            lemma_latest_record_idx_props(self@.entries, user@, data_type@);
        }
        None
    }

    /// Submit one entry into an open session.  The sole operation that
    /// creates `SyncEntry` records.
    ///
    /// Fails `NotFound` when the session is unknown and `InvalidState` when
    /// it is not in progress.  Otherwise the entry is appended: with status
    /// `Conflict`, a fresh conflict record referencing the most recent
    /// version of the same logical record, and an incremented session
    /// conflict counter when the submission diverges from that version;
    /// with status `Completed` and no conflict record otherwise.  The
    /// session's entries counter always grows by exactly one.
    pub fn submit_sync_entry(
        &mut self,
        session_id: &str,
        device_id: &str,
        data_type: String,
        data_hash: String,
        payload: String,
    ) -> (r: Result<String, OpError>)
        requires
            old(self).wf(),
            old(self)@.entries.len() < usize::MAX,
            old(self)@.conflicts.len() < usize::MAX,
        ensures
            final(self).wf(),
            !has_session(old(self)@.sessions, session_id@) ==> r == Err::<String, OpError>(
                OpError::NotFound,
            ) && final(self)@ == old(self)@,
            ({
                let pre = old(self)@;
                let post = final(self)@;
                let sidx = session_idx(pre.sessions, session_id@);
                let sess = pre.sessions[sidx];
                let conflicted = detects_conflict(
                    pre.entries,
                    sess.user_address@,
                    data_type@,
                    data_hash@,
                );
                let pidx = latest_record_idx(pre.entries, sess.user_address@, data_type@);
                has_session(pre.sessions, session_id@) ==> {
                    &&& sess.status != SyncStatus::InProgress ==> r == Err::<String, OpError>(
                        OpError::InvalidState,
                    ) && post == pre
                    &&& sess.status == SyncStatus::InProgress ==> match r {
                        Ok(eid) => {
                            &&& eid@ == id_seq("entry_"@, (pre.entries.len() + 1) as nat)
                            &&& post.entries == pre.entries.push(post.entries.last())
                            &&& ({
                                let e = post.entries.last();
                                &&& e.id@ == eid@
                                &&& e.user_address@ == sess.user_address@
                                &&& e.device_id@ == device_id@
                                &&& e.data_type == data_type
                                &&& e.data_hash == data_hash
                                &&& e.payload == payload
                                &&& e.timestamp == post.clock
                                &&& e.sync_status == (if conflicted {
                                    SyncStatus::Conflict
                                } else {
                                    SyncStatus::Completed
                                })
                                &&& e.conflict_resolution is None
                                &&& e.parent_entry_id is None
                                &&& e.merged_with@.len() == 0
                            })
                            &&& post.sessions == pre.sessions.update(sidx, post.sessions[sidx])
                            &&& ({
                                let s1 = post.sessions[sidx];
                                &&& s1.entries_synced == sess.entries_synced + 1
                                &&& s1.conflicts_resolved == sess.conflicts_resolved + (
                                if conflicted {
                                    1int
                                } else {
                                    0int
                                })
                                &&& s1.id == sess.id
                                &&& s1.user_address == sess.user_address
                                &&& s1.device_id == sess.device_id
                                &&& s1.started_at == sess.started_at
                                &&& s1.completed_at == sess.completed_at
                                &&& s1.status == sess.status
                                &&& s1.error_message == sess.error_message
                            })
                            &&& submit_effect(pre, post, sidx, conflicted)
                            &&& conflicted ==> {
                                &&& post.conflicts == pre.conflicts.push(post.conflicts.last())
                                &&& ({
                                    let c = post.conflicts.last();
                                    &&& c.id@ == id_seq(
                                        "conflict_"@,
                                        (pre.conflicts.len() + 1) as nat,
                                    )
                                    &&& c.user_address@ == sess.user_address@
                                    &&& c.entry_id_1 == pre.entries[pidx].id
                                    &&& c.entry_id_2@ == eid@
                                    &&& c.conflict_type@ == "data"@
                                    &&& c.detected_at == post.clock
                                    &&& c.resolution is None
                                    &&& c.resolved_at is None
                                    &&& c.resolved_by is None
                                    &&& c.winning_entry_id is None
                                })
                            }
                            &&& !conflicted ==> post.conflicts == pre.conflicts
                            &&& post.devices == pre.devices
                            &&& post.admin == pre.admin
                            &&& post.clock == bump(pre.clock)
                        },
                        Err(_) => false,
                    }
                }
            }),
    {
        let sidx = match self.find_session(session_id) {
            None => {
                return Err(OpError::NotFound);
            },
            Some(i) => i,
        };
        if !(self.sessions[sidx].status == SyncStatus::InProgress) {
            return Err(OpError::InvalidState);
        }
        let ts = self.tick();
        let user = self.sessions[sidx].user_address.clone();
        let prior = self.latest_record(user.as_str(), data_type.as_str());
        let mut conflicted = false;
        let mut prior_idx: usize = 0;
        match prior {
            Some(p) => {
                if !str_eq(self.entries[p].data_hash.as_str(), data_hash.as_str()) {
                    conflicted = true;
                    prior_idx = p;
                }
            },
            None => {},
        }
        let en = self.entries.len() as u64;
        let entry_id = make_id("entry_", en + 1);
        let entry = SyncEntry {
            id: entry_id.clone(),
            user_address: user.clone(),
            device_id: String::from_str(device_id),
            data_type,
            data_hash,
            timestamp: ts,
            sync_status: if conflicted {
                SyncStatus::Conflict
            } else {
                SyncStatus::Completed
            },
            conflict_resolution: None,
            parent_entry_id: None,
            merged_with: Vec::new(),
            payload,
        };
        self.entries.push(entry);
        if conflicted {
            let cn = self.conflicts.len() as u64;
            let conflict_id = make_id("conflict_", cn + 1);
            let conflict = SyncConflict {
                id: conflict_id,
                user_address: user,
                entry_id_1: self.entries[prior_idx].id.clone(),
                entry_id_2: entry_id.clone(),
                conflict_type: String::from_str("data"),
                detected_at: ts,
                resolution: None,
                resolved_at: None,
                resolved_by: None,
                winning_entry_id: None,
            };
            self.conflicts.push(conflict);
            let c0 = self.sessions[sidx].conflicts_resolved;
            self.sessions[sidx].conflicts_resolved = c0 + 1;
        }
        let e0 = self.sessions[sidx].entries_synced;
        self.sessions[sidx].entries_synced = e0 + 1;
        proof {
            let pre = old(self)@;
            let post = self@;
            let si = sidx as int;
            assert(post.sessions =~= pre.sessions.update(si, post.sessions[si]));
            assert forall|i: int| 0 <= i < post.entries.len() implies (#[trigger] post.entries[i]).id@
                == id_seq("entry_"@, (i + 1) as nat) by {
                if i < pre.entries.len() {
                    assert(post.entries[i] == pre.entries[i]);
                }
            }
            assert forall|i: int| 0 <= i < post.conflicts.len() implies (
            #[trigger] post.conflicts[i]).id@ == id_seq("conflict_"@, (i + 1) as nat) by {
                if i < pre.conflicts.len() {
                    assert(post.conflicts[i] == pre.conflicts[i]);
                }
            }
            assert forall|i: int| 0 <= i < post.sessions.len() implies (
            #[trigger] post.sessions[i]).entries_synced <= post.entries.len() by {
                if i != si {
                    assert(post.sessions[i] == pre.sessions[i]);
                }
            }
            assert forall|i: int| 0 <= i < post.sessions.len() implies (
            #[trigger] post.sessions[i]).conflicts_resolved <= post.conflicts.len() by {
                if i != si {
                    assert(post.sessions[i] == pre.sessions[i]);
                }
            }
            assert forall|i: int| 0 <= i < post.sessions.len() implies has_device(
                post.devices,
                (#[trigger] post.sessions[i]).device_id@,
            ) by {
                let j = device_idx(pre.devices, pre.sessions[i].device_id@);
                assert(post.sessions[i].device_id == pre.sessions[i].device_id);
                assert(post.devices[j].id@ == post.sessions[i].device_id@);
            }
            assert forall|i: int| 0 <= i < post.conflicts.len() implies has_entry(
                post.entries,
                (#[trigger] post.conflicts[i]).entry_id_1@,
            ) && has_entry(post.entries, post.conflicts[i].entry_id_2@) by {
                if i < pre.conflicts.len() {
                    let j1 = entry_idx(pre.entries, pre.conflicts[i].entry_id_1@);
                    let j2 = entry_idx(pre.entries, pre.conflicts[i].entry_id_2@);
                    assert(post.entries[j1].id@ == post.conflicts[i].entry_id_1@);
                    assert(post.entries[j2].id@ == post.conflicts[i].entry_id_2@);
                } else {
                    assert(post.entries[prior_idx as int].id@ == post.conflicts[i].entry_id_1@);
                    assert(post.entries[post.entries.len() - 1].id@
                        == post.conflicts[i].entry_id_2@);
                }
            }
        }
        Ok(entry_id)
    }

    fn apply_last_write_wins(&mut self, widx: usize)
        requires
            widx < old(self)@.entries.len(),
        ensures
            final(self)@ == (SyncState {
                entries: old(self)@.entries.update(
                    widx as int,
                    (SyncEntry {
                        sync_status: SyncStatus::Completed,
                        conflict_resolution: Some(ConflictResolution::LastWriteWins),
                        ..old(self)@.entries[widx as int]
                    }),
                ),
                ..old(self)@
            }),
    {
        self.entries[widx].sync_status = SyncStatus::Completed;
        self.entries[widx].conflict_resolution = Some(ConflictResolution::LastWriteWins);
        proof {
            assert(self@.entries =~= old(self)@.entries.update(
                widx as int,
                (SyncEntry {
                    sync_status: SyncStatus::Completed,
                    conflict_resolution: Some(ConflictResolution::LastWriteWins),
                    ..old(self)@.entries[widx as int]
                }),
            ));
        }
    }

    fn apply_first_write_wins(&mut self, widx: usize)
        requires
            widx < old(self)@.entries.len(),
        ensures
            final(self)@ == (SyncState {
                entries: old(self)@.entries.update(
                    widx as int,
                    (SyncEntry {
                        sync_status: SyncStatus::Completed,
                        conflict_resolution: Some(ConflictResolution::FirstWriteWins),
                        ..old(self)@.entries[widx as int]
                    }),
                ),
                ..old(self)@
            }),
    {
        self.entries[widx].sync_status = SyncStatus::Completed;
        self.entries[widx].conflict_resolution = Some(ConflictResolution::FirstWriteWins);
        proof {
            assert(self@.entries =~= old(self)@.entries.update(
                widx as int,
                (SyncEntry {
                    sync_status: SyncStatus::Completed,
                    conflict_resolution: Some(ConflictResolution::FirstWriteWins),
                    ..old(self)@.entries[widx as int]
                }),
            ));
        }
    }

    fn apply_timestamp_wins(&mut self, widx: usize)
        requires
            widx < old(self)@.entries.len(),
        ensures
            final(self)@ == (SyncState {
                entries: old(self)@.entries.update(
                    widx as int,
                    (SyncEntry {
                        sync_status: SyncStatus::Completed,
                        conflict_resolution: Some(ConflictResolution::TimestampWins),
                        ..old(self)@.entries[widx as int]
                    }),
                ),
                ..old(self)@
            }),
    {
        self.entries[widx].sync_status = SyncStatus::Completed;
        self.entries[widx].conflict_resolution = Some(ConflictResolution::TimestampWins);
        proof {
            assert(self@.entries =~= old(self)@.entries.update(
                widx as int,
                (SyncEntry {
                    sync_status: SyncStatus::Completed,
                    conflict_resolution: Some(ConflictResolution::TimestampWins),
                    ..old(self)@.entries[widx as int]
                }),
            ));
        }
    }

    fn apply_manual_review(&mut self, widx: usize)
        requires
            widx < old(self)@.entries.len(),
        ensures
            final(self)@ == (SyncState {
                entries: old(self)@.entries.update(
                    widx as int,
                    (SyncEntry {
                        sync_status: SyncStatus::Pending,
                        conflict_resolution: Some(ConflictResolution::ManualReview),
                        ..old(self)@.entries[widx as int]
                    }),
                ),
                ..old(self)@
            }),
    {
        self.entries[widx].sync_status = SyncStatus::Pending;
        self.entries[widx].conflict_resolution = Some(ConflictResolution::ManualReview);
        proof {
            assert(self@.entries =~= old(self)@.entries.update(
                widx as int,
                (SyncEntry {
                    sync_status: SyncStatus::Pending,
                    conflict_resolution: Some(ConflictResolution::ManualReview),
                    ..old(self)@.entries[widx as int]
                }),
            ));
        }
    }

    fn apply_merge_data(&mut self, widx: usize, lidx: usize)
        requires
            widx < old(self)@.entries.len(),
            lidx < old(self)@.entries.len(),
        ensures
            ({
                let pre = old(self)@;
                let post = final(self)@;
                let e0 = pre.entries[widx as int];
                let e1 = post.entries[widx as int];
                &&& post == (SyncState { entries: pre.entries.update(widx as int, e1), ..pre })
                &&& e1.payload@ == e0.payload@ + "|"@ + pre.entries[lidx as int].payload@
                &&& e1.merged_with.deep_view() == e0.merged_with.deep_view().push(
                    pre.entries[lidx as int].id@,
                )
                &&& e1.sync_status == SyncStatus::Completed
                &&& e1.conflict_resolution == Some(ConflictResolution::MergeData)
                &&& e1.id == e0.id
                &&& e1.user_address == e0.user_address
                &&& e1.device_id == e0.device_id
                &&& e1.data_type == e0.data_type
                &&& e1.data_hash == e0.data_hash
                &&& e1.timestamp == e0.timestamp
                &&& e1.parent_entry_id == e0.parent_entry_id
            }),
    {
        let w = self.entries[widx].payload.clone();
        let l = self.entries[lidx].payload.clone();
        let losing_id = self.entries[lidx].id.clone();
        let merged = w.concat("|").concat(l.as_str());
        self.entries[widx].payload = merged;
        self.entries[widx].sync_status = SyncStatus::Completed;
        self.entries[widx].conflict_resolution = Some(ConflictResolution::MergeData);
        self.entries[widx].merged_with.push(losing_id);
        proof {
            let pre = old(self)@;
            let post = self@;
            assert(post.entries =~= pre.entries.update(widx as int, post.entries[widx as int]));
            assert(post.entries[widx as int].merged_with.deep_view()
                =~= pre.entries[widx as int].merged_with.deep_view().push(
                pre.entries[lidx as int].id@,
            ));
        }
    }

    /// Resolve a detected conflict under an explicit policy, applied to the
    /// entry named as the winner.  A conflict is sealed exactly once:
    /// resolving an already-resolved conflict fails `InvalidState` and
    /// changes nothing, so the resolution fields are write-once.
    ///
    /// Fails `NotFound` when the conflict or the winning entry is unknown and
    /// `Unauthorized` when the resolver is neither the conflict's owner nor
    /// the administrator.  Otherwise the winning entry's status becomes
    /// `Completed` (`Pending` under `ManualReview`); under `MergeData` its
    /// payload becomes the winning payload, a separator, and the losing
    /// payload, and the losing entry's identity is appended to its merge
    /// list.  The losing entry is retained unchanged, and the conflict's
    /// resolution fields are all set in the same step.
    pub fn resolve_conflict(
        &mut self,
        conflict_id: &str,
        resolution: ConflictResolution,
        winning_entry_id: &str,
        resolver: &str,
    ) -> (r: Result<(), OpError>)
        requires
            old(self).wf(),
        ensures
            final(self).wf(),
            !has_conflict(old(self)@.conflicts, conflict_id@) ==> r == Err::<(), OpError>(
                OpError::NotFound,
            ) && final(self)@ == old(self)@,
            ({
                let pre = old(self)@;
                let post = final(self)@;
                let cidx = conflict_idx(pre.conflicts, conflict_id@);
                let c0 = pre.conflicts[cidx];
                let authorized = resolver@ == pre.admin || resolver@ == c0.user_address@;
                has_conflict(pre.conflicts, conflict_id@) ==> {
                    &&& c0.resolution is Some ==> r == Err::<(), OpError>(OpError::InvalidState)
                        && post == pre
                    &&& c0.resolution is None && !authorized ==> r == Err::<(), OpError>(
                        OpError::Unauthorized,
                    ) && post == pre
                    &&& c0.resolution is None && authorized && !has_entry(
                        pre.entries,
                        winning_entry_id@,
                    ) ==> r == Err::<(), OpError>(OpError::NotFound) && post == pre
                    &&& c0.resolution is None && authorized && has_entry(
                        pre.entries,
                        winning_entry_id@,
                    ) ==> ({
                        let widx = entry_idx(pre.entries, winning_entry_id@);
                        let e0 = pre.entries[widx];
                        let e1 = post.entries[widx];
                        let losing_id = if c0.entry_id_1@ == winning_entry_id@ {
                            c0.entry_id_2@
                        } else {
                            c0.entry_id_1@
                        };
                        let lidx = entry_idx(pre.entries, losing_id);
                        let c1 = post.conflicts[cidx];
                        &&& r == Ok::<(), OpError>(())
                        &&& post.entries == pre.entries.update(widx, e1)
                        &&& e1.conflict_resolution == Some(resolution)
                        &&& e1.sync_status == (if resolution == ConflictResolution::ManualReview {
                            SyncStatus::Pending
                        } else {
                            SyncStatus::Completed
                        })
                        &&& resolution == ConflictResolution::MergeData ==> e1.payload@
                            == e0.payload@ + "|"@ + pre.entries[lidx].payload@
                            && e1.merged_with.deep_view() == e0.merged_with.deep_view().push(
                            pre.entries[lidx].id@,
                        )
                        &&& resolution != ConflictResolution::MergeData ==> e1.payload
                            == e0.payload && e1.merged_with == e0.merged_with
                        &&& e1.id == e0.id
                        &&& e1.user_address == e0.user_address
                        &&& e1.device_id == e0.device_id
                        &&& e1.data_type == e0.data_type
                        &&& e1.data_hash == e0.data_hash
                        &&& e1.timestamp == e0.timestamp
                        &&& e1.parent_entry_id == e0.parent_entry_id
                        &&& post.conflicts == pre.conflicts.update(cidx, c1)
                        &&& c1.resolution == Some(resolution)
                        &&& c1.resolved_at == Some(post.clock)
                        &&& c1.resolved_by.deep_view() == Some(resolver@)
                        &&& c1.winning_entry_id.deep_view() == Some(winning_entry_id@)
                        &&& c1.id == c0.id
                        &&& c1.user_address == c0.user_address
                        &&& c1.entry_id_1 == c0.entry_id_1
                        &&& c1.entry_id_2 == c0.entry_id_2
                        &&& c1.conflict_type == c0.conflict_type
                        &&& c1.detected_at == c0.detected_at
                        &&& post.devices == pre.devices
                        &&& post.sessions == pre.sessions
                        &&& post.admin == pre.admin
                        &&& post.clock == bump(pre.clock)
                    })
                }
            }),
    {
        let cidx = match self.find_conflict(conflict_id) {
            None => {
                return Err(OpError::NotFound);
            },
            Some(i) => i,
        };
        if self.conflicts[cidx].resolution.is_some() {
            return Err(OpError::InvalidState);
        }
        let authorized = str_eq(resolver, self.admin.as_str()) || str_eq(
            resolver,
            self.conflicts[cidx].user_address.as_str(),
        );
        if !authorized {
            return Err(OpError::Unauthorized);
        }
        let widx = match self.find_entry(winning_entry_id) {
            None => {
                return Err(OpError::NotFound);
            },
            Some(i) => i,
        };
        let ts = self.tick();
        match resolution {
            ConflictResolution::LastWriteWins => {
                self.apply_last_write_wins(widx);
            },
            ConflictResolution::FirstWriteWins => {
                self.apply_first_write_wins(widx);
            },
            ConflictResolution::TimestampWins => {
                self.apply_timestamp_wins(widx);
            },
            ConflictResolution::ManualReview => {
                self.apply_manual_review(widx);
            },
            ConflictResolution::MergeData => {
                let losing_id = if str_eq(
                    self.conflicts[cidx].entry_id_1.as_str(),
                    winning_entry_id,
                ) {
                    self.conflicts[cidx].entry_id_2.clone()
                } else {
                    self.conflicts[cidx].entry_id_1.clone()
                };
                proof {
                    assert(has_entry(old(self)@.entries, losing_id@));
                }
                let lidx = match self.find_entry(losing_id.as_str()) {
                    Some(i) => i,
                    None => {
                        proof {
                            assert(false);
                        }
                        return Err(OpError::NotFound);
                    },
                };
                self.apply_merge_data(widx, lidx);
            },
        }
        self.conflicts[cidx].resolution = Some(resolution);
        self.conflicts[cidx].resolved_at = Some(ts);
        self.conflicts[cidx].resolved_by = Some(String::from_str(resolver));
        self.conflicts[cidx].winning_entry_id = Some(String::from_str(winning_entry_id));
        proof {
            let pre = old(self)@;
            let post = self@;
            assert(post.conflicts =~= pre.conflicts.update(cidx as int, post.conflicts[cidx as int]));
            assert(post.entries =~= pre.entries.update(widx as int, post.entries[widx as int]));
            assert forall|i: int| 0 <= i < post.entries.len() implies (#[trigger] post.entries[i]).id@
                == id_seq("entry_"@, (i + 1) as nat) by {
                if i != widx as int {
                    assert(post.entries[i] == pre.entries[i]);
                }
            }
            assert forall|i: int| 0 <= i < post.conflicts.len() implies (
            #[trigger] post.conflicts[i]).id@ == id_seq("conflict_"@, (i + 1) as nat) by {
                if i != cidx as int {
                    assert(post.conflicts[i] == pre.conflicts[i]);
                }
            }
            assert forall|i: int| 0 <= i < post.sessions.len() implies has_device(
                post.devices,
                (#[trigger] post.sessions[i]).device_id@,
            ) by {
                let j = device_idx(pre.devices, pre.sessions[i].device_id@);
                assert(post.devices[j].id@ == post.sessions[i].device_id@);
            }
            assert forall|i: int| 0 <= i < post.conflicts.len() implies has_entry(
                post.entries,
                (#[trigger] post.conflicts[i]).entry_id_1@,
            ) && has_entry(post.entries, post.conflicts[i].entry_id_2@) by {
                let j1 = entry_idx(pre.entries, pre.conflicts[i].entry_id_1@);
                let j2 = entry_idx(pre.entries, pre.conflicts[i].entry_id_2@);
                assert(post.conflicts[i].entry_id_1 == pre.conflicts[i].entry_id_1);
                assert(post.conflicts[i].entry_id_2 == pre.conflicts[i].entry_id_2);
                assert(post.entries[j1].id@ == post.conflicts[i].entry_id_1@);
                assert(post.entries[j2].id@ == post.conflicts[i].entry_id_2@);
            }
        }
        Ok(())
    }

    /// Complete a sync session, successfully or not.  Completion is not
    /// idempotent: a session that is no longer in progress fails
    /// `InvalidState`, so a second completion always fails.
    ///
    /// Fails `NotFound` when the session is unknown and `ValidationError`
    /// when a failed completion carries no error message.  Otherwise the
    /// session becomes `Completed` or `Failed`, its completion time is set,
    /// and — on success only — the device's last-sync time is refreshed and
    /// its sync version advances.
    pub fn complete_sync_session(
        &mut self,
        session_id: &str,
        success: bool,
        error_message: Option<String>,
    ) -> (r: Result<(), OpError>)
        requires
            old(self).wf(),
        ensures
            final(self).wf(),
            !has_session(old(self)@.sessions, session_id@) ==> r == Err::<(), OpError>(
                OpError::NotFound,
            ) && final(self)@ == old(self)@,
            ({
                let pre = old(self)@;
                let post = final(self)@;
                let sidx = session_idx(pre.sessions, session_id@);
                let s0 = pre.sessions[sidx];
                has_session(pre.sessions, session_id@) ==> {
                    &&& s0.status != SyncStatus::InProgress ==> r == Err::<(), OpError>(
                        OpError::InvalidState,
                    ) && post == pre
                    &&& s0.status == SyncStatus::InProgress && !success && error_message is None
                        ==> r == Err::<(), OpError>(OpError::ValidationError) && post == pre
                    &&& s0.status == SyncStatus::InProgress && (success || error_message is Some)
                        ==> ({
                        let s1 = post.sessions[sidx];
                        let didx = device_idx(pre.devices, s0.device_id@);
                        let d0 = pre.devices[didx];
                        &&& r == Ok::<(), OpError>(())
                        &&& post.sessions == pre.sessions.update(sidx, s1)
                        &&& s1.status == (if success {
                            SyncStatus::Completed
                        } else {
                            SyncStatus::Failed
                        })
                        &&& s1.completed_at == Some(post.clock)
                        &&& s1.error_message == (if success {
                            Option::<String>::None
                        } else {
                            error_message
                        })
                        &&& s1.id == s0.id
                        &&& s1.user_address == s0.user_address
                        &&& s1.device_id == s0.device_id
                        &&& s1.started_at == s0.started_at
                        &&& s1.entries_synced == s0.entries_synced
                        &&& s1.conflicts_resolved == s0.conflicts_resolved
                        &&& success ==> post.devices == pre.devices.update(
                            didx,
                            (Device {
                                last_sync: post.clock,
                                sync_version: bump(d0.sync_version),
                                ..d0
                            }),
                        )
                        &&& !success ==> post.devices == pre.devices
                        &&& post.entries == pre.entries
                        &&& post.conflicts == pre.conflicts
                        &&& post.admin == pre.admin
                        &&& post.clock == bump(pre.clock)
                    })
                }
            }),
    {
        let sidx = match self.find_session(session_id) {
            None => {
                return Err(OpError::NotFound);
            },
            Some(i) => i,
        };
        if !(self.sessions[sidx].status == SyncStatus::InProgress) {
            return Err(OpError::InvalidState);
        }
        if !success && error_message.is_none() {
            return Err(OpError::ValidationError);
        }
        let device_id = self.sessions[sidx].device_id.clone();
        proof {
            assert(has_device(self@.devices, self@.sessions[sidx as int].device_id@));
        }
        let didx = match self.find_device(device_id.as_str()) {
            Some(i) => i,
            None => {
                proof {
                    assert(false);
                }
                return Err(OpError::NotFound);
            },
        };
        let ts = self.tick();
        self.sessions[sidx].completed_at = Some(ts);
        self.sessions[sidx].status = if success {
            SyncStatus::Completed
        } else {
            SyncStatus::Failed
        };
        self.sessions[sidx].error_message = if success {
            None
        } else {
            error_message
        };
        if success {
            self.devices[didx].last_sync = ts;
            let sv = self.devices[didx].sync_version;
            if sv < u64::MAX {
                self.devices[didx].sync_version = sv + 1;
            }
        }
        proof {
            let pre = old(self)@;
            let post = self@;
            assert(post.sessions =~= pre.sessions.update(sidx as int, post.sessions[sidx as int]));
            if success {
                assert(post.devices =~= pre.devices.update(didx as int, post.devices[didx as int]));
            }
            assert forall|i: int| 0 <= i < post.devices.len() implies (#[trigger] post.devices[i]).id@
                == id_seq("device_"@, (i + 1) as nat) by {
                if i != didx as int {
                    assert(post.devices[i] == pre.devices[i]);
                }
            }
            assert forall|i: int| 0 <= i < post.sessions.len() implies (
            #[trigger] post.sessions[i]).id@ == id_seq("session_"@, (i + 1) as nat) by {
                if i != sidx as int {
                    assert(post.sessions[i] == pre.sessions[i]);
                }
            }
            assert forall|i: int| 0 <= i < post.sessions.len() implies (
            #[trigger] post.sessions[i]).entries_synced <= post.entries.len() by {
                if i != sidx as int {
                    assert(post.sessions[i] == pre.sessions[i]);
                }
            }
            assert forall|i: int| 0 <= i < post.sessions.len() implies (
            #[trigger] post.sessions[i]).conflicts_resolved <= post.conflicts.len() by {
                if i != sidx as int {
                    assert(post.sessions[i] == pre.sessions[i]);
                }
            }
            assert forall|i: int| 0 <= i < post.sessions.len() implies has_device(
                post.devices,
                (#[trigger] post.sessions[i]).device_id@,
            ) by {
                let j = device_idx(pre.devices, pre.sessions[i].device_id@);
                assert(post.sessions[i].device_id == pre.sessions[i].device_id);
                assert(post.devices[j].id@ == post.sessions[i].device_id@);
            }
        }
        Ok(())
    }

    /// Per-user session history is not indexed by this store; the query is
    /// answered with the empty sequence, whatever the user and limit.
    pub fn get_user_sync_history(&self, _user_address: &str, _limit: u32) -> (r: Vec<String>)
        ensures
            r@.len() == 0,
    {
        Vec::new()
    }

    /// Per-user conflicts are not indexed by this store; the query is
    /// answered with the empty sequence, whatever the user.
    pub fn get_user_conflicts(&self, _user_address: &str) -> (r: Vec<String>)
        ensures
            r@.len() == 0,
    {
        Vec::new()
    }

    /// Maintenance hook for expiring old sync data.  The ledgers are
    /// append-only, so nothing is removed and the count of removed records
    /// is zero.
    pub fn cleanup_old_data(&self, _older_than: u64) -> (r: u64)
        ensures
            r == 0,
    {
        0
    }

    /// The total number of registered devices.
    pub fn get_device_count(&self) -> (r: u64)
        ensures
            r as nat == self@.devices.len(),
    {
        self.devices.len() as u64
    }

    /// The total number of submitted entries.
    pub fn get_entry_count(&self) -> (r: u64)
        ensures
            r as nat == self@.entries.len(),
    {
        self.entries.len() as u64
    }

    /// The total number of detected conflicts.
    pub fn get_conflict_count(&self) -> (r: u64)
        ensures
            r as nat == self@.conflicts.len(),
    {
        self.conflicts.len() as u64
    }

    /// The total number of sync sessions ever started.
    pub fn get_session_count(&self) -> (r: u64)
        ensures
            r as nat == self@.sessions.len(),
    {
        self.sessions.len() as u64
    }
}

} // verus!
