//! An append-only log of platform events.
//!
//! Events are numbered sequentially from one.  Per-user and per-kind queries
//! filter the log in order; the recent-events query pages through it newest
//! first.

use vstd::prelude::*;
use crate::clock::{bump, bump_clock};
use crate::ident::str_eq;

verus! {

/// The kind of a logged event.
#[derive(Clone, Copy, Debug, PartialEq, Eq, Structural)]
pub enum EventType {
    CourseCompletion,
    CredentialIssuance,
    UserAchievement,
    ProfileUpdate,
    CourseEnrollment,
}

/// One logged event.  The metadata field carries free-form annotation text.
pub struct EventLog {
    pub id: u64,
    pub event_type: EventType,
    pub user: String,
    pub timestamp: u64,
    pub course_id: Option<String>,
    pub credential_id: Option<u64>,
    pub achievement_type: Option<String>,
    pub metadata: String,
}

impl Clone for EventLog {
    fn clone(&self) -> (res: Self)
        ensures
            res == *self,
    {
        EventLog {
            id: self.id,
            event_type: self.event_type,
            user: self.user.clone(),
            timestamp: self.timestamp,
            course_id: match &self.course_id {
                Some(s) => Some(s.clone()),
                None => None,
            },
            credential_id: self.credential_id,
            achievement_type: match &self.achievement_type {
                Some(s) => Some(s.clone()),
                None => None,
            },
            metadata: self.metadata.clone(),
        }
    }
}

/// The mathematical model of the event log.
pub struct EventsState {
    pub events: Seq<EventLog>,
    pub clock: u64,
}

/// The event log store.
pub struct EventLoggerContract {
    events: Vec<EventLog>,
    clock: u64,
}

impl View for EventLoggerContract {
    type V = EventsState;

    closed spec fn view(&self) -> EventsState {
        EventsState { events: self.events@, clock: self.clock }
    }
}

/// Well-formedness: events are numbered positionally from one.
pub open spec fn inv(s: EventsState) -> bool {
    forall|i: int| 0 <= i < s.events.len() ==> (#[trigger] s.events[i]).id == i + 1
}

/// The events belonging to `user`, in log order.
pub open spec fn user_events(events: Seq<EventLog>, user: Seq<char>) -> Seq<EventLog>
    decreases events.len(),
{
    if events.len() == 0 {
        Seq::empty()
    } else {
        let rest = user_events(events.drop_last(), user);
        if events.last().user@ == user {
            rest.push(events.last())
        } else {
            rest
        }
    }
}

/// The events of one kind, in log order.
pub open spec fn events_of_type(events: Seq<EventLog>, et: EventType) -> Seq<EventLog>
    decreases events.len(),
{
    if events.len() == 0 {
        Seq::empty()
    } else {
        let rest = events_of_type(events.drop_last(), et);
        if events.last().event_type == et {
            rest.push(events.last())
        } else {
            rest
        }
    }
}

/// Where the recent-events window starts (one past its newest position).
pub open spec fn recent_start(len: int, offset: int) -> int {
    if len > offset {
        len - offset
    } else {
        0
    }
}

/// Where the recent-events window ends (its oldest position).
pub open spec fn recent_end(start: int, limit: int) -> int {
    if start > limit {
        start - limit
    } else {
        0
    }
}

impl EventLoggerContract {
    /// The store is well formed.
    pub open spec fn wf(&self) -> bool {
        inv(self@)
    }

    /// Create an empty event log.
    pub fn initialize() -> (r: EventLoggerContract)
        ensures
            r.wf(),
            r@.events.len() == 0,
            r@.clock == 0,
    {
        EventLoggerContract { events: Vec::new(), clock: 0 }
    }

    fn create_event(
        &mut self,
        event_type: EventType,
        user: String,
        course_id: Option<String>,
        credential_id: Option<u64>,
        achievement_type: Option<String>,
        metadata: String,
    ) -> (r: u64)
        requires
            old(self).wf(),
            old(self)@.events.len() < usize::MAX,
        ensures
            final(self).wf(),
            r as int == old(self)@.events.len() + 1,
            final(self)@.events == old(self)@.events.push(
                (EventLog {
                    id: r,
                    event_type,
                    user,
                    timestamp: final(self)@.clock,
                    course_id,
                    credential_id,
                    achievement_type,
                    metadata,
                }),
            ),
            final(self)@.clock == bump(old(self)@.clock),
    {
        self.clock = bump_clock(self.clock);
        let event_id = self.events.len() as u64 + 1;
        let event = EventLog {
            id: event_id,
            event_type,
            user,
            timestamp: self.clock,
            course_id,
            credential_id,
            achievement_type,
            metadata,
        };
        self.events.push(event);
        event_id
    }

    /// Log that a user completed a course; reports the event number.
    pub fn log_course_completion(&mut self, user: String, course_id: String, metadata: String) -> (r:
        u64)
        requires
            old(self).wf(),
            old(self)@.events.len() < usize::MAX,
        ensures
            final(self).wf(),
            r as int == old(self)@.events.len() + 1,
            final(self)@.events == old(self)@.events.push(
                (EventLog {
                    id: r,
                    event_type: EventType::CourseCompletion,
                    user,
                    timestamp: final(self)@.clock,
                    course_id: Some(course_id),
                    credential_id: None,
                    achievement_type: None,
                    metadata,
                }),
            ),
            final(self)@.clock == bump(old(self)@.clock),
    {
        self.create_event(EventType::CourseCompletion, user, Some(course_id), None, None, metadata)
    }

    /// Log that a credential was issued to a user; reports the event number.
    pub fn log_credential_issuance(
        &mut self,
        user: String,
        credential_id: u64,
        course_id: String,
        metadata: String,
    ) -> (r: u64)
        requires
            old(self).wf(),
            old(self)@.events.len() < usize::MAX,
        ensures
            final(self).wf(),
            r as int == old(self)@.events.len() + 1,
            final(self)@.events == old(self)@.events.push(
                (EventLog {
                    id: r,
                    event_type: EventType::CredentialIssuance,
                    user,
                    timestamp: final(self)@.clock,
                    course_id: Some(course_id),
                    credential_id: Some(credential_id),
                    achievement_type: None,
                    metadata,
                }),
            ),
            final(self)@.clock == bump(old(self)@.clock),
    {
        self.create_event(
            EventType::CredentialIssuance,
            user,
            Some(course_id),
            Some(credential_id),
            None,
            metadata,
        )
    }

    /// Log that a user earned an achievement; reports the event number.
    pub fn log_user_achievement(
        &mut self,
        user: String,
        achievement_type: String,
        metadata: String,
    ) -> (r: u64)
        requires
            old(self).wf(),
            old(self)@.events.len() < usize::MAX,
        ensures
            final(self).wf(),
            r as int == old(self)@.events.len() + 1,
            final(self)@.events == old(self)@.events.push(
                (EventLog {
                    id: r,
                    event_type: EventType::UserAchievement,
                    user,
                    timestamp: final(self)@.clock,
                    course_id: None,
                    credential_id: None,
                    achievement_type: Some(achievement_type),
                    metadata,
                }),
            ),
            final(self)@.clock == bump(old(self)@.clock),
    {
        self.create_event(
            EventType::UserAchievement,
            user,
            None,
            None,
            Some(achievement_type),
            metadata,
        )
    }

    /// Log that a user updated their profile; reports the event number.
    pub fn log_profile_update(&mut self, user: String, metadata: String) -> (r: u64)
        requires
            old(self).wf(),
            old(self)@.events.len() < usize::MAX,
        ensures
            final(self).wf(),
            r as int == old(self)@.events.len() + 1,
            final(self)@.events == old(self)@.events.push(
                (EventLog {
                    id: r,
                    event_type: EventType::ProfileUpdate,
                    user,
                    timestamp: final(self)@.clock,
                    course_id: None,
                    credential_id: None,
                    achievement_type: None,
                    metadata,
                }),
            ),
            final(self)@.clock == bump(old(self)@.clock),
    {
        self.create_event(EventType::ProfileUpdate, user, None, None, None, metadata)
    }

    /// Log that a user enrolled in a course; reports the event number.
    pub fn log_course_enrollment(&mut self, user: String, course_id: String, metadata: String) -> (r:
        u64)
        requires
            old(self).wf(),
            old(self)@.events.len() < usize::MAX,
        ensures
            final(self).wf(),
            r as int == old(self)@.events.len() + 1,
            final(self)@.events == old(self)@.events.push(
                (EventLog {
                    id: r,
                    event_type: EventType::CourseEnrollment,
                    user,
                    timestamp: final(self)@.clock,
                    course_id: Some(course_id),
                    credential_id: None,
                    achievement_type: None,
                    metadata,
                }),
            ),
            final(self)@.clock == bump(old(self)@.clock),
    {
        self.create_event(EventType::CourseEnrollment, user, Some(course_id), None, None, metadata)
    }

    /// Look up an event by number; `None` exactly when the number was never
    /// assigned.
    pub fn get_event(&self, event_id: u64) -> (r: Option<&EventLog>)
        requires
            self.wf(),
        ensures
            match r {
                Some(e) => 1 <= event_id <= self@.events.len() && *e == self@.events[event_id - 1],
                None => !(1 <= event_id <= self@.events.len()),
            },
    {
        if event_id == 0 || event_id > self.events.len() as u64 {
            return None;
        }
        Some(&self.events[(event_id - 1) as usize])
    }

    /// All events logged for a user, oldest first.
    pub fn get_user_events(&self, user: &str) -> (r: Vec<EventLog>)
        ensures
            r@ == user_events(self@.events, user@),
    {
        let mut out: Vec<EventLog> = Vec::new();
        let mut i: usize = 0;
        while i < self.events.len()
            invariant
                i <= self@.events.len(),
                out@ == user_events(self@.events.subrange(0, i as int), user@),
            decreases self@.events.len() - i,
        {
            if str_eq(self.events[i].user.as_str(), user) {
                out.push(self.events[i].clone());
            }
            i += 1;
            proof {
                let part = self@.events.subrange(0, i as int);
                assert(part.drop_last() =~= self@.events.subrange(0, i - 1));
                assert(part.last() == self@.events[i - 1]);
                assert(out@ =~= user_events(part, user@));
            }
        }
        proof {
            assert(self@.events.subrange(0, self@.events.len() as int) =~= self@.events);
        }
        out
    }

    /// All events of one kind, oldest first.
    pub fn get_events_by_type(&self, event_type: EventType) -> (r: Vec<EventLog>)
        ensures
            r@ == events_of_type(self@.events, event_type),
    {
        let mut out: Vec<EventLog> = Vec::new();
        let mut i: usize = 0;
        while i < self.events.len()
            invariant
                i <= self@.events.len(),
                out@ == events_of_type(self@.events.subrange(0, i as int), event_type),
            decreases self@.events.len() - i,
        {
            if self.events[i].event_type == event_type {
                out.push(self.events[i].clone());
            }
            i += 1;
            proof {
                let part = self@.events.subrange(0, i as int);
                assert(part.drop_last() =~= self@.events.subrange(0, i - 1));
                assert(part.last() == self@.events[i - 1]);
                assert(out@ =~= events_of_type(part, event_type));
            }
        }
        proof {
            assert(self@.events.subrange(0, self@.events.len() as int) =~= self@.events);
        }
        out
    }

    /// A page of the log, newest first: `offset` newest events are skipped
    /// and at most `limit` are reported.
    pub fn get_recent_events(&self, limit: u32, offset: u32) -> (r: Vec<EventLog>)
        ensures
            ({
                let start = recent_start(self@.events.len() as int, offset as int);
                let end = recent_end(start, limit as int);
                r@ == self@.events.subrange(end, start).reverse()
            }),
    {
        let total = self.events.len();
        let start: usize = if total > offset as usize {
            total - offset as usize
        } else {
            0
        };
        let end: usize = if start > limit as usize {
            start - limit as usize
        } else {
            0
        };
        let mut out: Vec<EventLog> = Vec::new();
        let mut i: usize = start;
        while i > end
            invariant
                end <= i <= start <= self@.events.len(),
                out@ == self@.events.subrange(i as int, start as int).reverse(),
            decreases i,
        {
            i = i - 1;
            out.push(self.events[i].clone());
            proof {
                let win = self@.events.subrange(i as int, start as int);
                assert(out@ =~= win.reverse());
            }
        }
        out
    }

    /// The total number of logged events.
    pub fn get_event_count(&self) -> (r: u64)
        ensures
            r as nat == self@.events.len(),
    {
        self.events.len() as u64
    }
}

} // verus!
