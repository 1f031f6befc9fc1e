//! Per-user course progress: a keyed store of lesson counts.
//!
//! One record exists per `(user, course)` pair; recording progress again for
//! the same pair replaces the record wholesale.

use vstd::prelude::*;
use crate::ident::str_eq;
use crate::clock::bump;

verus! {

/// A user's progress in one course.
pub struct UserProgress {
    pub user: String,
    pub course_id: String,
    pub lessons_completed: u32,
    pub total_lessons: u32,
    pub is_completed: bool,
    pub last_updated: u64,
}

/// The mathematical model of the progress store.
pub struct ProgressState {
    pub records: Seq<UserProgress>,
    pub clock: u64,
}

/// The progress store: one record per `(user, course)` pair.
pub struct CourseProgressContract {
    records: Vec<UserProgress>,
    clock: u64,
}

impl View for CourseProgressContract {
    type V = ProgressState;

    closed spec fn view(&self) -> ProgressState {
        ProgressState { records: self.records@, clock: self.clock }
    }
}

/// Some record belongs to the `(user, course)` pair.
pub open spec fn has_progress(rs: Seq<UserProgress>, user: Seq<char>, course: Seq<char>) -> bool {
    exists|i: int| 0 <= i < rs.len() && rs[i].user@ == user && rs[i].course_id@ == course
}

/// The position of the pair's record; meaningful when `has_progress`.
pub open spec fn progress_idx(rs: Seq<UserProgress>, user: Seq<char>, course: Seq<char>) -> int {
    choose|i: int| 0 <= i < rs.len() && rs[i].user@ == user && rs[i].course_id@ == course
}

/// Well-formedness: at most one record per `(user, course)` pair.
pub open spec fn inv(s: ProgressState) -> bool {
    forall|i: int, j: int|
        0 <= i < s.records.len() && 0 <= j < s.records.len() && i != j ==> !((
        #[trigger] s.records[i]).user@ == (#[trigger] s.records[j]).user@ && s.records[i].course_id@
            == s.records[j].course_id@)
}

impl CourseProgressContract {
    /// The store is well formed.
    pub open spec fn wf(&self) -> bool {
        inv(self@)
    }

    /// Create an empty progress store.
    pub fn new() -> (r: CourseProgressContract)
        ensures
            r.wf(),
            r@.records.len() == 0,
            r@.clock == 0,
    {
        CourseProgressContract { records: Vec::new(), clock: 0 }
    }

    fn find(&self, user: &str, course_id: &str) -> (r: Option<usize>)
        requires
            self.wf(),
        ensures
            match r {
                Some(i) => {
                    &&& i < self@.records.len()
                    &&& self@.records[i as int].user@ == user@
                    &&& self@.records[i as int].course_id@ == course_id@
                    &&& has_progress(self@.records, user@, course_id@)
                    &&& progress_idx(self@.records, user@, course_id@) == i as int
                },
                None => !has_progress(self@.records, user@, course_id@),
            },
    {
        let mut i: usize = 0;
        while i < self.records.len()
            invariant
                self.wf(),
                i <= self@.records.len(),
                forall|j: int|
                    0 <= j < i ==> !((#[trigger] self@.records[j]).user@ == user@
                        && self@.records[j].course_id@ == course_id@),
            decreases self@.records.len() - i,
        {
            if str_eq(self.records[i].user.as_str(), user) && str_eq(
                self.records[i].course_id.as_str(),
                course_id,
            ) {
                proof {
                    let k = progress_idx(self@.records, user@, course_id@);
                    assert(has_progress(self@.records, user@, course_id@));
                    assert(k == i as int);
                }
                return Some(i);
            }
            i += 1;
        }
        None
    }

    /// Record a user's progress in a course, replacing any prior record for
    /// the same `(user, course)` pair.  The record counts as completed
    /// exactly when at least as many lessons are completed as the course
    /// holds in total.
    pub fn record_progress(
        &mut self,
        user: String,
        course_id: String,
        lessons_completed: u32,
        total_lessons: u32,
    )
        requires
            old(self).wf(),
        ensures
            final(self).wf(),
            ({
                let pre = old(self)@;
                let post = final(self)@;
                let had = has_progress(pre.records, user@, course_id@);
                let idx = progress_idx(pre.records, user@, course_id@);
                let rec = (UserProgress {
                    user,
                    course_id,
                    lessons_completed,
                    total_lessons,
                    is_completed: lessons_completed >= total_lessons,
                    last_updated: post.clock,
                });
                &&& had ==> post.records == pre.records.update(idx, rec)
                &&& !had ==> post.records == pre.records.push(rec)
                &&& post.clock == bump(pre.clock)
            }),
    {
        let found = self.find(user.as_str(), course_id.as_str());
        if self.clock < u64::MAX {
            self.clock = self.clock + 1;
        }
        let ts = self.clock;
        let rec = UserProgress {
            user,
            course_id,
            lessons_completed,
            total_lessons,
            is_completed: lessons_completed >= total_lessons,
            last_updated: ts,
        };
        match found {
            Some(i) => {
                self.records[i] = rec;
                proof {
                    let pre = old(self)@;
                    let post = self@;
                    assert forall|a: int, b: int|
                        0 <= a < post.records.len() && 0 <= b < post.records.len() && a
                            != b implies !((#[trigger] post.records[a]).user@ == (
                    #[trigger] post.records[b]).user@ && post.records[a].course_id@
                        == post.records[b].course_id@) by {
                        if a != i as int && b != i as int {
                            assert(post.records[a] == pre.records[a]);
                            assert(post.records[b] == pre.records[b]);
                        } else if a == i as int {
                            assert(post.records[b] == pre.records[b]);
                            assert(pre.records[i as int].user@ == post.records[a].user@);
                        } else {
                            assert(post.records[a] == pre.records[a]);
                            assert(pre.records[i as int].user@ == post.records[b].user@);
                        }
                    }
                }
            },
            None => {
                self.records.push(rec);
            },
        }
    }

    /// The recorded progress for a `(user, course)` pair, when one exists.
    pub fn get_progress(&self, user: &str, course_id: &str) -> (r: Option<&UserProgress>)
        requires
            self.wf(),
        ensures
            match r {
                Some(p) => has_progress(self@.records, user@, course_id@) && *p
                    == self@.records[progress_idx(self@.records, user@, course_id@)],
                None => !has_progress(self@.records, user@, course_id@),
            },
    {
        match self.find(user, course_id) {
            Some(i) => Some(&self.records[i]),
            None => None,
        }
    }
}

} // verus!
