//! Course metadata: courses, instructor profiles and course completions.
//!
//! Each course carries an integrity fingerprint over its core fields — a
//! rolling byte hash rendered in hexadecimal — recomputed on every update,
//! so a stored course can always be checked against its own fingerprint.

use vstd::prelude::*;
use vstd::string::*;
use vstd::slice::slice_index_get;
use vstd::utf8::encode_utf8;
use vstd::wrapping::u64_specs;
use crate::clock::{bump, bump_clock};
use crate::errors::OpError;
use crate::ident::{dec_seq, id_seq, make_id, push_dec, str_eq};

verus! {

/// The lifecycle state of a course.
#[derive(Clone, Copy, Debug, PartialEq, Eq, Structural)]
pub enum CourseStatus {
    Active,
    Inactive,
    Archived,
    Suspended,
}

/// A course and its descriptive metadata.  The rating is carried on a
/// 0 to 100 scale.
pub struct CourseMetadata {
    pub id: String,
    pub instructor: String,
    pub title: String,
    pub description: String,
    pub category: String,
    pub level: String,
    pub duration: u64,
    pub price: u64,
    pub prerequisites: Vec<String>,
    pub learning_objectives: Vec<String>,
    pub syllabus: String,
    pub thumbnail_url: String,
    pub tags: Vec<String>,
    pub language: String,
    pub certificate_enabled: bool,
    pub max_students: u64,
    pub current_enrollments: u64,
    pub rating: u32,
    pub review_count: u64,
    pub status: CourseStatus,
    pub created_at: u64,
    pub updated_at: u64,
    pub verification_hash: String,
}

/// A student's completion of a course.
pub struct CourseCompletion {
    pub id: String,
    pub course_id: String,
    pub student: String,
    pub completion_date: u64,
    pub final_grade: u32,
    pub certificate_hash: String,
    pub is_verified: bool,
    pub skills_acquired: Vec<String>,
}

/// An instructor's profile, created on their first course.
pub struct InstructorProfile {
    pub address: String,
    pub name: String,
    pub bio: String,
    pub expertise: Vec<String>,
    pub experience_years: u32,
    pub rating: u32,
    pub course_count: u64,
    pub total_students: u64,
    pub verification_status: bool,
    pub created_at: u64,
}

/// The mathematical model of the course metadata store.
pub struct CoursesState {
    pub admin: Seq<char>,
    pub courses: Seq<CourseMetadata>,
    pub instructors: Seq<InstructorProfile>,
    pub completions: Seq<CourseCompletion>,
    pub clock: u64,
}

/// The course metadata store.
pub struct CourseMetadataContract {
    admin: String,
    courses: Vec<CourseMetadata>,
    instructors: Vec<InstructorProfile>,
    completions: Vec<CourseCompletion>,
    clock: u64,
}

impl View for CourseMetadataContract {
    type V = CoursesState;

    closed spec fn view(&self) -> CoursesState {
        CoursesState {
            admin: self.admin@,
            courses: self.courses@,
            instructors: self.instructors@,
            completions: self.completions@,
            clock: self.clock,
        }
    }
}

/// The given value when present, the stored one otherwise.
pub open spec fn pick<T>(o: Option<T>, d: T) -> T {
    match o {
        Some(x) => x,
        None => d,
    }
}

/// The rolling byte hash: each byte folds in as `h * 31 + b`, wrapping.
pub open spec fn chain_hash(bytes: Seq<u8>) -> u64
    decreases bytes.len(),
{
    if bytes.len() == 0 {
        0u64
    } else {
        u64_specs::wrapping_add(
            u64_specs::wrapping_mul(chain_hash(bytes.drop_last()), 31),
            bytes.last() as u64,
        )
    }
}

/// The character for one hexadecimal digit, lower case.
pub open spec fn hex_digit(d: int) -> char {
    if d == 0 {
        '0'
    } else if d == 1 {
        '1'
    } else if d == 2 {
        '2'
    } else if d == 3 {
        '3'
    } else if d == 4 {
        '4'
    } else if d == 5 {
        '5'
    } else if d == 6 {
        '6'
    } else if d == 7 {
        '7'
    } else if d == 8 {
        '8'
    } else if d == 9 {
        '9'
    } else if d == 10 {
        'a'
    } else if d == 11 {
        'b'
    } else if d == 12 {
        'c'
    } else if d == 13 {
        'd'
    } else if d == 14 {
        'e'
    } else {
        'f'
    }
}

/// The hexadecimal numeral of `n`, most significant digit first.
pub open spec fn hex_seq(n: nat) -> Seq<char>
    decreases n,
{
    if n < 16 {
        seq![hex_digit(n as int)]
    } else {
        hex_seq(n / 16) + seq![hex_digit((n % 16) as int)]
    }
}

/// The text whose hash fingerprints a course: its title, description,
/// instructor, price and update time, run together.
pub open spec fn course_hash_input(
    title: Seq<char>,
    description: Seq<char>,
    instructor: Seq<char>,
    price: u64,
    ts: u64,
) -> Seq<char> {
    title + description + instructor + dec_seq(price as nat) + dec_seq(ts as nat)
}

/// A course's integrity fingerprint: the rolling hash of the fingerprint
/// text, in hexadecimal.
pub open spec fn course_hash(
    title: Seq<char>,
    description: Seq<char>,
    instructor: Seq<char>,
    price: u64,
    ts: u64,
) -> Seq<char> {
    hex_seq(chain_hash(encode_utf8(course_hash_input(title, description, instructor, price, ts)))
        as nat)
}

/// Some course in `cs` carries the identity `id`.
pub open spec fn has_course(cs: Seq<CourseMetadata>, id: Seq<char>) -> bool {
    exists|i: int| 0 <= i < cs.len() && cs[i].id@ == id
}

/// The position of the course carrying `id`; meaningful when `has_course`.
pub open spec fn course_idx(cs: Seq<CourseMetadata>, id: Seq<char>) -> int {
    choose|i: int| 0 <= i < cs.len() && cs[i].id@ == id
}

/// Some completion in `cs` carries the identity `id`.
pub open spec fn has_completion(cs: Seq<CourseCompletion>, id: Seq<char>) -> bool {
    exists|i: int| 0 <= i < cs.len() && cs[i].id@ == id
}

/// The position of the completion carrying `id`; meaningful when
/// `has_completion`.
pub open spec fn completion_idx(cs: Seq<CourseCompletion>, id: Seq<char>) -> int {
    choose|i: int| 0 <= i < cs.len() && cs[i].id@ == id
}

/// Some instructor profile belongs to `address`.
pub open spec fn has_instructor(is: Seq<InstructorProfile>, address: Seq<char>) -> bool {
    exists|i: int| 0 <= i < is.len() && is[i].address@ == address
}

/// The position of the instructor's profile; meaningful when
/// `has_instructor`.
pub open spec fn instructor_idx(is: Seq<InstructorProfile>, address: Seq<char>) -> int {
    choose|i: int| 0 <= i < is.len() && is[i].address@ == address
}

/// Well-formedness of the course store: positional identities, one profile
/// per instructor, every course taught by a profiled instructor, ratings on
/// the 0 to 100 scale, and counters bounded by the ledgers they count into.
pub open spec fn inv(s: CoursesState) -> bool {
    &&& forall|i: int|
        0 <= i < s.courses.len() ==> (#[trigger] s.courses[i]).id@ == id_seq(
            "course_"@,
            (i + 1) as nat,
        )
    &&& forall|i: int|
        0 <= i < s.completions.len() ==> (#[trigger] s.completions[i]).id@ == id_seq(
            "completion_"@,
            (i + 1) as nat,
        )
    &&& forall|i: int, j: int|
        0 <= i < s.instructors.len() && 0 <= j < s.instructors.len() && i != j ==> (
        #[trigger] s.instructors[i]).address@ != (#[trigger] s.instructors[j]).address@
    &&& forall|i: int|
        0 <= i < s.courses.len() ==> has_instructor(
            s.instructors,
            (#[trigger] s.courses[i]).instructor@,
        )
    &&& forall|i: int| 0 <= i < s.courses.len() ==> (#[trigger] s.courses[i]).rating <= 100
    &&& forall|i: int|
        0 <= i < s.courses.len() ==> (#[trigger] s.courses[i]).current_enrollments
            <= s.completions.len()
    &&& forall|i: int|
        0 <= i < s.instructors.len() ==> (#[trigger] s.instructors[i]).course_count
            <= s.courses.len()
    &&& forall|i: int|
        0 <= i < s.instructors.len() ==> (#[trigger] s.instructors[i]).total_students
            <= s.completions.len()
}

fn hex_digit_str(d: u64) -> (r: &'static str)
    requires
        d < 16,
    ensures
        r@ == seq![hex_digit(d as int)],
{
    if d == 0 {
        proof { reveal_strlit("0"); }
        let r = "0";
        assert(r@ =~= seq![hex_digit(d as int)]);
        r
    } else if d == 1 {
        proof { reveal_strlit("1"); }
        let r = "1";
        assert(r@ =~= seq![hex_digit(d as int)]);
        r
    } else if d == 2 {
        proof { reveal_strlit("2"); }
        let r = "2";
        assert(r@ =~= seq![hex_digit(d as int)]);
        r
    } else if d == 3 {
        proof { reveal_strlit("3"); }
        let r = "3";
        assert(r@ =~= seq![hex_digit(d as int)]);
        r
    } else if d == 4 {
        proof { reveal_strlit("4"); }
        let r = "4";
        assert(r@ =~= seq![hex_digit(d as int)]);
        r
    } else if d == 5 {
        proof { reveal_strlit("5"); }
        let r = "5";
        assert(r@ =~= seq![hex_digit(d as int)]);
        r
    } else if d == 6 {
        proof { reveal_strlit("6"); }
        let r = "6";
        assert(r@ =~= seq![hex_digit(d as int)]);
        r
    } else if d == 7 {
        proof { reveal_strlit("7"); }
        let r = "7";
        assert(r@ =~= seq![hex_digit(d as int)]);
        r
    } else if d == 8 {
        proof { reveal_strlit("8"); }
        let r = "8";
        assert(r@ =~= seq![hex_digit(d as int)]);
        r
    } else if d == 9 {
        proof { reveal_strlit("9"); }
        let r = "9";
        assert(r@ =~= seq![hex_digit(d as int)]);
        r
    } else if d == 10 {
        proof { reveal_strlit("a"); }
        let r = "a";
        assert(r@ =~= seq![hex_digit(d as int)]);
        r
    } else if d == 11 {
        proof { reveal_strlit("b"); }
        let r = "b";
        assert(r@ =~= seq![hex_digit(d as int)]);
        r
    } else if d == 12 {
        proof { reveal_strlit("c"); }
        let r = "c";
        assert(r@ =~= seq![hex_digit(d as int)]);
        r
    } else if d == 13 {
        proof { reveal_strlit("d"); }
        let r = "d";
        assert(r@ =~= seq![hex_digit(d as int)]);
        r
    } else if d == 14 {
        proof { reveal_strlit("e"); }
        let r = "e";
        assert(r@ =~= seq![hex_digit(d as int)]);
        r
    } else {
        proof { reveal_strlit("f"); }
        let r = "f";
        assert(r@ =~= seq![hex_digit(d as int)]);
        r
    }
}

fn push_hex(s: &mut String, n: u64)
    ensures
        final(s)@ == old(s)@ + hex_seq(n as nat),
    decreases n,
{
    let ghost pre = s@;
    if n >= 16 {
        push_hex(s, n / 16);
    }
    let d = hex_digit_str(n % 16);
    s.append(d);
    proof {
        if n < 16 {
            assert(s@ =~= pre + hex_seq(n as nat));
        } else {
            assert((n / 16) as nat == (n as nat) / 16);
            assert((n % 16) as nat == (n as nat) % 16);
            assert(s@ =~= pre + hex_seq(n as nat));
        }
    }
}

fn hash_str(data: &str) -> (r: u64)
    ensures
        r == chain_hash(data.spec_bytes()),
{
    let bytes = data.as_bytes();
    let mut h: u64 = 0;
    let mut i: usize = 0;
    while i < bytes.len()
        invariant
            i <= bytes@.len(),
            bytes@ == data.spec_bytes(),
            h == chain_hash(bytes@.subrange(0, i as int)),
        decreases bytes@.len() - i,
    {
        let b = *slice_index_get(bytes, i);
        h = h.wrapping_mul(31).wrapping_add(b as u64);
        i += 1;
        proof {
            let part = bytes@.subrange(0, i as int);
            assert(part.drop_last() =~= bytes@.subrange(0, i - 1));
            assert(part.last() == bytes@[i - 1]);
        }
    }
    proof {
        assert(bytes@.subrange(0, bytes@.len() as int) =~= bytes@);
    }
    h
}

/// The integrity fingerprint of a piece of text: its rolling byte hash, in
/// hexadecimal.
fn generate_hash(data: &str) -> (r: String)
    ensures
        r@ == hex_seq(chain_hash(data.spec_bytes()) as nat),
{
    let h = hash_str(data);
    let mut s = String::new();
    push_hex(&mut s, h);
    proof {
        assert(s@ =~= hex_seq(h as nat));
    }
    s
}

fn course_hash_text(
    title: &str,
    description: &str,
    instructor: &str,
    price: u64,
    ts: u64,
) -> (r: String)
    ensures
        r@ == course_hash_input(title@, description@, instructor@, price, ts),
{
    let mut s = String::from_str(title);
    s.append(description);
    s.append(instructor);
    push_dec(&mut s, price);
    push_dec(&mut s, ts);
    proof {
        assert(s@ =~= course_hash_input(title@, description@, instructor@, price, ts));
    }
    s
}

fn fingerprint(title: &str, description: &str, instructor: &str, price: u64, ts: u64) -> (r: String)
    ensures
        r@ == course_hash(title@, description@, instructor@, price, ts),
{
    let text = course_hash_text(title, description, instructor, price, ts);
    generate_hash(text.as_str())
}

impl CourseMetadataContract {
    /// The store is well formed.
    pub open spec fn wf(&self) -> bool {
        inv(self@)
    }

    /// Create the course store with its administrator identity and all
    /// counters at zero.
    pub fn initialize(admin: String) -> (r: CourseMetadataContract)
        ensures
            r.wf(),
            r@.admin == admin@,
            r@.courses.len() == 0,
            r@.instructors.len() == 0,
            r@.completions.len() == 0,
            r@.clock == 0,
    {
        CourseMetadataContract {
            admin,
            courses: Vec::new(),
            instructors: Vec::new(),
            completions: Vec::new(),
            clock: 0,
        }
    }

    fn find_course(&self, course_id: &str) -> (r: Option<usize>)
        requires
            self.wf(),
        ensures
            match r {
                Some(i) => {
                    &&& i < self@.courses.len()
                    &&& self@.courses[i as int].id@ == course_id@
                    &&& has_course(self@.courses, course_id@)
                    &&& course_idx(self@.courses, course_id@) == i as int
                },
                None => !has_course(self@.courses, course_id@),
            },
    {
        let mut i: usize = 0;
        while i < self.courses.len()
            invariant
                self.wf(),
                i <= self@.courses.len(),
                forall|j: int| 0 <= j < i ==> (#[trigger] self@.courses[j]).id@ != course_id@,
            decreases self@.courses.len() - i,
        {
            if str_eq(self.courses[i].id.as_str(), course_id) {
                proof {
                    assert(has_course(self@.courses, course_id@));
                    let k = course_idx(self@.courses, course_id@);
                    if k != i as int {
                        crate::ident::lemma_id_seq_injective(
                            "course_"@,
                            (i + 1) as nat,
                            (k + 1) as nat,
                        );
                    }
                }
                return Some(i);
            }
            i += 1;
        }
        None
    }

    fn find_completion(&self, completion_id: &str) -> (r: Option<usize>)
        requires
            self.wf(),
        ensures
            match r {
                Some(i) => {
                    &&& i < self@.completions.len()
                    &&& self@.completions[i as int].id@ == completion_id@
                    &&& has_completion(self@.completions, completion_id@)
                    &&& completion_idx(self@.completions, completion_id@) == i as int
                },
                None => !has_completion(self@.completions, completion_id@),
            },
    {
        let mut i: usize = 0;
        while i < self.completions.len()
            invariant
                self.wf(),
                i <= self@.completions.len(),
                forall|j: int| 0 <= j < i ==> (#[trigger] self@.completions[j]).id@ != completion_id@,
            decreases self@.completions.len() - i,
        {
            if str_eq(self.completions[i].id.as_str(), completion_id) {
                proof {
                    assert(has_completion(self@.completions, completion_id@));
                    let k = completion_idx(self@.completions, completion_id@);
                    if k != i as int {
                        crate::ident::lemma_id_seq_injective(
                            "completion_"@,
                            (i + 1) as nat,
                            (k + 1) as nat,
                        );
                    }
                }
                return Some(i);
            }
            i += 1;
        }
        None
    }

    fn find_instructor(&self, address: &str) -> (r: Option<usize>)
        requires
            self.wf(),
        ensures
            match r {
                Some(i) => {
                    &&& i < self@.instructors.len()
                    &&& self@.instructors[i as int].address@ == address@
                    &&& has_instructor(self@.instructors, address@)
                    &&& instructor_idx(self@.instructors, address@) == i as int
                },
                None => !has_instructor(self@.instructors, address@),
            },
    {
        let mut i: usize = 0;
        while i < self.instructors.len()
            invariant
                self.wf(),
                i <= self@.instructors.len(),
                forall|j: int| 0 <= j < i ==> (#[trigger] self@.instructors[j]).address@ != address@,
            decreases self@.instructors.len() - i,
        {
            if str_eq(self.instructors[i].address.as_str(), address) {
                proof {
                    assert(has_instructor(self@.instructors, address@));
                    let k = instructor_idx(self@.instructors, address@);
                    assert(k == i as int);
                }
                return Some(i);
            }
            i += 1;
        }
        None
    }

    /// Create a course and store its metadata; reports the course identity,
    /// minted from the course counter.
    ///
    /// An instructor without a profile gets a fresh placeholder profile
    /// first; either way the instructor's course count grows by one.  The
    /// course starts `Active`, unrated and unenrolled, stamped with the
    /// store clock and fingerprinted over its title, description,
    /// instructor, price and creation time.
    pub fn create_course(
        &mut self,
        instructor: String,
        title: String,
        description: String,
        category: String,
        level: String,
        duration: u64,
        price: u64,
        prerequisites: Vec<String>,
        learning_objectives: Vec<String>,
        syllabus: String,
        thumbnail_url: String,
        tags: Vec<String>,
        language: String,
        certificate_enabled: bool,
        max_students: u64,
    ) -> (r: String)
        requires
            old(self).wf(),
            old(self)@.courses.len() < usize::MAX,
            old(self)@.instructors.len() < usize::MAX,
        ensures
            final(self).wf(),
            ({
                let pre = old(self)@;
                let post = final(self)@;
                let had = has_instructor(pre.instructors, instructor@);
                let iidx = instructor_idx(pre.instructors, instructor@);
                &&& r@ == id_seq("course_"@, (pre.courses.len() + 1) as nat)
                &&& post.courses == pre.courses.push(post.courses.last())
                &&& ({
                    let c = post.courses.last();
                    &&& c.id@ == r@
                    &&& c.instructor == instructor
                    &&& c.title == title
                    &&& c.description == description
                    &&& c.category == category
                    &&& c.level == level
                    &&& c.duration == duration
                    &&& c.price == price
                    &&& c.prerequisites == prerequisites
                    &&& c.learning_objectives == learning_objectives
                    &&& c.syllabus == syllabus
                    &&& c.thumbnail_url == thumbnail_url
                    &&& c.tags == tags
                    &&& c.language == language
                    &&& c.certificate_enabled == certificate_enabled
                    &&& c.max_students == max_students
                    &&& c.current_enrollments == 0
                    &&& c.rating == 0
                    &&& c.review_count == 0
                    &&& c.status == CourseStatus::Active
                    &&& c.created_at == post.clock
                    &&& c.updated_at == post.clock
                    &&& c.verification_hash@ == course_hash(
                        title@,
                        description@,
                        instructor@,
                        price,
                        post.clock,
                    )
                })
                &&& had ==> post.instructors == pre.instructors.update(
                    iidx,
                    (InstructorProfile {
                        course_count: (pre.instructors[iidx].course_count + 1) as u64,
                        ..pre.instructors[iidx]
                    }),
                )
                &&& !had ==> post.instructors == pre.instructors.push(post.instructors.last()) && ({
                    let p = post.instructors.last();
                    &&& p.address@ == instructor@
                    &&& p.name@ == "Unnamed Instructor"@
                    &&& p.bio@.len() == 0
                    &&& p.expertise@.len() == 0
                    &&& p.experience_years == 0
                    &&& p.rating == 0
                    &&& p.course_count == 1
                    &&& p.total_students == 0
                    &&& !p.verification_status
                    &&& p.created_at == post.clock
                })
                &&& post.completions == pre.completions
                &&& post.admin == pre.admin
                &&& post.clock == bump(pre.clock)
            }),
    {
        let found = self.find_instructor(instructor.as_str());
        self.clock = bump_clock(self.clock);
        let ts = self.clock;
        let iidx: usize = match found {
            Some(i) => i,
            None => {
                let profile = InstructorProfile {
                    address: instructor.clone(),
                    name: String::from_str("Unnamed Instructor"),
                    bio: String::new(),
                    expertise: Vec::new(),
                    experience_years: 0,
                    rating: 0,
                    course_count: 0,
                    total_students: 0,
                    verification_status: false,
                    created_at: ts,
                };
                self.instructors.push(profile);
                self.instructors.len() - 1
            },
        };
        let n = self.courses.len() as u64;
        let course_id = make_id("course_", n + 1);
        let vhash = fingerprint(
            title.as_str(),
            description.as_str(),
            instructor.as_str(),
            price,
            ts,
        );
        let course = CourseMetadata {
            id: course_id.clone(),
            instructor,
            title,
            description,
            category,
            level,
            duration,
            price,
            prerequisites,
            learning_objectives,
            syllabus,
            thumbnail_url,
            tags,
            language,
            certificate_enabled,
            max_students,
            current_enrollments: 0,
            rating: 0,
            review_count: 0,
            status: CourseStatus::Active,
            created_at: ts,
            updated_at: ts,
            verification_hash: vhash,
        };
        self.courses.push(course);
        let cc = self.instructors[iidx].course_count;
        self.instructors[iidx].course_count = cc + 1;
        proof {
            let pre = old(self)@;
            let post = self@;
            if found is Some {
                assert(post.instructors =~= pre.instructors.update(
                    iidx as int,
                    post.instructors[iidx as int],
                ));
            } else {
                assert(post.instructors =~= pre.instructors.push(post.instructors.last()));
            }
            assert forall|i: int| 0 <= i < post.courses.len() implies (#[trigger] post.courses[i]).id@
                == id_seq("course_"@, (i + 1) as nat) by {
                if i < pre.courses.len() {
                    assert(post.courses[i] == pre.courses[i]);
                }
            }
            assert forall|a: int, b: int|
                0 <= a < post.instructors.len() && 0 <= b < post.instructors.len() && a
                    != b implies (#[trigger] post.instructors[a]).address@ != (
            #[trigger] post.instructors[b]).address@ by {
                if a < pre.instructors.len() && b < pre.instructors.len() {
                    assert(post.instructors[a].address@ == pre.instructors[a].address@);
                    assert(post.instructors[b].address@ == pre.instructors[b].address@);
                } else if a < pre.instructors.len() {
                    assert(post.instructors[a].address@ == pre.instructors[a].address@);
                } else if b < pre.instructors.len() {
                    assert(post.instructors[b].address@ == pre.instructors[b].address@);
                }
            }
            assert forall|i: int| 0 <= i < post.courses.len() implies has_instructor(
                post.instructors,
                (#[trigger] post.courses[i]).instructor@,
            ) by {
                if i < pre.courses.len() {
                    let j = instructor_idx(pre.instructors, pre.courses[i].instructor@);
                    assert(post.instructors[j].address@ == post.courses[i].instructor@);
                } else {
                    assert(post.instructors[iidx as int].address@ == post.courses[i].instructor@);
                }
            }
            assert forall|i: int| 0 <= i < post.courses.len() implies (
            #[trigger] post.courses[i]).current_enrollments <= post.completions.len() by {
                if i < pre.courses.len() {
                    assert(post.courses[i] == pre.courses[i]);
                }
            }
            assert forall|i: int| 0 <= i < post.instructors.len() implies (
            #[trigger] post.instructors[i]).course_count <= post.courses.len() by {
                if i != iidx as int && i < pre.instructors.len() {
                    assert(post.instructors[i] == pre.instructors[i]);
                }
            }
            assert forall|i: int| 0 <= i < post.instructors.len() implies (
            #[trigger] post.instructors[i]).total_students <= post.completions.len() by {
                if i != iidx as int && i < pre.instructors.len() {
                    assert(post.instructors[i] == pre.instructors[i]);
                }
            }
            assert forall|i: int| 0 <= i < post.courses.len() implies (
            #[trigger] post.courses[i]).rating <= 100 by {
                if i < pre.courses.len() {
                    assert(post.courses[i] == pre.courses[i]);
                }
            }
            assert forall|i: int| 0 <= i < post.completions.len() implies (
            #[trigger] post.completions[i]).id@ == id_seq("completion_"@, (i + 1) as nat) by {
                assert(post.completions[i] == pre.completions[i]);
            }
            assert(inv(post));
        }
        course_id
    }

    fn pick_val<T>(o: Option<T>, d: T) -> (r: T)
        ensures
            r == pick(o, d),
    {
        match o {
            Some(v) => v,
            None => d,
        }
    }

    #[verifier::rlimit(100)]
    #[verifier::spinoff_prover]
    fn set_course_fields(
        &mut self,
        cidx: usize,
        title: Option<String>,
        description: Option<String>,
        category: Option<String>,
        level: Option<String>,
        duration: Option<u64>,
        price: Option<u64>,
        prerequisites: Option<Vec<String>>,
        learning_objectives: Option<Vec<String>>,
        syllabus: Option<String>,
        thumbnail_url: Option<String>,
        tags: Option<Vec<String>>,
        language: Option<String>,
        certificate_enabled: Option<bool>,
        max_students: Option<u64>,
        status: Option<CourseStatus>,
    )
        requires
            cidx < old(self)@.courses.len(),
        ensures
            ({
                let pre = old(self)@;
                let post = final(self)@;
                let c0 = pre.courses[cidx as int];
                let c1 = post.courses[cidx as int];
                &&& post == (CoursesState { courses: pre.courses.update(cidx as int, c1), ..pre })
                &&& c1.title == pick(title, c0.title)
                &&& c1.description == pick(description, c0.description)
                &&& c1.category == pick(category, c0.category)
                &&& c1.level == pick(level, c0.level)
                &&& c1.duration == pick(duration, c0.duration)
                &&& c1.price == pick(price, c0.price)
                &&& c1.prerequisites == pick(prerequisites, c0.prerequisites)
                &&& c1.learning_objectives == pick(learning_objectives, c0.learning_objectives)
                &&& c1.syllabus == pick(syllabus, c0.syllabus)
                &&& c1.thumbnail_url == pick(thumbnail_url, c0.thumbnail_url)
                &&& c1.tags == pick(tags, c0.tags)
                &&& c1.language == pick(language, c0.language)
                &&& c1.certificate_enabled == pick(certificate_enabled, c0.certificate_enabled)
                &&& c1.max_students == pick(max_students, c0.max_students)
                &&& c1.status == pick(status, c0.status)
                &&& c1.id == c0.id
                &&& c1.instructor == c0.instructor
                &&& c1.current_enrollments == c0.current_enrollments
                &&& c1.rating == c0.rating
                &&& c1.review_count == c0.review_count
                &&& c1.created_at == c0.created_at
                &&& c1.updated_at == c0.updated_at
                &&& c1.verification_hash == c0.verification_hash
            }),
    {
        let c = self.courses.remove(cidx);
        let c1 = CourseMetadata {
            id: c.id,
            instructor: c.instructor,
            title: Self::pick_val(title, c.title),
            description: Self::pick_val(description, c.description),
            category: Self::pick_val(category, c.category),
            level: Self::pick_val(level, c.level),
            duration: Self::pick_val(duration, c.duration),
            price: Self::pick_val(price, c.price),
            prerequisites: Self::pick_val(prerequisites, c.prerequisites),
            learning_objectives: Self::pick_val(learning_objectives, c.learning_objectives),
            syllabus: Self::pick_val(syllabus, c.syllabus),
            thumbnail_url: Self::pick_val(thumbnail_url, c.thumbnail_url),
            tags: Self::pick_val(tags, c.tags),
            language: Self::pick_val(language, c.language),
            certificate_enabled: Self::pick_val(certificate_enabled, c.certificate_enabled),
            max_students: Self::pick_val(max_students, c.max_students),
            current_enrollments: c.current_enrollments,
            rating: c.rating,
            review_count: c.review_count,
            status: Self::pick_val(status, c.status),
            created_at: c.created_at,
            updated_at: c.updated_at,
            verification_hash: c.verification_hash,
        };
        self.courses.insert(cidx, c1);
        proof {
            assert(self@.courses =~= old(self)@.courses.update(
                cidx as int,
                self@.courses[cidx as int],
            ));
        }
    }

    /// Update a course's metadata: each given field replaces the stored one
    /// wholesale, the update time is refreshed, and the integrity
    /// fingerprint is recomputed over the updated fields.
    ///
    /// Fails `NotFound` when the course is unknown and `Unauthorized` when
    /// the caller is not the course's instructor.
    #[verifier::rlimit(100)]
    #[verifier::spinoff_prover]
    pub fn update_course(
        &mut self,
        course_id: &str,
        instructor: &str,
        title: Option<String>,
        description: Option<String>,
        category: Option<String>,
        level: Option<String>,
        duration: Option<u64>,
        price: Option<u64>,
        prerequisites: Option<Vec<String>>,
        learning_objectives: Option<Vec<String>>,
        syllabus: Option<String>,
        thumbnail_url: Option<String>,
        tags: Option<Vec<String>>,
        language: Option<String>,
        certificate_enabled: Option<bool>,
        max_students: Option<u64>,
        status: Option<CourseStatus>,
    ) -> (r: Result<(), OpError>)
        requires
            old(self).wf(),
        ensures
            final(self).wf(),
            !has_course(old(self)@.courses, course_id@) ==> r == Err::<(), OpError>(
                OpError::NotFound,
            ) && final(self)@ == old(self)@,
            ({
                let pre = old(self)@;
                let post = final(self)@;
                let cidx = course_idx(pre.courses, course_id@);
                let c0 = pre.courses[cidx];
                let c1 = post.courses[cidx];
                has_course(pre.courses, course_id@) ==> {
                    &&& c0.instructor@ != instructor@ ==> r == Err::<(), OpError>(
                        OpError::Unauthorized,
                    ) && post == pre
                    &&& c0.instructor@ == instructor@ ==> {
                        &&& r == Ok::<(), OpError>(())
                        &&& post.courses == pre.courses.update(cidx, c1)
                        &&& c1.title == pick(title, c0.title)
                        &&& c1.description == pick(description, c0.description)
                        &&& c1.category == pick(category, c0.category)
                        &&& c1.level == pick(level, c0.level)
                        &&& c1.duration == pick(duration, c0.duration)
                        &&& c1.price == pick(price, c0.price)
                        &&& c1.prerequisites == pick(prerequisites, c0.prerequisites)
                        &&& c1.learning_objectives == pick(
                            learning_objectives,
                            c0.learning_objectives,
                        )
                        &&& c1.syllabus == pick(syllabus, c0.syllabus)
                        &&& c1.thumbnail_url == pick(thumbnail_url, c0.thumbnail_url)
                        &&& c1.tags == pick(tags, c0.tags)
                        &&& c1.language == pick(language, c0.language)
                        &&& c1.certificate_enabled == pick(
                            certificate_enabled,
                            c0.certificate_enabled,
                        )
                        &&& c1.max_students == pick(max_students, c0.max_students)
                        &&& c1.status == pick(status, c0.status)
                        &&& c1.updated_at == post.clock
                        &&& c1.verification_hash@ == course_hash(
                            c1.title@,
                            c1.description@,
                            c1.instructor@,
                            c1.price,
                            post.clock,
                        )
                        &&& c1.id == c0.id
                        &&& c1.instructor == c0.instructor
                        &&& c1.current_enrollments == c0.current_enrollments
                        &&& c1.rating == c0.rating
                        &&& c1.review_count == c0.review_count
                        &&& c1.created_at == c0.created_at
                        &&& post.instructors == pre.instructors
                        &&& post.completions == pre.completions
                        &&& post.admin == pre.admin
                        &&& post.clock == bump(pre.clock)
                    }
                }
            }),
    {
        let cidx = match self.find_course(course_id) {
            None => {
                return Err(OpError::NotFound);
            },
            Some(i) => i,
        };
        if !str_eq(self.courses[cidx].instructor.as_str(), instructor) {
            return Err(OpError::Unauthorized);
        }
        self.clock = bump_clock(self.clock);
        let ts = self.clock;
        self.set_course_fields(
            cidx,
            title,
            description,
            category,
            level,
            duration,
            price,
            prerequisites,
            learning_objectives,
            syllabus,
            thumbnail_url,
            tags,
            language,
            certificate_enabled,
            max_students,
            status,
        );
        self.courses[cidx].updated_at = ts;
        let vhash = fingerprint(
            self.courses[cidx].title.as_str(),
            self.courses[cidx].description.as_str(),
            self.courses[cidx].instructor.as_str(),
            self.courses[cidx].price,
            ts,
        );
        self.courses[cidx].verification_hash = vhash;
        proof {
            let pre = old(self)@;
            let post = self@;
            assert(post.courses =~= pre.courses.update(cidx as int, post.courses[cidx as int]));
            assert forall|i: int| 0 <= i < post.courses.len() implies (#[trigger] post.courses[i]).id@
                == id_seq("course_"@, (i + 1) as nat) by {
                if i != cidx as int {
                    assert(post.courses[i] == pre.courses[i]);
                }
            }
            assert forall|i: int| 0 <= i < post.courses.len() implies has_instructor(
                post.instructors,
                (#[trigger] post.courses[i]).instructor@,
            ) by {
                let j = instructor_idx(pre.instructors, pre.courses[i].instructor@);
                assert(post.courses[i].instructor@ == pre.courses[i].instructor@);
                assert(post.instructors[j].address@ == post.courses[i].instructor@);
            }
            assert forall|i: int| 0 <= i < post.courses.len() implies (
            #[trigger] post.courses[i]).rating <= 100 by {
                if i != cidx as int {
                    assert(post.courses[i] == pre.courses[i]);
                } else {
                    assert(post.courses[i].rating == pre.courses[i].rating);
                }
            }
            assert forall|i: int| 0 <= i < post.courses.len() implies (
            #[trigger] post.courses[i]).current_enrollments <= post.completions.len() by {
                if i != cidx as int {
                    assert(post.courses[i] == pre.courses[i]);
                } else {
                    assert(post.courses[i].current_enrollments
                        == pre.courses[i].current_enrollments);
                }
            }
        }
        Ok(())
    }

    /// Check a course against its integrity fingerprint: recompute the
    /// fingerprint over the stored fields and report whether it matches the
    /// stored one.  Fails `NotFound` exactly when the course is unknown.
    pub fn verify_course(&self, course_id: &str) -> (r: Result<bool, OpError>)
        requires
            self.wf(),
        ensures
            match r {
                Ok(b) => {
                    let c = self@.courses[course_idx(self@.courses, course_id@)];
                    has_course(self@.courses, course_id@) && b == (c.verification_hash@
                        == course_hash(
                        c.title@,
                        c.description@,
                        c.instructor@,
                        c.price,
                        c.updated_at,
                    ))
                },
                Err(e) => e == OpError::NotFound && !has_course(self@.courses, course_id@),
            },
    {
        let cidx = match self.find_course(course_id) {
            None => {
                return Err(OpError::NotFound);
            },
            Some(i) => i,
        };
        let expected = fingerprint(
            self.courses[cidx].title.as_str(),
            self.courses[cidx].description.as_str(),
            self.courses[cidx].instructor.as_str(),
            self.courses[cidx].price,
            self.courses[cidx].updated_at,
        );
        Ok(str_eq(expected.as_str(), self.courses[cidx].verification_hash.as_str()))
    }

    /// Record that a student completed a course; reports the completion
    /// identity, minted from the completion counter.
    ///
    /// Fails `NotFound` exactly when the course is unknown.  The completion
    /// starts unverified; the course's enrollment counter and its
    /// instructor's student counter each grow by one.
    pub fn record_completion(
        &mut self,
        course_id: &str,
        student: String,
        final_grade: u32,
        certificate_hash: String,
        skills_acquired: Vec<String>,
    ) -> (r: Result<String, OpError>)
        requires
            old(self).wf(),
            old(self)@.completions.len() < usize::MAX,
        ensures
            final(self).wf(),
            !has_course(old(self)@.courses, course_id@) ==> r == Err::<String, OpError>(
                OpError::NotFound,
            ) && final(self)@ == old(self)@,
            ({
                let pre = old(self)@;
                let post = final(self)@;
                let cidx = course_idx(pre.courses, course_id@);
                let c0 = pre.courses[cidx];
                let iidx = instructor_idx(pre.instructors, c0.instructor@);
                has_course(pre.courses, course_id@) ==> match r {
                    Ok(id) => {
                        &&& id@ == id_seq("completion_"@, (pre.completions.len() + 1) as nat)
                        &&& post.completions == pre.completions.push(post.completions.last())
                        &&& ({
                            let cm = post.completions.last();
                            &&& cm.id@ == id@
                            &&& cm.course_id@ == course_id@
                            &&& cm.student == student
                            &&& cm.completion_date == post.clock
                            &&& cm.final_grade == final_grade
                            &&& cm.certificate_hash == certificate_hash
                            &&& !cm.is_verified
                            &&& cm.skills_acquired == skills_acquired
                        })
                        &&& post.courses == pre.courses.update(
                            cidx,
                            (CourseMetadata {
                                current_enrollments: (c0.current_enrollments + 1) as u64,
                                ..c0
                            }),
                        )
                        &&& post.instructors == pre.instructors.update(
                            iidx,
                            (InstructorProfile {
                                total_students: (pre.instructors[iidx].total_students + 1) as u64,
                                ..pre.instructors[iidx]
                            }),
                        )
                        &&& post.admin == pre.admin
                        &&& post.clock == bump(pre.clock)
                    },
                    Err(_) => false,
                }
            }),
    {
        let cidx = match self.find_course(course_id) {
            None => {
                return Err(OpError::NotFound);
            },
            Some(i) => i,
        };
        let instr = self.courses[cidx].instructor.clone();
        proof {
            assert(has_instructor(self@.instructors, self@.courses[cidx as int].instructor@));
        }
        let iidx = match self.find_instructor(instr.as_str()) {
            Some(i) => i,
            None => {
                proof {
                    assert(false);
                }
                return Err(OpError::NotFound);
            },
        };
        self.clock = bump_clock(self.clock);
        let ts = self.clock;
        let n = self.completions.len() as u64;
        let completion_id = make_id("completion_", n + 1);
        let completion = CourseCompletion {
            id: completion_id.clone(),
            course_id: String::from_str(course_id),
            student,
            completion_date: ts,
            final_grade,
            certificate_hash,
            is_verified: false,
            skills_acquired,
        };
        self.completions.push(completion);
        let ce = self.courses[cidx].current_enrollments;
        self.courses[cidx].current_enrollments = ce + 1;
        let tsd = self.instructors[iidx].total_students;
        self.instructors[iidx].total_students = tsd + 1;
        proof {
            let pre = old(self)@;
            let post = self@;
            assert(post.courses =~= pre.courses.update(
                cidx as int,
                (CourseMetadata {
                    current_enrollments: (pre.courses[cidx as int].current_enrollments + 1) as u64,
                    ..pre.courses[cidx as int]
                }),
            ));
            assert(post.instructors =~= pre.instructors.update(
                iidx as int,
                (InstructorProfile {
                    total_students: (pre.instructors[iidx as int].total_students + 1) as u64,
                    ..pre.instructors[iidx as int]
                }),
            ));
            assert forall|i: int| 0 <= i < post.courses.len() implies (#[trigger] post.courses[i]).id@
                == id_seq("course_"@, (i + 1) as nat) by {
                if i != cidx as int {
                    assert(post.courses[i] == pre.courses[i]);
                }
            }
            assert forall|i: int| 0 <= i < post.completions.len() implies (
            #[trigger] post.completions[i]).id@ == id_seq("completion_"@, (i + 1) as nat) by {
                if i < pre.completions.len() {
                    assert(post.completions[i] == pre.completions[i]);
                }
            }
            assert forall|a: int, b: int|
                0 <= a < post.instructors.len() && 0 <= b < post.instructors.len() && a
                    != b implies (#[trigger] post.instructors[a]).address@ != (
            #[trigger] post.instructors[b]).address@ by {
                assert(post.instructors[a].address@ == pre.instructors[a].address@);
                assert(post.instructors[b].address@ == pre.instructors[b].address@);
            }
            assert forall|i: int| 0 <= i < post.courses.len() implies has_instructor(
                post.instructors,
                (#[trigger] post.courses[i]).instructor@,
            ) by {
                let j = instructor_idx(pre.instructors, pre.courses[i].instructor@);
                assert(post.courses[i].instructor@ == pre.courses[i].instructor@);
                assert(post.instructors[j].address@ == post.courses[i].instructor@);
            }
            assert forall|i: int| 0 <= i < post.courses.len() implies (
            #[trigger] post.courses[i]).rating <= 100 by {
                if i != cidx as int {
                    assert(post.courses[i] == pre.courses[i]);
                } else {
                    assert(post.courses[i].rating == pre.courses[i].rating);
                }
            }
            assert forall|i: int| 0 <= i < post.courses.len() implies (
            #[trigger] post.courses[i]).current_enrollments <= post.completions.len() by {
                if i != cidx as int {
                    assert(post.courses[i] == pre.courses[i]);
                }
            }
            assert forall|i: int| 0 <= i < post.instructors.len() implies (
            #[trigger] post.instructors[i]).course_count <= post.courses.len() by {
                if i != iidx as int {
                    assert(post.instructors[i] == pre.instructors[i]);
                } else {
                    assert(post.instructors[i].course_count == pre.instructors[i].course_count);
                }
            }
            assert forall|i: int| 0 <= i < post.instructors.len() implies (
            #[trigger] post.instructors[i]).total_students <= post.completions.len() by {
                if i != iidx as int {
                    assert(post.instructors[i] == pre.instructors[i]);
                }
            }
        }
        Ok(completion_id)
    }

    /// Mark a completion verified.  Fails `NotFound` exactly when the
    /// identity is unknown.
    pub fn verify_completion(&mut self, completion_id: &str) -> (r: Result<(), OpError>)
        requires
            old(self).wf(),
        ensures
            final(self).wf(),
            !has_completion(old(self)@.completions, completion_id@) ==> r == Err::<(), OpError>(
                OpError::NotFound,
            ) && final(self)@ == old(self)@,
            ({
                let pre = old(self)@;
                let post = final(self)@;
                let cidx = completion_idx(pre.completions, completion_id@);
                has_completion(pre.completions, completion_id@) ==> {
                    &&& r == Ok::<(), OpError>(())
                    &&& post.completions == pre.completions.update(
                        cidx,
                        (CourseCompletion { is_verified: true, ..pre.completions[cidx] }),
                    )
                    &&& post.courses == pre.courses
                    &&& post.instructors == pre.instructors
                    &&& post.admin == pre.admin
                    &&& post.clock == pre.clock
                }
            }),
    {
        let cidx = match self.find_completion(completion_id) {
            None => {
                return Err(OpError::NotFound);
            },
            Some(i) => i,
        };
        self.completions[cidx].is_verified = true;
        proof {
            let pre = old(self)@;
            let post = self@;
            assert(post.completions =~= pre.completions.update(
                cidx as int,
                (CourseCompletion { is_verified: true, ..pre.completions[cidx as int] }),
            ));
            assert forall|i: int| 0 <= i < post.completions.len() implies (
            #[trigger] post.completions[i]).id@ == id_seq("completion_"@, (i + 1) as nat) by {
                if i != cidx as int {
                    assert(post.completions[i] == pre.completions[i]);
                }
            }
            assert(post.completions.len() == pre.completions.len());
            assert(post.courses == pre.courses);
            assert(post.instructors == pre.instructors);
            assert forall|i: int| 0 <= i < post.courses.len() implies (
            #[trigger] post.courses[i]).current_enrollments <= post.completions.len() by {
                assert(post.courses[i] == pre.courses[i]);
            }
            assert forall|i: int| 0 <= i < post.instructors.len() implies (
            #[trigger] post.instructors[i]).total_students <= post.completions.len() by {
                assert(post.instructors[i] == pre.instructors[i]);
            }
            assert(inv(post));
        }
        Ok(())
    }

    /// Fold one rating into a course's running average, on the 0 to 100
    /// scale, and advance its review counter.
    ///
    /// Fails `ValidationError` when the rating is above the scale and
    /// `NotFound` when the course is unknown.  The rating average stays on
    /// the scale.
    pub fn rate_course(&mut self, course_id: &str, _rater: &str, rating: u32) -> (r: Result<
        (),
        OpError,
    >)
        requires
            old(self).wf(),
            has_course(old(self)@.courses, course_id@) ==> old(self)@.courses[course_idx(
                old(self)@.courses,
                course_id@,
            )].review_count < u64::MAX,
        ensures
            final(self).wf(),
            rating > 100 ==> r == Err::<(), OpError>(OpError::ValidationError) && final(self)@
                == old(self)@,
            rating <= 100 && !has_course(old(self)@.courses, course_id@) ==> r == Err::<
                (),
                OpError,
            >(OpError::NotFound) && final(self)@ == old(self)@,
            ({
                let pre = old(self)@;
                let post = final(self)@;
                let cidx = course_idx(pre.courses, course_id@);
                let c0 = pre.courses[cidx];
                let c1 = post.courses[cidx];
                rating <= 100 && has_course(pre.courses, course_id@) ==> {
                    &&& r == Ok::<(), OpError>(())
                    &&& post.courses == pre.courses.update(cidx, c1)
                    &&& c1.review_count == c0.review_count + 1
                    &&& c1.rating as int == (c0.rating * c0.review_count + rating) / (
                    c0.review_count + 1)
                    &&& c1.rating <= 100
                    &&& c1.id == c0.id
                    &&& c1.instructor == c0.instructor
                    &&& c1.title == c0.title
                    &&& c1.description == c0.description
                    &&& c1.price == c0.price
                    &&& c1.status == c0.status
                    &&& c1.updated_at == c0.updated_at
                    &&& c1.verification_hash == c0.verification_hash
                    &&& c1.current_enrollments == c0.current_enrollments
                    &&& post.instructors == pre.instructors
                    &&& post.completions == pre.completions
                    &&& post.admin == pre.admin
                    &&& post.clock == pre.clock
                }
            }),
    {
        if rating > 100 {
            return Err(OpError::ValidationError);
        }
        let cidx = match self.find_course(course_id) {
            None => {
                return Err(OpError::NotFound);
            },
            Some(i) => i,
        };
        let r0 = self.courses[cidx].rating;
        let rc = self.courses[cidx].review_count;
        proof {
            assert((r0 as int) * (rc as int) <= 100 * (rc as int)) by (nonlinear_arith)
                requires
                    r0 <= 100,
                    rc >= 0,
            ;
        }
        let num: u128 = (r0 as u128) * (rc as u128) + (rating as u128);
        let avg: u128 = num / ((rc as u128) + 1);
        proof {
            vstd::arithmetic::div_mod::lemma_div_is_ordered(
                num as int,
                100 * ((rc as int) + 1),
                (rc as int) + 1,
            );
            vstd::arithmetic::div_mod::lemma_div_multiples_vanish(100, (rc as int) + 1);
            assert(avg <= 100);
        }
        let new_rating = avg as u32;
        self.courses[cidx].review_count = rc + 1;
        self.courses[cidx].rating = new_rating;
        proof {
            let pre = old(self)@;
            let post = self@;
            assert(post.courses =~= pre.courses.update(cidx as int, post.courses[cidx as int]));
            assert forall|i: int| 0 <= i < post.courses.len() implies (#[trigger] post.courses[i]).id@
                == id_seq("course_"@, (i + 1) as nat) by {
                if i != cidx as int {
                    assert(post.courses[i] == pre.courses[i]);
                }
            }
            assert forall|i: int| 0 <= i < post.courses.len() implies has_instructor(
                post.instructors,
                (#[trigger] post.courses[i]).instructor@,
            ) by {
                let j = instructor_idx(pre.instructors, pre.courses[i].instructor@);
                assert(post.courses[i].instructor@ == pre.courses[i].instructor@);
                assert(post.instructors[j].address@ == post.courses[i].instructor@);
            }
            assert forall|i: int| 0 <= i < post.courses.len() implies (
            #[trigger] post.courses[i]).rating <= 100 by {
                if i != cidx as int {
                    assert(post.courses[i] == pre.courses[i]);
                }
            }
            assert forall|i: int| 0 <= i < post.courses.len() implies (
            #[trigger] post.courses[i]).current_enrollments <= post.completions.len() by {
                if i != cidx as int {
                    assert(post.courses[i] == pre.courses[i]);
                } else {
                    assert(post.courses[i].current_enrollments
                        == pre.courses[i].current_enrollments);
                }
            }
            assert(inv(post));
        }
        Ok(())
    }

    /// Look up a course; fails `NotFound` exactly when the identity is
    /// unknown.
    pub fn get_course(&self, course_id: &str) -> (r: Result<&CourseMetadata, OpError>)
        requires
            self.wf(),
        ensures
            match r {
                Ok(c) => has_course(self@.courses, course_id@) && *c == self@.courses[course_idx(
                    self@.courses,
                    course_id@,
                )],
                Err(e) => e == OpError::NotFound && !has_course(self@.courses, course_id@),
            },
    {
        match self.find_course(course_id) {
            Some(i) => Ok(&self.courses[i]),
            None => Err(OpError::NotFound),
        }
    }

    /// Look up a completion record; fails `NotFound` exactly when the
    /// identity is unknown.
    pub fn get_completion(&self, completion_id: &str) -> (r: Result<&CourseCompletion, OpError>)
        requires
            self.wf(),
        ensures
            match r {
                Ok(c) => has_completion(self@.completions, completion_id@) && *c
                    == self@.completions[completion_idx(self@.completions, completion_id@)],
                Err(e) => e == OpError::NotFound && !has_completion(
                    self@.completions,
                    completion_id@,
                ),
            },
    {
        match self.find_completion(completion_id) {
            Some(i) => Ok(&self.completions[i]),
            None => Err(OpError::NotFound),
        }
    }

    /// Look up an instructor profile; fails `NotFound` exactly when the
    /// instructor has none.
    pub fn get_instructor_profile(&self, instructor: &str) -> (r: Result<
        &InstructorProfile,
        OpError,
    >)
        requires
            self.wf(),
        ensures
            match r {
                Ok(p) => has_instructor(self@.instructors, instructor@) && *p
                    == self@.instructors[instructor_idx(self@.instructors, instructor@)],
                Err(e) => e == OpError::NotFound && !has_instructor(
                    self@.instructors,
                    instructor@,
                ),
            },
    {
        match self.find_instructor(instructor) {
            Some(i) => Ok(&self.instructors[i]),
            None => Err(OpError::NotFound),
        }
    }

    /// The total number of created courses.
    pub fn get_course_count(&self) -> (r: u64)
        ensures
            r as nat == self@.courses.len(),
    {
        self.courses.len() as u64
    }

    /// The total number of recorded completions.
    pub fn get_completion_count(&self) -> (r: u64)
        ensures
            r as nat == self@.completions.len(),
    {
        self.completions.len() as u64
    }

    /// Per-student completions are not indexed by this store; the query is
    /// answered with the empty sequence, whatever the student.
    pub fn get_student_completions(&self, _student: &str) -> (r: Vec<String>)
        ensures
            r@.len() == 0,
    {
        Vec::new()
    }

    /// Per-instructor courses are not indexed by this store; the query is
    /// answered with the empty sequence, whatever the instructor.
    pub fn get_instructor_courses(&self, _instructor: &str) -> (r: Vec<String>)
        ensures
            r@.len() == 0,
    {
        Vec::new()
    }
}

} // verus!
