//! Credential issuance: admin-issued course credentials and courses.
//!
//! Credentials are numbered sequentially and never deleted; verification
//! sets a flag once and is open to any caller.

use vstd::prelude::*;
use vstd::string::*;
use crate::clock::{bump, bump_clock};
use crate::errors::OpError;
use crate::ident::{id_seq, make_id, str_eq};

verus! {

/// A credential issued to a recipient for a course.
pub struct Credential {
    pub id: u64,
    pub issuer: String,
    pub recipient: String,
    pub title: String,
    pub description: String,
    pub course_id: String,
    pub completion_date: u64,
    pub ipfs_hash: String,
    pub is_verified: bool,
}

/// A course offered on the platform.
pub struct Course {
    pub id: String,
    pub instructor: String,
    pub title: String,
    pub description: String,
    pub price: u64,
    pub is_active: bool,
}

/// A user profile as this store reports it.  No profile is ever recorded
/// here, so lookups always report the fresh default.
pub struct Profile {
    pub owner: String,
    pub credentials: Vec<u64>,
    pub achievements: Vec<u64>,
    pub reputation: u64,
}

/// The mathematical model of the credential store.
pub struct CredentialsState {
    pub admin: Seq<char>,
    pub credentials: Seq<Credential>,
    pub courses: Seq<Course>,
    pub clock: u64,
}

/// The credential store: the administrator identity, the issued
/// credentials, and the created courses.
pub struct StarkEdContract {
    admin: String,
    credentials: Vec<Credential>,
    courses: Vec<Course>,
    clock: u64,
}

impl View for StarkEdContract {
    type V = CredentialsState;

    closed spec fn view(&self) -> CredentialsState {
        CredentialsState {
            admin: self.admin@,
            credentials: self.credentials@,
            courses: self.courses@,
            clock: self.clock,
        }
    }
}

/// Well-formedness: credentials are numbered positionally from one.
pub open spec fn inv(s: CredentialsState) -> bool {
    forall|i: int|
        0 <= i < s.credentials.len() ==> (#[trigger] s.credentials[i]).id == i + 1
}

impl StarkEdContract {
    /// The store is well formed.
    pub open spec fn wf(&self) -> bool {
        inv(self@)
    }

    /// Create the credential store with its administrator identity.
    pub fn initialize(admin: String) -> (r: StarkEdContract)
        ensures
            r.wf(),
            r@.admin == admin@,
            r@.credentials.len() == 0,
            r@.courses.len() == 0,
            r@.clock == 0,
    {
        StarkEdContract { admin, credentials: Vec::new(), courses: Vec::new(), clock: 0 }
    }

    /// Issue a new credential, numbered from the credential counter.
    ///
    /// Fails `Unauthorized` exactly when the issuer is not the
    /// administrator.  The credential starts unverified and is stamped with
    /// the store clock.
    pub fn issue_credential(
        &mut self,
        issuer: String,
        recipient: String,
        title: String,
        description: String,
        course_id: String,
        ipfs_hash: String,
    ) -> (r: Result<u64, OpError>)
        requires
            old(self).wf(),
            old(self)@.credentials.len() < usize::MAX,
        ensures
            final(self).wf(),
            issuer@ != old(self)@.admin ==> r == Err::<u64, OpError>(OpError::Unauthorized)
                && final(self)@ == old(self)@,
            issuer@ == old(self)@.admin ==> {
                &&& r == Ok::<u64, OpError>((old(self)@.credentials.len() + 1) as u64)
                &&& final(self)@.credentials == old(self)@.credentials.push(
                    (Credential {
                        id: (old(self)@.credentials.len() + 1) as u64,
                        issuer,
                        recipient,
                        title,
                        description,
                        course_id,
                        completion_date: final(self)@.clock,
                        ipfs_hash,
                        is_verified: false,
                    }),
                )
                &&& final(self)@.courses == old(self)@.courses
                &&& final(self)@.admin == old(self)@.admin
                &&& final(self)@.clock == bump(old(self)@.clock)
            },
    {
        if !str_eq(issuer.as_str(), self.admin.as_str()) {
            return Err(OpError::Unauthorized);
        }
        self.clock = bump_clock(self.clock);
        let credential_id = self.credentials.len() as u64 + 1;
        let credential = Credential {
            id: credential_id,
            issuer,
            recipient,
            title,
            description,
            course_id,
            completion_date: self.clock,
            ipfs_hash,
            is_verified: false,
        };
        self.credentials.push(credential);
        Ok(credential_id)
    }

    /// Mark a credential verified.  Any caller may verify; fails `NotFound`
    /// exactly when the credential number was never issued.
    pub fn verify_credential(&mut self, credential_id: u64) -> (r: Result<(), OpError>)
        requires
            old(self).wf(),
        ensures
            final(self).wf(),
            !(1 <= credential_id <= old(self)@.credentials.len()) ==> r == Err::<(), OpError>(
                OpError::NotFound,
            ) && final(self)@ == old(self)@,
            1 <= credential_id <= old(self)@.credentials.len() ==> {
                &&& r == Ok::<(), OpError>(())
                &&& final(self)@.credentials == old(self)@.credentials.update(
                    credential_id - 1,
                    (Credential {
                        is_verified: true,
                        ..old(self)@.credentials[credential_id - 1]
                    }),
                )
                &&& final(self)@.courses == old(self)@.courses
                &&& final(self)@.admin == old(self)@.admin
                &&& final(self)@.clock == old(self)@.clock
            },
    {
        if credential_id == 0 || credential_id > self.credentials.len() as u64 {
            return Err(OpError::NotFound);
        }
        let i = (credential_id - 1) as usize;
        self.credentials[i].is_verified = true;
        proof {
            assert(self@.credentials =~= old(self)@.credentials.update(
                credential_id - 1,
                (Credential { is_verified: true, ..old(self)@.credentials[credential_id - 1] }),
            ));
        }
        Ok(())
    }

    /// Look up a credential by number; fails `NotFound` exactly when it was
    /// never issued.
    pub fn get_credential(&self, credential_id: u64) -> (r: Result<&Credential, OpError>)
        requires
            self.wf(),
        ensures
            match r {
                Ok(c) => 1 <= credential_id <= self@.credentials.len() && *c
                    == self@.credentials[credential_id - 1],
                Err(e) => e == OpError::NotFound && !(1 <= credential_id
                    <= self@.credentials.len()),
            },
    {
        if credential_id == 0 || credential_id > self.credentials.len() as u64 {
            return Err(OpError::NotFound);
        }
        Ok(&self.credentials[(credential_id - 1) as usize])
    }

    /// Create a new course, named by the clock value at creation.
    ///
    /// Fails `Unauthorized` exactly when the instructor is not the
    /// administrator.
    pub fn create_course(
        &mut self,
        instructor: String,
        title: String,
        description: String,
        price: u64,
    ) -> (r: Result<String, OpError>)
        requires
            old(self).wf(),
        ensures
            final(self).wf(),
            instructor@ != old(self)@.admin ==> r == Err::<String, OpError>(OpError::Unauthorized)
                && final(self)@ == old(self)@,
            instructor@ == old(self)@.admin ==> match r {
                Ok(id) => {
                    &&& id@ == id_seq("course_"@, final(self)@.clock as nat)
                    &&& final(self)@.courses == old(self)@.courses.push(
                        (Course {
                            id: final(self)@.courses.last().id,
                            instructor,
                            title,
                            description,
                            price,
                            is_active: true,
                        }),
                    )
                    &&& final(self)@.courses.last().id@ == id@
                    &&& final(self)@.credentials == old(self)@.credentials
                    &&& final(self)@.admin == old(self)@.admin
                    &&& final(self)@.clock == bump(old(self)@.clock)
                },
                Err(_) => false,
            },
    {
        if !str_eq(instructor.as_str(), self.admin.as_str()) {
            return Err(OpError::Unauthorized);
        }
        self.clock = bump_clock(self.clock);
        let course_id = make_id("course_", self.clock);
        let course = Course {
            id: course_id.clone(),
            instructor,
            title,
            description,
            price,
            is_active: true,
        };
        self.courses.push(course);
        proof {
            assert(self@.credentials == old(self)@.credentials);
            assert(inv(self@));
        }
        Ok(course_id)
    }

    /// The profile this store reports for a user: no profile is ever
    /// recorded here, so the result is always the fresh default, owned by
    /// the user, with no credentials, no achievements, and zero reputation.
    pub fn get_profile(&self, user: &str) -> (r: Profile)
        ensures
            r.owner@ == user@,
            r.credentials@.len() == 0,
            r.achievements@.len() == 0,
            r.reputation == 0,
    {
        Profile {
            owner: String::from_str(user),
            credentials: Vec::new(),
            achievements: Vec::new(),
            reputation: 0,
        }
    }

    /// The total number of issued credentials.
    pub fn get_credential_count(&self) -> (r: u64)
        ensures
            r as nat == self@.credentials.len(),
    {
        self.credentials.len() as u64
    }
}

} // verus!
