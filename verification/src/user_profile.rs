//! User profiles and achievements.
//!
//! A profile is keyed by its owner.  Usernames are claimed first-come: once
//! a username has been used by one owner it can never be taken by another,
//! even after the first owner moves to a new username.  Achievements are
//! numbered sequentially and attach to a profile.

use vstd::prelude::*;
use crate::clock::{bump, bump_clock};
use crate::errors::OpError;
use crate::ident::str_eq;

verus! {

/// Who may read a profile besides its owner.
#[derive(Clone, Copy, Debug, PartialEq, Eq, Structural)]
pub enum PrivacyLevel {
    Public,
    Private,
    FriendsOnly,
}

/// A user's profile.
pub struct UserProfile {
    pub owner: String,
    pub username: String,
    pub email: Option<String>,
    pub bio: Option<String>,
    pub avatar_url: Option<String>,
    pub created_at: u64,
    pub updated_at: u64,
    pub achievements: Vec<u64>,
    pub privacy_level: PrivacyLevel,
}

impl Clone for UserProfile {
    fn clone(&self) -> (res: Self)
        ensures
            res.owner == self.owner,
            res.username == self.username,
            res.email == self.email,
            res.bio == self.bio,
            res.avatar_url == self.avatar_url,
            res.created_at == self.created_at,
            res.updated_at == self.updated_at,
            res.achievements@ == self.achievements@,
            res.privacy_level == self.privacy_level,
    {
        let mut achievements: Vec<u64> = Vec::new();
        let mut i: usize = 0;
        while i < self.achievements.len()
            invariant
                i <= self.achievements@.len(),
                achievements@ == self.achievements@.subrange(0, i as int),
            decreases self.achievements@.len() - i,
        {
            achievements.push(self.achievements[i]);
            i += 1;
            proof {
                assert(achievements@ =~= self.achievements@.subrange(0, i as int));
            }
        }
        proof {
            assert(self.achievements@.subrange(0, self.achievements@.len() as int)
                =~= self.achievements@);
        }
        UserProfile {
            owner: self.owner.clone(),
            username: self.username.clone(),
            email: match &self.email {
                Some(s) => Some(s.clone()),
                None => None,
            },
            bio: match &self.bio {
                Some(s) => Some(s.clone()),
                None => None,
            },
            avatar_url: match &self.avatar_url {
                Some(s) => Some(s.clone()),
                None => None,
            },
            created_at: self.created_at,
            updated_at: self.updated_at,
            achievements,
            privacy_level: self.privacy_level,
        }
    }
}

/// An achievement earned by a user.
pub struct Achievement {
    pub id: u64,
    pub user: String,
    pub title: String,
    pub description: String,
    pub earned_at: u64,
    pub badge_url: Option<String>,
    pub verified: bool,
}

impl Clone for Achievement {
    fn clone(&self) -> (res: Self)
        ensures
            res == *self,
    {
        Achievement {
            id: self.id,
            user: self.user.clone(),
            title: self.title.clone(),
            description: self.description.clone(),
            earned_at: self.earned_at,
            badge_url: match &self.badge_url {
                Some(s) => Some(s.clone()),
                None => None,
            },
            verified: self.verified,
        }
    }
}

struct UsernameClaim {
    username: String,
    owner: String,
}

/// The mathematical model of the profile store.  A claim is a pair of a
/// username and the owner it is reserved for.
pub struct ProfilesState {
    pub profiles: Seq<UserProfile>,
    pub achievements: Seq<Achievement>,
    pub claims: Seq<(Seq<char>, Seq<char>)>,
    pub clock: u64,
}

/// The profile store: profiles, their achievements, and the username
/// claims.
pub struct UserProfileContract {
    profiles: Vec<UserProfile>,
    achievements: Vec<Achievement>,
    claims: Vec<UsernameClaim>,
    clock: u64,
}

impl View for UserProfileContract {
    type V = ProfilesState;

    closed spec fn view(&self) -> ProfilesState {
        ProfilesState {
            profiles: self.profiles@,
            achievements: self.achievements@,
            claims: self.claims@.map_values(|c: UsernameClaim| (c.username@, c.owner@)),
            clock: self.clock,
        }
    }
}

/// Some profile belongs to `owner`.
pub open spec fn has_profile(ps: Seq<UserProfile>, owner: Seq<char>) -> bool {
    exists|i: int| 0 <= i < ps.len() && ps[i].owner@ == owner
}

/// The position of `owner`'s profile; meaningful when `has_profile`.
pub open spec fn profile_idx(ps: Seq<UserProfile>, owner: Seq<char>) -> int {
    choose|i: int| 0 <= i < ps.len() && ps[i].owner@ == owner
}

/// Some claim reserves `username`.
pub open spec fn has_claim(cs: Seq<(Seq<char>, Seq<char>)>, username: Seq<char>) -> bool {
    exists|i: int| 0 <= i < cs.len() && cs[i].0 == username
}

/// The position of the claim on `username`; meaningful when `has_claim`.
pub open spec fn claim_idx(cs: Seq<(Seq<char>, Seq<char>)>, username: Seq<char>) -> int {
    choose|i: int| 0 <= i < cs.len() && cs[i].0 == username
}

/// The owner a username is reserved for; meaningful when `has_claim`.
pub open spec fn claim_owner(cs: Seq<(Seq<char>, Seq<char>)>, username: Seq<char>) -> Seq<char> {
    cs[claim_idx(cs, username)].1
}

/// Well-formedness: one profile per owner, one claim per username, and
/// achievements numbered positionally from one.
pub open spec fn inv(s: ProfilesState) -> bool {
    &&& forall|i: int, j: int|
        0 <= i < s.profiles.len() && 0 <= j < s.profiles.len() && i != j ==> (
        #[trigger] s.profiles[i]).owner@ != (#[trigger] s.profiles[j]).owner@
    &&& forall|i: int, j: int|
        0 <= i < s.claims.len() && 0 <= j < s.claims.len() && i != j ==> (
        #[trigger] s.claims[i]).0 != (#[trigger] s.claims[j]).0
    &&& forall|i: int| 0 <= i < s.achievements.len() ==> (#[trigger] s.achievements[i]).id == i + 1
}

impl UserProfileContract {
    /// The store is well formed.
    pub open spec fn wf(&self) -> bool {
        inv(self@)
    }

    /// Create an empty profile store.
    pub fn initialize() -> (r: UserProfileContract)
        ensures
            r.wf(),
            r@.profiles.len() == 0,
            r@.achievements.len() == 0,
            r@.claims.len() == 0,
            r@.clock == 0,
    {
        UserProfileContract {
            profiles: Vec::new(),
            achievements: Vec::new(),
            claims: Vec::new(),
            clock: 0,
        }
    }

    fn find_profile(&self, owner: &str) -> (r: Option<usize>)
        requires
            self.wf(),
        ensures
            match r {
                Some(i) => {
                    &&& i < self@.profiles.len()
                    &&& self@.profiles[i as int].owner@ == owner@
                    &&& has_profile(self@.profiles, owner@)
                    &&& profile_idx(self@.profiles, owner@) == i as int
                },
                None => !has_profile(self@.profiles, owner@),
            },
    {
        let mut i: usize = 0;
        while i < self.profiles.len()
            invariant
                self.wf(),
                i <= self@.profiles.len(),
                forall|j: int| 0 <= j < i ==> (#[trigger] self@.profiles[j]).owner@ != owner@,
            decreases self@.profiles.len() - i,
        {
            if str_eq(self.profiles[i].owner.as_str(), owner) {
                proof {
                    assert(has_profile(self@.profiles, owner@));
                    let k = profile_idx(self@.profiles, owner@);
                    assert(k == i as int);
                }
                return Some(i);
            }
            i += 1;
        }
        None
    }

    fn find_claim(&self, username: &str) -> (r: Option<usize>)
        requires
            self.wf(),
        ensures
            match r {
                Some(i) => {
                    &&& i < self@.claims.len()
                    &&& self@.claims[i as int].0 == username@
                    &&& has_claim(self@.claims, username@)
                    &&& claim_idx(self@.claims, username@) == i as int
                },
                None => !has_claim(self@.claims, username@),
            },
    {
        let mut i: usize = 0;
        while i < self.claims.len()
            invariant
                self.wf(),
                i <= self@.claims.len(),
                self@.claims.len() == self.claims@.len(),
                forall|j: int| 0 <= j < i ==> (#[trigger] self@.claims[j]).0 != username@,
            decreases self@.claims.len() - i,
        {
            proof {
                assert(self@.claims[i as int].0 == self.claims@[i as int].username@);
            }
            if str_eq(self.claims[i].username.as_str(), username) {
                proof {
                    assert(has_claim(self@.claims, username@));
                    let k = claim_idx(self@.claims, username@);
                    assert(k == i as int);
                }
                return Some(i);
            }
            i += 1;
        }
        None
    }

    /// Create the caller's profile, or update it wholesale if one exists.
    ///
    /// Fails `Unauthorized` exactly when the username is already claimed by
    /// a different owner; a username, once claimed, stays reserved for its
    /// first owner.  On success the stored profile carries the given fields,
    /// its update time is refreshed, and the result reports the stored
    /// profile.
    pub fn create_or_update_profile(
        &mut self,
        owner: String,
        username: String,
        email: Option<String>,
        bio: Option<String>,
        avatar_url: Option<String>,
        privacy_level: PrivacyLevel,
    ) -> (r: Result<UserProfile, OpError>)
        requires
            old(self).wf(),
        ensures
            final(self).wf(),
            ({
                let pre = old(self)@;
                let post = final(self)@;
                let taken = has_claim(pre.claims, username@) && claim_owner(pre.claims, username@)
                    != owner@;
                &&& taken ==> r == Err::<UserProfile, OpError>(OpError::Unauthorized) && post
                    == pre
                &&& !taken ==> ({
                    let had = has_profile(pre.profiles, owner@);
                    let pidx = profile_idx(pre.profiles, owner@);
                    let p0 = pre.profiles[pidx];
                    let stored = if had {
                        post.profiles[pidx]
                    } else {
                        post.profiles.last()
                    };
                    &&& had ==> post.profiles == pre.profiles.update(pidx, stored)
                        && stored.created_at == p0.created_at && stored.achievements@
                        == p0.achievements@
                    &&& !had ==> post.profiles == pre.profiles.push(stored)
                        && stored.created_at == post.clock && stored.achievements@.len() == 0
                    &&& stored.owner@ == owner@
                    &&& stored.username == username
                    &&& stored.email == email
                    &&& stored.bio == bio
                    &&& stored.avatar_url == avatar_url
                    &&& stored.privacy_level == privacy_level
                    &&& stored.updated_at == post.clock
                    &&& has_claim(pre.claims, username@) ==> post.claims == pre.claims
                    &&& !has_claim(pre.claims, username@) ==> post.claims == pre.claims.push(
                        (username@, owner@),
                    )
                    &&& match r {
                        Ok(p) => {
                            &&& p.owner == stored.owner
                            &&& p.username == stored.username
                            &&& p.email == stored.email
                            &&& p.bio == stored.bio
                            &&& p.avatar_url == stored.avatar_url
                            &&& p.created_at == stored.created_at
                            &&& p.updated_at == stored.updated_at
                            &&& p.achievements@ == stored.achievements@
                            &&& p.privacy_level == stored.privacy_level
                        },
                        Err(_) => false,
                    }
                    &&& post.achievements == pre.achievements
                    &&& post.clock == bump(pre.clock)
                })
            }),
    {
        let claim = self.find_claim(username.as_str());
        match claim {
            Some(c) => {
                if !str_eq(self.claims[c].owner.as_str(), owner.as_str()) {
                    proof {
                        assert(claim_owner(old(self)@.claims, username@)
                            == self.claims@[c as int].owner@);
                    }
                    return Err(OpError::Unauthorized);
                }
                proof {
                    assert(claim_owner(old(self)@.claims, username@)
                        == self.claims@[c as int].owner@);
                }
            },
            None => {},
        }
        self.clock = bump_clock(self.clock);
        let ts = self.clock;
        let found = self.find_profile(owner.as_str());
        let pidx: usize;
        match found {
            Some(i) => {
                self.profiles[i].username = username.clone();
                self.profiles[i].email = match &email {
                    Some(s) => Some(s.clone()),
                    None => None,
                };
                self.profiles[i].bio = match &bio {
                    Some(s) => Some(s.clone()),
                    None => None,
                };
                self.profiles[i].avatar_url = match &avatar_url {
                    Some(s) => Some(s.clone()),
                    None => None,
                };
                self.profiles[i].privacy_level = privacy_level;
                self.profiles[i].updated_at = ts;
                pidx = i;
                proof {
                    let pre = old(self)@;
                    let post = self@;
                    assert(post.profiles =~= pre.profiles.update(i as int, post.profiles[i as int]));
                    assert forall|a: int, b: int|
                        0 <= a < post.profiles.len() && 0 <= b < post.profiles.len() && a
                            != b implies (#[trigger] post.profiles[a]).owner@ != (
                    #[trigger] post.profiles[b]).owner@ by {
                        if a != i as int && b != i as int {
                            assert(post.profiles[a] == pre.profiles[a]);
                            assert(post.profiles[b] == pre.profiles[b]);
                        } else if a == i as int {
                            assert(post.profiles[b] == pre.profiles[b]);
                            assert(post.profiles[a].owner@ == pre.profiles[a].owner@);
                        } else {
                            assert(post.profiles[a] == pre.profiles[a]);
                            assert(post.profiles[b].owner@ == pre.profiles[b].owner@);
                        }
                    }
                }
            },
            None => {
                let profile = UserProfile {
                    owner: owner.clone(),
                    username: username.clone(),
                    email: match &email {
                        Some(s) => Some(s.clone()),
                        None => None,
                    },
                    bio: match &bio {
                        Some(s) => Some(s.clone()),
                        None => None,
                    },
                    avatar_url: match &avatar_url {
                        Some(s) => Some(s.clone()),
                        None => None,
                    },
                    created_at: ts,
                    updated_at: ts,
                    achievements: Vec::new(),
                    privacy_level,
                };
                self.profiles.push(profile);
                pidx = self.profiles.len() - 1;
            },
        }
        match claim {
            Some(_) => {},
            None => {
                let new_claim = UsernameClaim { username, owner };
                self.claims.push(new_claim);
                proof {
                    assert(self@.claims =~= old(self)@.claims.push(
                        (self.claims@.last().username@, self.claims@.last().owner@),
                    ));
                }
            },
        }
        let result = self.profiles[pidx].clone();
        Ok(result)
    }

    /// The profile owned by `user`, when one exists.
    pub fn get_profile(&self, user: &str) -> (r: Option<&UserProfile>)
        requires
            self.wf(),
        ensures
            match r {
                Some(p) => has_profile(self@.profiles, user@) && *p
                    == self@.profiles[profile_idx(self@.profiles, user@)],
                None => !has_profile(self@.profiles, user@),
            },
    {
        match self.find_profile(user) {
            Some(i) => Some(&self.profiles[i]),
            None => None,
        }
    }

    /// The profile reached through a username claim: the profile of the
    /// owner the username is reserved for, when both exist.  After the owner
    /// moves to a new username the reached profile carries that newer name.
    pub fn get_profile_by_username(&self, username: &str) -> (r: Option<&UserProfile>)
        requires
            self.wf(),
        ensures
            ({
                let cs = self@.claims;
                let ps = self@.profiles;
                match r {
                    Some(p) => has_claim(cs, username@) && has_profile(
                        ps,
                        claim_owner(cs, username@),
                    ) && *p == ps[profile_idx(ps, claim_owner(cs, username@))],
                    None => !has_claim(cs, username@) || !has_profile(
                        ps,
                        claim_owner(cs, username@),
                    ),
                }
            }),
    {
        match self.find_claim(username) {
            Some(c) => {
                proof {
                    assert(claim_owner(self@.claims, username@) == self.claims@[c as int].owner@);
                }
                self.get_profile(self.claims[c].owner.as_str())
            },
            None => None,
        }
    }

    /// Attach a fresh achievement to a user's profile; reports its number.
    ///
    /// Fails `NotFound` exactly when the user has no profile.  The
    /// achievement starts unverified, and its number is appended to the
    /// profile's achievement list.
    pub fn add_achievement(
        &mut self,
        user: String,
        title: String,
        description: String,
        badge_url: Option<String>,
    ) -> (r: Result<u64, OpError>)
        requires
            old(self).wf(),
            old(self)@.achievements.len() < usize::MAX,
        ensures
            final(self).wf(),
            !has_profile(old(self)@.profiles, user@) ==> r == Err::<u64, OpError>(OpError::NotFound)
                && final(self)@ == old(self)@,
            ({
                let pre = old(self)@;
                let post = final(self)@;
                let aid = (pre.achievements.len() + 1) as u64;
                let pidx = profile_idx(pre.profiles, user@);
                let p0 = pre.profiles[pidx];
                let p1 = post.profiles[pidx];
                has_profile(pre.profiles, user@) ==> {
                    &&& r == Ok::<u64, OpError>(aid)
                    &&& post.achievements == pre.achievements.push(post.achievements.last())
                    &&& ({
                        let a = post.achievements.last();
                        &&& a.id == aid
                        &&& a.user@ == user@
                        &&& a.title == title
                        &&& a.description == description
                        &&& a.earned_at == post.clock
                        &&& a.badge_url == badge_url
                        &&& !a.verified
                    })
                    &&& post.profiles == pre.profiles.update(pidx, p1)
                    &&& p1.achievements@ == p0.achievements@.push(aid)
                    &&& p1.updated_at == post.clock
                    &&& p1.owner == p0.owner
                    &&& p1.username == p0.username
                    &&& p1.email == p0.email
                    &&& p1.bio == p0.bio
                    &&& p1.avatar_url == p0.avatar_url
                    &&& p1.created_at == p0.created_at
                    &&& p1.privacy_level == p0.privacy_level
                    &&& post.claims == pre.claims
                    &&& post.clock == bump(pre.clock)
                }
            }),
    {
        let pidx = match self.find_profile(user.as_str()) {
            None => {
                return Err(OpError::NotFound);
            },
            Some(i) => i,
        };
        self.clock = bump_clock(self.clock);
        let ts = self.clock;
        let achievement_id = self.achievements.len() as u64 + 1;
        let achievement = Achievement {
            id: achievement_id,
            user,
            title,
            description,
            earned_at: ts,
            badge_url,
            verified: false,
        };
        self.achievements.push(achievement);
        self.profiles[pidx].achievements.push(achievement_id);
        self.profiles[pidx].updated_at = ts;
        proof {
            let pre = old(self)@;
            let post = self@;
            assert(post.profiles =~= pre.profiles.update(pidx as int, post.profiles[pidx as int]));
            assert forall|a: int, b: int|
                0 <= a < post.profiles.len() && 0 <= b < post.profiles.len() && a != b implies (
            #[trigger] post.profiles[a]).owner@ != (#[trigger] post.profiles[b]).owner@ by {
                if a != pidx as int && b != pidx as int {
                    assert(post.profiles[a] == pre.profiles[a]);
                    assert(post.profiles[b] == pre.profiles[b]);
                } else if a == pidx as int {
                    assert(post.profiles[b] == pre.profiles[b]);
                    assert(post.profiles[a].owner@ == pre.profiles[a].owner@);
                } else {
                    assert(post.profiles[a] == pre.profiles[a]);
                    assert(post.profiles[b].owner@ == pre.profiles[b].owner@);
                }
            }
            assert forall|i: int| 0 <= i < post.achievements.len() implies (
            #[trigger] post.achievements[i]).id == i + 1 by {
                if i < pre.achievements.len() {
                    assert(post.achievements[i] == pre.achievements[i]);
                }
            }
            assert(post.claims == pre.claims);
            assert(inv(post));
        }
        Ok(achievement_id)
    }

    /// Look up an achievement by number; `None` exactly when the number was
    /// never assigned.
    pub fn get_achievement(&self, achievement_id: u64) -> (r: Option<&Achievement>)
        requires
            self.wf(),
        ensures
            match r {
                Some(a) => 1 <= achievement_id <= self@.achievements.len() && *a
                    == self@.achievements[achievement_id - 1],
                None => !(1 <= achievement_id <= self@.achievements.len()),
            },
    {
        if achievement_id == 0 || achievement_id > self.achievements.len() as u64 {
            return None;
        }
        Some(&self.achievements[(achievement_id - 1) as usize])
    }

    /// Mark an achievement verified.  Any caller identity may verify; fails
    /// `NotFound` exactly when the number was never assigned.
    pub fn verify_achievement(&mut self, _admin: &str, achievement_id: u64) -> (r: Result<
        (),
        OpError,
    >)
        requires
            old(self).wf(),
        ensures
            final(self).wf(),
            !(1 <= achievement_id <= old(self)@.achievements.len()) ==> r == Err::<(), OpError>(
                OpError::NotFound,
            ) && final(self)@ == old(self)@,
            1 <= achievement_id <= old(self)@.achievements.len() ==> {
                &&& r == Ok::<(), OpError>(())
                &&& final(self)@.achievements == old(self)@.achievements.update(
                    achievement_id - 1,
                    (Achievement {
                        verified: true,
                        ..old(self)@.achievements[achievement_id - 1]
                    }),
                )
                &&& final(self)@.profiles == old(self)@.profiles
                &&& final(self)@.claims == old(self)@.claims
                &&& final(self)@.clock == old(self)@.clock
            },
    {
        if achievement_id == 0 || achievement_id > self.achievements.len() as u64 {
            return Err(OpError::NotFound);
        }
        let i = (achievement_id - 1) as usize;
        self.achievements[i].verified = true;
        proof {
            assert(self@.achievements =~= old(self)@.achievements.update(
                achievement_id - 1,
                (Achievement { verified: true, ..old(self)@.achievements[achievement_id - 1] }),
            ));
            let pre = old(self)@;
            let post = self@;
            assert(post.profiles == pre.profiles);
            assert(post.claims == pre.claims);
            assert forall|i: int| 0 <= i < post.achievements.len() implies (
            #[trigger] post.achievements[i]).id == i + 1 by {
                if i != achievement_id - 1 {
                    assert(post.achievements[i] == pre.achievements[i]);
                } else {
                    assert(post.achievements[i].id == pre.achievements[i].id);
                }
            }
            assert(inv(post));
        }
        Ok(())
    }

    /// A profile is authentic when it exists and carries a nonempty
    /// username.
    pub fn verify_profile_authenticity(&self, user: &str) -> (r: bool)
        requires
            self.wf(),
        ensures
            r == (has_profile(self@.profiles, user@) && self@.profiles[profile_idx(
                self@.profiles,
                user@,
            )].username@.len() > 0),
    {
        match self.find_profile(user) {
            Some(i) => self.profiles[i].username.as_str().unicode_len() > 0,
            None => false,
        }
    }

    /// Change a profile's privacy level; fails `NotFound` exactly when the
    /// user has no profile.
    pub fn update_privacy_level(&mut self, user: &str, privacy_level: PrivacyLevel) -> (r: Result<
        (),
        OpError,
    >)
        requires
            old(self).wf(),
        ensures
            final(self).wf(),
            !has_profile(old(self)@.profiles, user@) ==> r == Err::<(), OpError>(OpError::NotFound)
                && final(self)@ == old(self)@,
            ({
                let pre = old(self)@;
                let post = final(self)@;
                let pidx = profile_idx(pre.profiles, user@);
                let p0 = pre.profiles[pidx];
                has_profile(pre.profiles, user@) ==> {
                    &&& r == Ok::<(), OpError>(())
                    &&& post.profiles == pre.profiles.update(pidx, post.profiles[pidx])
                    &&& ({
                        let p1 = post.profiles[pidx];
                        &&& p1.privacy_level == privacy_level
                        &&& p1.updated_at == post.clock
                        &&& p1.owner == p0.owner
                        &&& p1.username == p0.username
                        &&& p1.email == p0.email
                        &&& p1.bio == p0.bio
                        &&& p1.avatar_url == p0.avatar_url
                        &&& p1.created_at == p0.created_at
                        &&& p1.achievements == p0.achievements
                    })
                    &&& post.achievements == pre.achievements
                    &&& post.claims == pre.claims
                    &&& post.clock == bump(pre.clock)
                }
            }),
    {
        let pidx = match self.find_profile(user) {
            None => {
                return Err(OpError::NotFound);
            },
            Some(i) => i,
        };
        self.clock = bump_clock(self.clock);
        self.profiles[pidx].privacy_level = privacy_level;
        self.profiles[pidx].updated_at = self.clock;
        proof {
            let pre = old(self)@;
            let post = self@;
            assert(post.profiles =~= pre.profiles.update(pidx as int, post.profiles[pidx as int]));
            assert forall|a: int, b: int|
                0 <= a < post.profiles.len() && 0 <= b < post.profiles.len() && a != b implies (
            #[trigger] post.profiles[a]).owner@ != (#[trigger] post.profiles[b]).owner@ by {
                if a != pidx as int && b != pidx as int {
                    assert(post.profiles[a] == pre.profiles[a]);
                    assert(post.profiles[b] == pre.profiles[b]);
                } else if a == pidx as int {
                    assert(post.profiles[b] == pre.profiles[b]);
                    assert(post.profiles[a].owner@ == pre.profiles[a].owner@);
                } else {
                    assert(post.profiles[a] == pre.profiles[a]);
                    assert(post.profiles[b].owner@ == pre.profiles[b].owner@);
                }
            }
            assert(post.claims == pre.claims);
            assert(post.achievements == pre.achievements);
            assert(inv(post));
        }
        Ok(())
    }

    /// Read a profile under its privacy rule: a public profile is readable
    /// by anyone; a private or friends-only profile only by its owner.
    pub fn get_profile_with_privacy_check(&self, requester: &str, target_user: &str) -> (r: Option<
        &UserProfile,
    >)
        requires
            self.wf(),
        ensures
            ({
                let ps = self@.profiles;
                let pidx = profile_idx(ps, target_user@);
                let visible = has_profile(ps, target_user@) && (ps[pidx].privacy_level
                    == PrivacyLevel::Public || requester@ == target_user@);
                match r {
                    Some(p) => visible && *p == ps[pidx],
                    None => !visible,
                }
            }),
    {
        match self.find_profile(target_user) {
            Some(i) => {
                let visible = match self.profiles[i].privacy_level {
                    PrivacyLevel::Public => true,
                    PrivacyLevel::Private => str_eq(requester, target_user),
                    PrivacyLevel::FriendsOnly => str_eq(requester, target_user),
                };
                if visible {
                    Some(&self.profiles[i])
                } else {
                    None
                }
            },
            None => None,
        }
    }
}

/// The achievements belonging to `user`, in earning order.
pub open spec fn achievements_of(s: Seq<Achievement>, user: Seq<char>) -> Seq<Achievement>
    decreases s.len(),
{
    if s.len() == 0 {
        Seq::empty()
    } else {
        let rest = achievements_of(s.drop_last(), user);
        if s.last().user@ == user {
            rest.push(s.last())
        } else {
            rest
        }
    }
}

impl UserProfileContract {
    /// All achievements earned by a user, oldest first.
    pub fn get_user_achievements(&self, user: &str) -> (r: Vec<Achievement>)
        ensures
            r@ == achievements_of(self@.achievements, user@),
    {
        let mut out: Vec<Achievement> = Vec::new();
        let mut i: usize = 0;
        while i < self.achievements.len()
            invariant
                i <= self@.achievements.len(),
                out@ == achievements_of(self@.achievements.subrange(0, i as int), user@),
            decreases self@.achievements.len() - i,
        {
            if str_eq(self.achievements[i].user.as_str(), user) {
                out.push(self.achievements[i].clone());
            }
            i += 1;
            proof {
                let part = self@.achievements.subrange(0, i as int);
                assert(part.drop_last() =~= self@.achievements.subrange(0, i - 1));
                assert(part.last() == self@.achievements[i - 1]);
                assert(out@ =~= achievements_of(part, user@));
            }
        }
        proof {
            assert(self@.achievements.subrange(0, self@.achievements.len() as int)
                =~= self@.achievements);
        }
        out
    }
}

} // verus!
