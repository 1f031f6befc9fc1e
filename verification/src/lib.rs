//! A multi-device synchronization coordinator and the record stores around it.
//!
//! The heart of the library is [`sync::SyncCoordinationContract`]: devices
//! register, open bounded sync sessions, submit entries, and reconcile
//! conflicting writes under a pluggable resolution policy.  The remaining
//! modules are keyed record stores over the same in-memory state model:
//! user profiles, course progress, credentials, analytics history and an
//! append-only event log.
//!
//! Every operation is an atomic read-modify-write over the owning store
//! value, and every public function carries a contract that pins down its
//! result and its effect on the store.

pub mod analytics;
pub mod clock;
pub mod course_metadata;
pub mod credentials;
pub mod errors;
pub mod events;
pub mod ident;
pub mod progress;
pub mod sync;
pub mod user_profile;
