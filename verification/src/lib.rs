//! Reconciliation of build artifacts in an object store with the releases and
//! tags of a GitLab project.
//!
//! The crate holds the decisions of one reconciliation pass: which object keys
//! name an artifact and of which version, which artifacts still have to be
//! published, and in which order the publishing requests are issued. Talking to
//! the object store and to GitLab is left to the caller.

pub mod artifact;
pub mod error;
pub mod gitlabreleases;
pub mod publisher;
pub mod releaser;
pub mod s3indexer;
