//! Email validation service core: an RFC 5322/6531-style syntax check, a
//! DNS-backed domain check, disposable-domain and role-based-alias lookups,
//! a short-circuiting validation pipeline with response and DNS caching,
//! and an asynchronous bulk-validation job queue with its worker.

use vstd::prelude::*;

pub mod auth;
pub mod cache;
pub mod codec;
pub mod directory;
pub mod dns;
pub mod health;
pub mod ip_literal;
pub mod job_queue;
pub mod outcome;
pub mod pipeline;
pub mod syntax;
pub mod text;
pub mod worker;

verus! {

} // verus!
