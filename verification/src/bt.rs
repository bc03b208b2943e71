//! Opaque backtrace annotation.
//!
//! A backtrace is a display-only note attached to a request by the
//! collaborator that captured it. The auditor never reads it, and every part
//! of the crate tolerates its absence.

use vstd::prelude::*;

verus! {

/// An opaque backtrace annotation carried alongside a request.
#[derive(Debug, Clone, Copy)]
pub struct Backtrace(());

impl Backtrace {
    /// Construct an empty backtrace annotation.
    pub(crate) fn new() -> Self {
        Backtrace(())
    }
}

} // verus!
