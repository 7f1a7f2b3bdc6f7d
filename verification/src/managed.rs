//! Results of a command that was dispatched.

use vstd::prelude::*;

use crate::results::CdbPgResults;

verus! {

/// The results of a command that was dispatched
pub struct ManagedCdbPgResults {
    inner: CdbPgResults,
}

impl View for ManagedCdbPgResults {
    type V = CdbPgResults;

    closed spec fn view(&self) -> CdbPgResults {
        self.inner
    }
}

impl ManagedCdbPgResults {
    /// Create a new managed results wrapper
    pub fn new(results: CdbPgResults) -> (managed: Self)
        ensures
            managed@ == results,
    {
        ManagedCdbPgResults { inner: results }
    }

    /// Get access to the inner CdbPgResults
    pub fn inner(&self) -> (results: &CdbPgResults)
        ensures
            *results == self@,
    {
        &self.inner
    }

    /// Get mutable access to the inner CdbPgResults
    pub fn inner_mut(&mut self) -> (results: &mut CdbPgResults)
        ensures
            *results == old(self)@,
            final(self)@ == *final(results),
    {
        &mut self.inner
    }
}

impl core::ops::Deref for ManagedCdbPgResults {
    type Target = CdbPgResults;

    fn deref(&self) -> (results: &Self::Target)
        ensures
            *results == self@,
    {
        &self.inner
    }
}

impl core::ops::DerefMut for ManagedCdbPgResults {
    fn deref_mut(&mut self) -> (results: &mut Self::Target)
        ensures
            *results == old(self)@,
            final(self)@ == *final(results),
    {
        &mut self.inner
    }
}

} // verus!
