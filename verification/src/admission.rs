//! Admission control: a pool of permits that bounds how many requests are
//! in flight at once.

use vstd::prelude::*;

use crate::error::SetupError;

verus! {

/// The state of a pool of permits, as mathematical values.
pub struct PermitsView {
    /// The concurrency ceiling.
    pub limit: nat,
    /// The number of permits handed out and not yet returned.
    pub outstanding: nat,
}

impl PermitsView {
    /// The ceiling is at least one, and never exceeded.
    pub open spec fn wf(self) -> bool {
        1 <= self.limit && self.outstanding <= self.limit
    }

    /// Whether a permit can be handed out now.
    pub open spec fn has_room(self) -> bool {
        self.outstanding < self.limit
    }
}

/// A pool of permits: at most `limit` of them are handed out at a time.
#[derive(Debug)]
pub struct AdmissionController {
    limit: usize,
    outstanding: usize,
}

impl View for AdmissionController {
    type V = PermitsView;

    closed spec fn view(&self) -> PermitsView {
        PermitsView { limit: self.limit as nat, outstanding: self.outstanding as nat }
    }
}

impl AdmissionController {
    /// A pool with no permit outstanding. A ceiling of zero is refused:
    /// behind it every request would wait forever.
    pub fn new(limit: usize) -> (made: Result<AdmissionController, SetupError>)
        ensures
            limit == 0 <==> made is Err,
            made matches Err(e) ==> e is ZeroConcurrency,
            made matches Ok(pool) ==> pool@ == (PermitsView { limit: limit as nat, outstanding: 0 }),
    {
        if limit == 0 {
            Err(SetupError::ZeroConcurrency)
        } else {
            Ok(AdmissionController { limit, outstanding: 0 })
        }
    }

    /// Takes a permit if fewer than `limit` are outstanding, and says
    /// whether it did. A caller that is refused has to wait for a release.
    pub fn try_acquire(&mut self) -> (granted: bool)
        requires
            old(self)@.wf(),
        ensures
            granted == old(self)@.has_room(),
            final(self)@ == if granted {
                PermitsView { outstanding: old(self)@.outstanding + 1, ..old(self)@ }
            } else {
                old(self)@
            },
            final(self)@.wf(),
    {
        if self.outstanding < self.limit {
            self.outstanding = self.outstanding + 1;
            true
        } else {
            false
        }
    }

    /// Takes one permit back.
    pub fn release(&mut self)
        requires
            old(self)@.wf(),
            old(self)@.outstanding > 0,
        ensures
            final(self)@ == (PermitsView {
                outstanding: (old(self)@.outstanding - 1) as nat,
                ..old(self)@
            }),
            final(self)@.wf(),
    {
        self.outstanding = self.outstanding - 1;
    }

    /// The concurrency ceiling.
    pub fn limit(&self) -> (n: usize)
        ensures
            n == self@.limit,
    {
        self.limit
    }

    /// The number of permits handed out and not yet returned.
    pub fn outstanding(&self) -> (n: usize)
        ensures
            n == self@.outstanding,
    {
        self.outstanding
    }
}

} // verus!
