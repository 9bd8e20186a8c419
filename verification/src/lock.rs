//! Hash-striped mutexes for paths.
//!
//! A path's lock is that of the stripe that its digest falls on, so that paths share locks
//! and no path needs one of its own.

use std::sync::{Mutex, MutexGuard};
use vstd::prelude::*;

use crate::digest::{digest, path_digest};

verus! {

/// How many locks there are.
pub const NUM_STRIPES: usize = 2048;

#[verifier::external_type_specification]
#[verifier::external_body]
#[verifier::reject_recursive_types(T)]
pub struct ExMutex<T: ?Sized>(Mutex<T>);

#[verifier::external_type_specification]
#[verifier::external_body]
#[verifier::reject_recursive_types(T)]
pub struct ExMutexGuard<'a, T: ?Sized + 'a>(MutexGuard<'a, T>);

/// One of the locks: a mutex, and which of the stripes it is for.
struct Stripe {
    mutex: Mutex<()>,
    index: usize,
}

/// `std::sync::Mutex::new`: a mutex that nobody holds. That is not stated: who holds a mutex
/// is no part of its value.
#[verifier::external_body]
fn new_mutex() -> (m: Mutex<()>) {
    Mutex::new(())
}

/// `std::sync::Mutex::lock` on the mutex of a stripe: waits for it and holds it as long as the
/// guard lives, which is a guard of that stripe. A mutex whose holder panicked is taken all the
/// same. That nobody else holds the stripe is not stated: who holds a mutex is no part of its
/// value. A thread that holds the stripe already is not served: it waits for itself.
#[verifier::external_body]
fn lock_stripe(s: &Stripe) -> (g: PathGuard<'_>)
    ensures
        g.held() == s.index,
{
    match s.mutex.lock() {
        Ok(g) => PathGuard { _guard: g, stripe: s.index },
        Err(e) => PathGuard { _guard: e.into_inner(), stripe: s.index },
    }
}

/// `std::sync::Mutex::try_lock` on the mutex of a stripe: a guard of that stripe where nobody
/// holds it; none where somebody does, or where its holder panicked. Which it is, is not
/// stated: who holds a mutex is no part of its value.
#[verifier::external_body]
fn try_lock_stripe(s: &Stripe) -> (g: Option<PathGuard<'_>>)
    ensures
        g matches Some(h) ==> h.held() == s.index,
{
    match s.mutex.try_lock() {
        Ok(g) => Some(PathGuard { _guard: g, stripe: s.index }),
        Err(_) => None,
    }
}

/// The stripe of a path.
pub open spec fn stripe_of(path: Seq<char>) -> int {
    path_digest(path) as usize as int % 2048
}

/// A lock for every path.
pub struct StripedLock {
    locks: Vec<Stripe>,
}

/// Holds one stripe's lock; released on drop.
pub struct PathGuard<'a> {
    _guard: MutexGuard<'a, ()>,
    stripe: usize,
}

impl<'a> PathGuard<'a> {
    /// The stripe whose lock is held.
    pub closed spec fn held(&self) -> int {
        self.stripe as int
    }

    /// The stripe whose lock is held.
    pub fn stripe(&self) -> (n: usize)
        ensures
            n == self.held(),
    {
        self.stripe
    }
}

/// Tells whether a stripe is held, by what came of an attempt to lock it: it is where the
/// attempt gave no guard. A guard that it gave is released.
pub fn is_refused(attempt: Option<PathGuard<'_>>) -> (r: bool)
    ensures
        r == (attempt is None),
{
    attempt.is_none()
}

impl Default for StripedLock {
    fn default() -> (l: Self)
        ensures
            l.wf(),
    {
        StripedLock::new()
    }
}

impl StripedLock {
    /// There is a lock for every stripe, at its place.
    pub closed spec fn wf(&self) -> bool {
        &&& self.locks@.len() == NUM_STRIPES
        &&& forall|i: int| 0 <= i < NUM_STRIPES ==> (#[trigger] self.locks@[i]).index == i
    }

    /// Locks for all stripes.
    pub fn new() -> (l: Self)
        ensures
            l.wf(),
    {
        let mut locks: Vec<Stripe> = Vec::new();
        let mut i: usize = 0;
        while i < NUM_STRIPES
            invariant
                locks@.len() == i,
                i <= NUM_STRIPES,
                forall|j: int| 0 <= j < i ==> (#[trigger] locks@[j]).index == j,
            decreases NUM_STRIPES - i,
        {
            locks.push(Stripe { mutex: new_mutex(), index: i });
            i = i + 1;
        }
        StripedLock { locks }
    }

    /// The stripe of a path.
    pub fn stripe(&self, path: &str) -> (n: usize)
        requires
            self.wf(),
        ensures
            n == stripe_of(path@),
            n < NUM_STRIPES,
    {
        digest(path) as usize % self.locks.len()
    }

    /// Waits until the stripe for `path` is locked.
    pub fn lock(&self, path: &str) -> (g: PathGuard<'_>)
        requires
            self.wf(),
        ensures
            g.held() == stripe_of(path@),
    {
        let stripe = self.stripe(path);
        lock_stripe(&self.locks[stripe])
    }

    /// Locks the stripe for `path` if nobody holds it. Whether somebody does is not stated: it
    /// depends on what other threads do.
    pub fn try_lock(&self, path: &str) -> (g: Option<PathGuard<'_>>)
        requires
            self.wf(),
        ensures
            g matches Some(h) ==> h.held() == stripe_of(path@),
    {
        let stripe = self.stripe(path);
        try_lock_stripe(&self.locks[stripe])
    }

    /// Tells whether the stripe for `path` is held now: whether an attempt to lock it is
    /// refused. Which it is, is not stated: it depends on what other threads do.
    pub fn is_locked(&self, path: &str) -> (r: bool)
        requires
            self.wf(),
        ensures
            exists|g: Option<PathGuard<'_>>| #[trigger]
                call_ensures(StripedLock::try_lock, (self, path), g) && r == (g is None),
    {
        let attempt = self.try_lock(path);
        is_refused(attempt)
    }
}

/// There is a lock for every path, always the same one: paths with the same digest share it,
/// and paths with different locks differ.
pub proof fn law_lock_is_by_digest(a: Seq<char>, b: Seq<char>)
    ensures
        0 <= stripe_of(a) < NUM_STRIPES,
        path_digest(a) == path_digest(b) ==> stripe_of(a) == stripe_of(b),
        stripe_of(a) != stripe_of(b) ==> a != b,
{
}

/// The stripe of a path is what its digest leaves when it is divided by the number of stripes,
/// where an index can hold the digest.
pub proof fn law_stripe_is_rest_of_digest(path: Seq<char>)
    requires
        path_digest(path) <= usize::MAX,
    ensures
        stripe_of(path) == path_digest(path) % 2048,
{
}

} // verus!
