//! Access to feedback storage.
use vstd::prelude::*;
use std::sync::Arc;

verus! {

/// The repository through which feedback rows are stored, over a shared
/// database pool `P`.
pub struct Repo<P> {
    db_pool: Arc<P>,
}

impl<P> Repo<P> {
    /// The pool the repository stores through.
    pub closed spec fn spec_pool(&self) -> Arc<P> {
        self.db_pool
    }

    pub fn new(db_pool: Arc<P>) -> (r: Repo<P>)
        ensures
            r.spec_pool() == db_pool,
    {
        Repo { db_pool }
    }

    /// The pool the repository stores through.
    pub fn pool(&self) -> (r: &Arc<P>)
        ensures
            *r == self.spec_pool(),
    {
        &self.db_pool
    }
}

} // verus!
