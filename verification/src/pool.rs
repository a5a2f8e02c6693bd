//! A model of the bounded connection pool a request checks its database
//! handle out of.
//!
//! One handle gives access to the whole store, so the pool is modelled as
//! holding at most one checked-in handle: a pool built with capacity zero
//! never has one, and a checkout leaves the pool empty until the handle is
//! put back. Checkout failure is the one request-level error of the session
//! layer.

use vstd::prelude::*;

use crate::store::{Db, DbView};

verus! {

/// Why a checkout failed: the pool had no available handle.
#[derive(Clone, Copy, Debug, PartialEq, Eq, Structural)]
pub enum PoolError {
    Exhausted,
}

/// The connection pool: the store handle it can lend out, if any.
pub struct Pool {
    pub db: Option<Db>,
}

impl View for Pool {
    type V = Option<DbView>;

    open spec fn view(&self) -> Option<DbView> {
        match self.db {
            Some(ref db) => Some(db@),
            None => None,
        }
    }
}

impl Pool {
    /// Build a pool over a store. A pool of capacity zero can never lend a
    /// handle; any positive capacity lends the store's handle.
    pub fn new(db: Db, capacity: usize) -> (p: Pool)
        ensures
            capacity > 0 ==> p@ == Some(db@),
            capacity == 0 ==> p@ is None,
    {
        if capacity > 0 {
            Pool { db: Some(db) }
        } else {
            Pool { db: None }
        }
    }

    /// Check the handle out: the pool's handle if one is available, else the
    /// checkout error, and the pool is left empty either way.
    pub fn get(&mut self) -> (r: Result<Db, PoolError>)
        ensures
            old(self)@ matches Some(dbv) ==> (r matches Ok(db) && db@ == dbv),
            old(self)@ is None ==> (r matches Err(e) && e == PoolError::Exhausted),
            final(self)@ is None,
    {
        match self.db.take() {
            Some(db) => Ok(db),
            None => Err(PoolError::Exhausted),
        }
    }

    /// Return a handle to the pool, making it available to the next request.
    pub fn put(&mut self, db: Db)
        ensures
            final(self)@ == Some(db@),
    {
        self.db = Some(db);
    }
}

} // verus!
