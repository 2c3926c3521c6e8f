//! The connection manager: owns the single connection slot and serializes
//! its lifecycle.
//!
//! Opening and closing a pool are network work and happen outside the
//! library; the manager decides the transitions. `install` succeeds only
//! from the disconnected state, and on `AlreadyConnected` the installed
//! pool is left untouched, so the caller must close the pool it opened in
//! vain. `take` clears the slot unconditionally and hands the old pool
//! back for a best-effort close.

use vstd::prelude::*;

use crate::errors::ConnError;

verus! {

/// Carries sqlx's Postgres connection pool through the library; the
/// verifier treats the value as opaque. The embedding layer, which opens
/// and closes pools, puts the pool in and takes it back out through the
/// public field.
#[verifier::external_body]
pub struct PoolHandle {
    pub pool: sqlx::Pool<sqlx::Postgres>,
}

/// The connection slot: at most one live pool, owned exclusively here and
/// mutated only through the transitions below.
pub struct ConnectionManager {
    slot: Option<PoolHandle>,
}

impl ConnectionManager {
    /// The slot's content.
    pub closed spec fn spec_slot(&self) -> Option<PoolHandle> {
        self.slot
    }

    /// Whether a pool is installed.
    pub open spec fn connected(&self) -> bool {
        self.spec_slot() is Some
    }

    /// A fresh manager, disconnected.
    pub fn new() -> (r: ConnectionManager)
        ensures
            !r.connected(),
    {
        ConnectionManager { slot: None }
    }

    /// Whether a pool is installed.
    pub fn is_connected(&self) -> (r: bool)
        ensures
            r == self.connected(),
    {
        self.slot.is_some()
    }

    /// Installs a freshly opened pool. From the connected state this fails
    /// with `AlreadyConnected`, leaves the original pool installed, and
    /// hands the offered pool back: the loser of a connect race owns it
    /// and must close it rather than leak it.
    pub fn install(&mut self, pool: PoolHandle) -> (r: Result<
        (),
        (PoolHandle, ConnError),
    >)
        ensures
            old(self).connected() ==> {
                &&& r matches Err(e) && e.0 == pool && e.1 == ConnError::AlreadyConnected
                &&& final(self).spec_slot() == old(self).spec_slot()
            },
            !old(self).connected() ==> {
                &&& r is Ok
                &&& final(self).spec_slot() == Some(pool)
            },
    {
        match &self.slot {
            Some(_) => Err((pool, ConnError::AlreadyConnected)),
            None => {
                self.slot = Some(pool);
                Ok(())
            },
        }
    }

    /// Clears the slot and returns what it held, for the caller to close.
    /// The slot is cleared even if that close later fails, so a pool that
    /// could not be cleanly closed is never reused. A no-op from the
    /// disconnected state.
    pub fn take(&mut self) -> (r: Option<PoolHandle>)
        ensures
            !final(self).connected(),
            r == old(self).spec_slot(),
    {
        self.slot.take()
    }

    /// Borrows the installed pool for statement execution.
    pub fn pool(&self) -> (r: Result<&PoolHandle, ConnError>)
        ensures
            match r {
                Ok(p) => self.connected() && self.spec_slot() == Some(*p),
                Err(e) => !self.connected() && e == ConnError::NotConnected,
            },
    {
        match &self.slot {
            Some(p) => Ok(p),
            None => Err(ConnError::NotConnected),
        }
    }
}

} // verus!
