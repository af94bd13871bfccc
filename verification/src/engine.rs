//! The handle that carries a storage connection pool through the
//! executor around this library.
//!
//! The library itself never talks to a backend: it produces plans of
//! [`DbOp`](crate::operations::DbOp) values.  The executor wraps its
//! pool in a [`DbEngine`] and performs the plans against it.

use vstd::prelude::*;

verus! {

/// A connection pool of some storage backend.  The executor implements
/// this for the pool types it drives.
pub trait SqlxPool: Send + Unpin {
    /// The backend the pool connects to.
    type DB;
}

/// The engine wrapping a connection pool.
pub struct DbEngine<P: SqlxPool> {
    inner: P,
}

impl<P: SqlxPool> DbEngine<P> {
    /// Wraps a pool.
    pub fn from_pool(inner: P) -> Self {
        DbEngine { inner }
    }

    /// The wrapped pool.
    pub fn pool(&self) -> &P {
        &self.inner
    }
}

/// The options of the query that joins entries to their concepts and
/// tags: either one headword, or every entry.
#[derive(Clone, PartialEq, Debug)]
pub struct LemmaWithKonsepViewOption {
    /// The headword to select, or `None` for all entries.
    pub lemma: Option<String>,
}

} // verus!
