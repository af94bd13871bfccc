//! Storage operations that a submission plan is made of.
//!
//! The engine never talks to a backend itself.  Submitting a modification
//! yields an ordered list of [`DbOp`] values; an executor around the
//! library performs them one by one, in order, against the real backend
//! and stops at the first failure.  Every operation is an
//! insert-if-absent, a delete-by-key or an update-by-key, so re-running a
//! partially executed plan does not duplicate rows.

use vstd::prelude::*;

use crate::metatype::AutoGen;

verus! {

/// One named storage operation of a submission plan.
///
/// Parent rows are addressed the way the backend schema addresses them:
/// a lemma row by its identifier and headword, a concept row by its
/// description (`keterangan`) or by its identifier, a tag row by its
/// value.
#[derive(Clone, PartialEq, Debug)]
pub enum DbOp {
    /// Insert a lemma row if no row with this identifier exists yet.
    InsertLemma { id: AutoGen, nama: String },
    /// Delete the lemma row with this identifier and headword.
    DeleteLemma { id: AutoGen, nama: String },
    /// Insert a concept row under the named lemma if absent.
    InsertKonsep { keterangan: String, lemma: String, golongan_kata: String },
    /// Delete the concept row with this identifier under this lemma.
    DeleteKonsep { id: AutoGen, lemma_id: AutoGen },
    /// Rewrite the scalar fields of the concept row with this identifier
    /// under this lemma.
    UpdateKonsep { keterangan: String, golongan_kata: String, id: AutoGen, lemma_id: AutoGen },
    /// Insert a context tag row if absent and link it to the concept with
    /// this description, if not linked yet.
    AttachCakupan { nama: String, keterangan: String },
    /// Remove the link between a context tag row and the concept with
    /// this description.
    DetachCakupan { nama: String, keterangan: String },
    /// Insert a foreign-word row if absent.
    InsertKataAsing { nama: String, bahasa: String },
    /// Insert a foreign-word row if absent and link it to the concept
    /// with this description, if not linked yet.
    AttachKataAsing { nama: String, bahasa: String, keterangan: String },
    /// Remove the link between a foreign-word row and the concept with
    /// this description.
    DetachKataAsing { nama: String, bahasa: String, keterangan: String },
}

} // verus!
