//! The polymorphic contract every entity kind implements: diffing into a
//! sibling modification type, rebuilding a shallow entity from it, and
//! cascading plan-building for the attach/detach/modify protocol.
//!
//! The trait methods carry no contracts here; each implementation states
//! its own exact `ensures` over the implementing types' views, and
//! callers of a concrete type see those.  The plan-building traits state
//! their contracts through per-implementation spec functions, so that
//! generic code (such as
//! [`AttachmentMod::submit_changes_with`](crate::changes::AttachmentMod::submit_changes_with))
//! can promise an exact plan as well.

use vstd::prelude::*;

use crate::errors::DiffError;
use crate::operations::DbOp;

verus! {

/// A nested entity as the caller sees it.  Diffing two entities of the
/// same kind yields the sibling modification type `IntoMod`.
pub trait Item: Sized {
    /// The modification counterpart of `Self`.
    type IntoMod;

    /// Compares `self` (the old state) with `other` (the desired state)
    /// and returns the resulting modification, or a [`DiffError`] when
    /// the two cannot be paired.
    fn modify_into(&self, other: &Self) -> Result<Self::IntoMod, DiffError>;

    /// Rebuilds a shallow entity from a modification: own scalar fields
    /// only, child collections left empty.  A modification does not
    /// carry enough data to rebuild full children, only the delta.
    fn partial_from_mod(other: &Self::IntoMod) -> Self;
}

/// The modification counterpart of an [`Item`].
pub trait ItemMod: Sized {
    /// The entity type this modification belongs to.
    type FromItem;

    /// Builds the default modification from a fresh entity: every scalar
    /// field unchanged, every child newly attached.
    fn from_item(value: &Self::FromItem) -> Self;
}

/// A type that can be rebuilt from a stream of flat storage rows.
pub trait FromView: Sized {
    /// The row shape this type is rebuilt from.
    type VIEW;

    /// Folds a row stream into the values it describes.
    fn from_views(views: &Vec<Self::VIEW>) -> Vec<Self>;
}

/// A type that can be rebuilt from rows already grouped under their
/// keys.
pub trait FromViewMap: Sized {
    /// The grouping key, typically an identifier or a tuple of
    /// identifying fields.
    type KEY;

    /// What each group holds.
    type VALUE;

    /// Rebuilds the values a grouping describes.
    fn from_viewmap(value: &Vec<(Self::KEY, Self::VALUE)>) -> Vec<Self>;
}

/// A row collection that can be grouped under keys, deterministically in
/// first-occurrence order.
pub trait IntoViewMap<V>: Sized {
    /// The grouping key.
    type KEY;

    /// What each group holds.
    type VALUE;

    /// Groups the rows under their keys.
    fn into_viewmap(self) -> Vec<(Self::KEY, Self::VALUE)>;
}

/// Relates an executable plan result to its specification: both succeed
/// with the same operations in the same order, or both fail with the
/// same error.
pub open spec fn plan_matches(r: Result<Vec<DbOp>, DiffError>, p: Result<Seq<DbOp>, DiffError>) -> bool {
    match r {
        Ok(v) => p matches Ok(s) && v@ == s,
        Err(e) => p matches Err(pe) && e == pe,
    }
}

/// A modification that can be submitted against a parent entity through
/// the three-phase attach/detach/modify protocol.  Each method returns
/// the ordered list of storage operations that performs its phase for
/// this one child.
pub trait AttachmentItemMod<Parent>: Sized {
    /// The plan that attaches this child to the parent.
    spec fn attach_plan(self, parent: Parent) -> Result<Seq<DbOp>, DiffError>;

    /// The plan that detaches this child from the parent.
    spec fn detach_plan(self, parent: Parent) -> Result<Seq<DbOp>, DiffError>;

    /// The plan that applies this child's own changes under the parent.
    spec fn modify_plan(self, parent: Parent) -> Result<Seq<DbOp>, DiffError>;

    /// Builds the attach-phase plan for this child.
    fn submit_attachment_to(&self, parent: &Parent) -> (r: Result<Vec<DbOp>, DiffError>)
        ensures
            plan_matches(r, (*self).attach_plan(*parent)),
    ;

    /// Builds the detach-phase plan for this child.
    fn submit_detachment_from(&self, parent: &Parent) -> (r: Result<Vec<DbOp>, DiffError>)
        ensures
            plan_matches(r, (*self).detach_plan(*parent)),
    ;

    /// Builds the modify-phase plan for this child.
    fn submit_modification_with(&self, parent: &Parent) -> (r: Result<Vec<DbOp>, DiffError>)
        ensures
            plan_matches(r, (*self).modify_plan(*parent)),
    ;
}

/// A modification of a top-level entity that can be submitted on its
/// own.
pub trait SubmitMod: Sized {
    /// The full plan that persists this modification.
    spec fn mod_plan(self) -> Result<Seq<DbOp>, DiffError>;

    /// Builds the full submission plan for this modification.
    fn submit_mod(&self) -> (r: Result<Vec<DbOp>, DiffError>)
        ensures
            plan_matches(r, (*self).mod_plan()),
    ;
}

} // verus!
