//! Identifiers assigned by the storage backend.

use vstd::prelude::*;

verus! {

/// A value automatically generated by the database, typically a primary
/// key.  It works like `Option` but conveys a clearer meaning: the value
/// is either already provided by the database or not yet known.
///
/// Two `Unknown` values compare equal to each other: "not yet known" is
/// never a distinguishing signal.
#[derive(Clone, Copy, PartialEq, Eq, Structural, Debug)]
pub enum AutoGen {
    /// The value is already provided by the database.
    Known(i64),
    /// The value is not yet provided by the database.
    Unknown,
}

impl AutoGen {
    /// Whether the database has already provided this value.
    pub open spec fn is_known(self) -> bool {
        self matches AutoGen::Known(_)
    }

    /// Ordering on identifiers used to pair old and new children
    /// deterministically.  `Unknown` sorts before every known value.
    pub open spec fn spec_le(self, other: AutoGen) -> bool {
        match (self, other) {
            (AutoGen::Unknown, _) => true,
            (AutoGen::Known(_), AutoGen::Unknown) => false,
            (AutoGen::Known(x), AutoGen::Known(y)) => x <= y,
        }
    }

    /// Executable counterpart of [`AutoGen::spec_le`].
    pub fn le(&self, other: &AutoGen) -> (r: bool)
        ensures
            r == self.spec_le(*other),
    {
        match (self, other) {
            (AutoGen::Unknown, _) => true,
            (AutoGen::Known(_), AutoGen::Unknown) => false,
            (AutoGen::Known(x), AutoGen::Known(y)) => *x <= *y,
        }
    }
}

/// The identifier ordering is a total order: any two identifiers
/// compare, mutually comparable identifiers are equal, and the ordering
/// is transitive.
pub proof fn lemma_autogen_le_total_order()
    ensures
        forall|a: AutoGen, b: AutoGen| #[trigger] a.spec_le(b) || #[trigger] b.spec_le(a),
        forall|a: AutoGen, b: AutoGen| #[trigger] a.spec_le(b) && b.spec_le(a) ==> a == b,
        forall|a: AutoGen, b: AutoGen, c: AutoGen|
            #[trigger] a.spec_le(b) && #[trigger] b.spec_le(c) ==> a.spec_le(c),
{
}

} // verus!
