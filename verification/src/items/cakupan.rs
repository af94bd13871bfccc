//! The context in which a word with the corresponding definition is
//! used.

use vstd::prelude::*;

use crate::errors::DiffError;
use crate::interface::AttachmentItemMod;
use crate::interface::Item;
use crate::interface::ItemMod;
use crate::operations::DbOp;

verus! {

/// A usage-context tag.  It is identified purely by its value: there is
/// no database-assigned identifier, and equality is structural on the
/// carried text.
#[derive(Debug)]
pub struct Cakupan(pub String);

impl View for Cakupan {
    type V = Seq<char>;

    open spec fn view(&self) -> Seq<char> {
        self.0@
    }
}

impl Clone for Cakupan {
    fn clone(&self) -> (r: Self)
        ensures
            r == *self,
    {
        Cakupan(self.0.clone())
    }
}

impl PartialEq for Cakupan {
    fn eq(&self, other: &Self) -> (r: bool) {
        self.0 == other.0
    }
}

impl Eq for Cakupan {

}

impl vstd::std_specs::cmp::PartialEqSpecImpl for Cakupan {
    open spec fn obeys_eq_spec() -> bool {
        true
    }

    open spec fn eq_spec(&self, other: &Cakupan) -> bool {
        self@ == other@
    }
}

impl Cakupan {
    /// The empty context tag.
    pub fn null() -> (r: Self)
        ensures
            r@ == Seq::<char>::empty(),
    {
        Cakupan(String::new())
    }

    /// A copy of the carried text.
    pub fn value(&self) -> (r: String)
        ensures
            r@ == self@,
    {
        self.0.clone()
    }

    /// The carried text itself.
    pub fn to_string(self) -> (r: String)
        ensures
            r@ == self@,
    {
        self.0
    }

    /// A context tag carrying the given text.
    pub fn new(value: String) -> (r: Self)
        ensures
            r@ == value@,
    {
        Cakupan(value)
    }
}

impl Item for Cakupan {
    type IntoMod = Cakupan;

    /// A value-identity tag has no partial update: the modification form
    /// of a tag is the new tag itself.
    fn modify_into(&self, other: &Self) -> (r: Result<Self, DiffError>)
        ensures
            r matches Ok(m) && m@ == other@,
    {
        Ok(other.clone())
    }

    /// The modification form carries the whole tag, so the tag is
    /// rebuilt as it is.
    fn partial_from_mod(other: &Self) -> (r: Self)
        ensures
            r@ == other@,
    {
        other.clone()
    }
}

impl ItemMod for Cakupan {
    type FromItem = Cakupan;

    /// A fresh tag is its own default modification.
    fn from_item(value: &Self) -> (r: Self)
        ensures
            r@ == value@,
    {
        value.clone()
    }
}

/// Clones a collection of context tags; the copy carries the very same
/// elements.
pub(crate) fn clone_cakupans(v: &Vec<Cakupan>) -> (r: Vec<Cakupan>)
    ensures
        r@ == v@,
{
    let r = v.clone();
    proof {
        assert forall|i: int| 0 <= i < v@.len() implies r@[i] == v@[i] by {
            assert(cloned::<Cakupan>(v@[i], r@[i]));
        }
        assert(r@ =~= v@);
    }
    r
}

/// A context tag is submitted against the concept it belongs to; the
/// backend addresses that concept by its description, so the parent here
/// is the description text.
impl AttachmentItemMod<String> for Cakupan {
    /// Attaching inserts the tag row if absent and links it to the
    /// concept.
    open spec fn attach_plan(self, parent: String) -> Result<Seq<DbOp>, DiffError> {
        Ok(seq![DbOp::AttachCakupan { nama: self.0, keterangan: parent }])
    }

    /// Detaching removes the link between the tag row and the concept.
    open spec fn detach_plan(self, parent: String) -> Result<Seq<DbOp>, DiffError> {
        Ok(seq![DbOp::DetachCakupan { nama: self.0, keterangan: parent }])
    }

    /// A value-identity tag cannot be modified in place.
    open spec fn modify_plan(self, parent: String) -> Result<Seq<DbOp>, DiffError> {
        Err(DiffError::UnsupportedModification)
    }

    fn submit_attachment_to(&self, parent: &String) -> (r: Result<Vec<DbOp>, DiffError>) {
        let mut ops: Vec<DbOp> = Vec::new();
        ops.push(DbOp::AttachCakupan { nama: self.0.clone(), keterangan: parent.clone() });
        proof {
            assert(ops@ =~= seq![
                DbOp::AttachCakupan { nama: self.0, keterangan: *parent },
            ]);
        }
        Ok(ops)
    }

    fn submit_detachment_from(&self, parent: &String) -> (r: Result<Vec<DbOp>, DiffError>) {
        let mut ops: Vec<DbOp> = Vec::new();
        ops.push(DbOp::DetachCakupan { nama: self.0.clone(), keterangan: parent.clone() });
        proof {
            assert(ops@ =~= seq![
                DbOp::DetachCakupan { nama: self.0, keterangan: *parent },
            ]);
        }
        Ok(ops)
    }

    fn submit_modification_with(&self, parent: &String) -> (r: Result<Vec<DbOp>, DiffError>) {
        Err(DiffError::UnsupportedModification)
    }
}

} // verus!
