//! A foreign word with its language of origin.

use vstd::prelude::*;

use crate::errors::DiffError;
use crate::interface::AttachmentItemMod;
use crate::interface::Item;
use crate::interface::ItemMod;
use crate::operations::DbOp;

verus! {

/// A foreign-word tag: a word with equivalent meaning in another
/// language, together with that language.  Like a context tag it is
/// identified purely by its value.
#[derive(Debug)]
pub struct KataAsing {
    /// The foreign word itself.
    pub nama: String,
    /// The language the word belongs to.
    pub bahasa: String,
}

impl View for KataAsing {
    type V = (Seq<char>, Seq<char>);

    open spec fn view(&self) -> (Seq<char>, Seq<char>) {
        (self.nama@, self.bahasa@)
    }
}

impl Clone for KataAsing {
    fn clone(&self) -> (r: Self)
        ensures
            r == *self,
    {
        KataAsing { nama: self.nama.clone(), bahasa: self.bahasa.clone() }
    }
}

impl PartialEq for KataAsing {
    fn eq(&self, other: &Self) -> (r: bool) {
        self.nama == other.nama && self.bahasa == other.bahasa
    }
}

impl Eq for KataAsing {

}

impl vstd::std_specs::cmp::PartialEqSpecImpl for KataAsing {
    open spec fn obeys_eq_spec() -> bool {
        true
    }

    open spec fn eq_spec(&self, other: &KataAsing) -> bool {
        self@ == other@
    }
}

impl KataAsing {
    /// The empty foreign-word tag.
    pub fn null() -> (r: Self)
        ensures
            r@ == (Seq::<char>::empty(), Seq::<char>::empty()),
    {
        KataAsing { nama: String::new(), bahasa: String::new() }
    }

    /// The plan that inserts this foreign word as a row of its own,
    /// if absent.
    pub open spec fn full_plan(self) -> Seq<DbOp> {
        seq![DbOp::InsertKataAsing { nama: self.nama, bahasa: self.bahasa }]
    }

    /// Builds the plan that inserts this foreign word together with its
    /// children; a foreign word has none, so this inserts the one row.
    pub fn submit_full(&self) -> (r: Vec<DbOp>)
        ensures
            r@ == self.full_plan(),
    {
        let mut ops: Vec<DbOp> = Vec::new();
        ops.push(DbOp::InsertKataAsing { nama: self.nama.clone(), bahasa: self.bahasa.clone() });
        ops
    }

    /// Builds the plan that inserts this foreign word with no children
    /// affected; the same one row.
    pub fn submit_partial(&self) -> (r: Vec<DbOp>)
        ensures
            r@ == self.full_plan(),
    {
        self.submit_full()
    }
}

impl Item for KataAsing {
    type IntoMod = KataAsing;

    /// A value-identity tag has no partial update: the modification form
    /// of a tag is the new tag itself.
    fn modify_into(&self, other: &Self) -> (r: Result<Self, DiffError>)
        ensures
            r matches Ok(m) && m@ == other@,
    {
        Ok(other.clone())
    }

    /// The modification form carries the whole tag, so the tag is
    /// rebuilt as it is.
    fn partial_from_mod(other: &Self) -> (r: Self)
        ensures
            r@ == other@,
    {
        other.clone()
    }
}

impl ItemMod for KataAsing {
    type FromItem = KataAsing;

    /// A fresh tag is its own default modification.
    fn from_item(value: &Self) -> (r: Self)
        ensures
            r@ == value@,
    {
        value.clone()
    }
}

/// Clones a collection of foreign-word tags; the copy carries the very
/// same elements.
pub(crate) fn clone_katas(v: &Vec<KataAsing>) -> (r: Vec<KataAsing>)
    ensures
        r@ == v@,
{
    let r = v.clone();
    proof {
        assert forall|i: int| 0 <= i < v@.len() implies r@[i] == v@[i] by {
            assert(cloned::<KataAsing>(v@[i], r@[i]));
        }
        assert(r@ =~= v@);
    }
    r
}

/// A foreign-word tag is submitted against the concept it belongs to;
/// the backend addresses that concept by its description, so the parent
/// here is the description text.
impl AttachmentItemMod<String> for KataAsing {
    /// Attaching inserts the word row if absent and links it to the
    /// concept.
    open spec fn attach_plan(self, parent: String) -> Result<Seq<DbOp>, DiffError> {
        Ok(
            seq![
                DbOp::AttachKataAsing { nama: self.nama, bahasa: self.bahasa, keterangan: parent },
            ],
        )
    }

    /// Detaching removes the link between the word row and the concept.
    open spec fn detach_plan(self, parent: String) -> Result<Seq<DbOp>, DiffError> {
        Ok(
            seq![
                DbOp::DetachKataAsing { nama: self.nama, bahasa: self.bahasa, keterangan: parent },
            ],
        )
    }

    /// A value-identity tag cannot be modified in place.
    open spec fn modify_plan(self, parent: String) -> Result<Seq<DbOp>, DiffError> {
        Err(DiffError::UnsupportedModification)
    }

    fn submit_attachment_to(&self, parent: &String) -> (r: Result<Vec<DbOp>, DiffError>) {
        let mut ops: Vec<DbOp> = Vec::new();
        ops.push(
            DbOp::AttachKataAsing {
                nama: self.nama.clone(),
                bahasa: self.bahasa.clone(),
                keterangan: parent.clone(),
            },
        );
        proof {
            assert(ops@ =~= seq![
                DbOp::AttachKataAsing {
                    nama: self.nama,
                    bahasa: self.bahasa,
                    keterangan: *parent,
                },
            ]);
        }
        Ok(ops)
    }

    fn submit_detachment_from(&self, parent: &String) -> (r: Result<Vec<DbOp>, DiffError>) {
        let mut ops: Vec<DbOp> = Vec::new();
        ops.push(
            DbOp::DetachKataAsing {
                nama: self.nama.clone(),
                bahasa: self.bahasa.clone(),
                keterangan: parent.clone(),
            },
        );
        proof {
            assert(ops@ =~= seq![
                DbOp::DetachKataAsing {
                    nama: self.nama,
                    bahasa: self.bahasa,
                    keterangan: *parent,
                },
            ]);
        }
        Ok(ops)
    }

    fn submit_modification_with(&self, parent: &String) -> (r: Result<Vec<DbOp>, DiffError>) {
        Err(DiffError::UnsupportedModification)
    }
}

} // verus!
