//! The definition of a dictionary entry, with its tags.
//!
//! A single entry can carry several concepts, each enriched by
//! usage-context tags ([`Cakupan`]) and foreign-word tags
//! ([`KataAsing`]).

use vstd::prelude::*;

use crate::changes::all_attached;
use crate::changes::changes_plan;
use crate::changes::diff_result_matches;
use crate::changes::diff_tags;
use crate::changes::field_compare_v;
use crate::changes::lemma_filter_take_step;
use crate::changes::not_in;
use crate::changes::seq_views;
use crate::changes::AttachmentMod;
use crate::changes::AttachmentModV;
use crate::changes::CompareAttachable;
use crate::changes::FieldMod;
use crate::changes::FieldModV;
use crate::errors::DiffError;
use crate::interface::AttachmentItemMod;
use crate::interface::Item;
use crate::interface::ItemMod;
use crate::items::cakupan::clone_cakupans;
use crate::items::cakupan::Cakupan;
use crate::items::kata_asing::clone_katas;
use crate::items::kata_asing::KataAsing;
use crate::metatype::AutoGen;
use crate::operations::DbOp;

verus! {

/// One definition of a dictionary entry, together with its tags: the
/// communication contexts of the definition and the words with
/// equivalent meaning in other languages.
///
/// Equality ignores the identifier and the ordering of the two tag
/// collections.
#[derive(Debug)]
pub struct Konsep {
    /// The database-assigned identifier, if already known.
    pub id: AutoGen,
    /// The definition text.
    pub keterangan: String,
    /// The word class of the entry under this definition.
    pub golongan_kata: String,
    /// The contexts in which the definition applies.
    pub cakupans: Vec<Cakupan>,
    /// Words with equivalent meaning in other languages.
    pub kata_asing: Vec<KataAsing>,
}

/// The mathematical value of a [`Konsep`].
#[verifier::ext_equal]
pub struct KonsepV {
    /// The identifier.
    pub id: AutoGen,
    /// The definition text.
    pub keterangan: Seq<char>,
    /// The word class.
    pub golongan_kata: Seq<char>,
    /// The context tag values, in collection order.
    pub cakupans: Seq<Seq<char>>,
    /// The foreign-word tag values, in collection order.
    pub kata_asing: Seq<(Seq<char>, Seq<char>)>,
}

impl View for Konsep {
    type V = KonsepV;

    open spec fn view(&self) -> KonsepV {
        KonsepV {
            id: self.id,
            keterangan: self.keterangan@,
            golongan_kata: self.golongan_kata@,
            cakupans: seq_views(self.cakupans@),
            kata_asing: seq_views(self.kata_asing@),
        }
    }
}

impl Clone for Konsep {
    fn clone(&self) -> (r: Self)
        ensures
            r@ == self@,
            r.keterangan == self.keterangan,
            r.golongan_kata == self.golongan_kata,
            r.cakupans@ == self.cakupans@,
            r.kata_asing@ == self.kata_asing@,
    {
        Konsep {
            id: self.id,
            keterangan: self.keterangan.clone(),
            golongan_kata: self.golongan_kata.clone(),
            cakupans: clone_cakupans(&self.cakupans),
            kata_asing: clone_katas(&self.kata_asing),
        }
    }
}

/// Whether every element of `a` also occurs in `b`.
pub open spec fn sub_collection<V>(a: Seq<V>, b: Seq<V>) -> bool {
    forall|v: V| #[trigger] a.contains(v) ==> b.contains(v)
}

/// Two concept values are the same definition: equal scalar fields and
/// equal tag collections, the latter compared with no regard to order
/// or repetition.  The identifier does not distinguish definitions.
pub open spec fn konsep_eqv(a: KonsepV, b: KonsepV) -> bool {
    &&& a.keterangan == b.keterangan
    &&& a.golongan_kata == b.golongan_kata
    &&& sub_collection(a.cakupans, b.cakupans)
    &&& sub_collection(b.cakupans, a.cakupans)
    &&& sub_collection(a.kata_asing, b.kata_asing)
    &&& sub_collection(b.kata_asing, a.kata_asing)
}

/// Membership at every index is membership of every element.
proof fn lemma_all_indices_iff_sub_collection<V>(a: Seq<V>, b: Seq<V>)
    ensures
        (forall|i: int| 0 <= i < a.len() ==> b.contains(#[trigger] a[i])) <==> sub_collection(
            a,
            b,
        ),
{
    if forall|i: int| 0 <= i < a.len() ==> b.contains(#[trigger] a[i]) {
        assert forall|v: V| #[trigger] a.contains(v) implies b.contains(v) by {
            let i = choose|i: int| 0 <= i < a.len() && a[i] == v;
            assert(b.contains(a[i]));
        }
    }
    if sub_collection(a, b) {
        assert forall|i: int| 0 <= i < a.len() implies b.contains(#[trigger] a[i]) by {
            assert(a.contains(a[i]));
        }
    }
}

/// Whether a context tag with this value occurs in the collection.
pub(crate) fn cakupan_contains(items: &Vec<Cakupan>, x: &Cakupan) -> (r: bool)
    ensures
        r == seq_views(items@).contains(x@),
{
    let n = items.len();
    let mut j: usize = 0;
    while j < n
        invariant
            n == items@.len(),
            0 <= j <= n,
            forall|k: int| 0 <= k < j ==> seq_views(items@)[k] != x@,
        decreases n - j,
    {
        if items[j] == *x {
            proof {
                assert(seq_views(items@)[j as int] == x@);
            }
            return true;
        }
        j = j + 1;
    }
    proof {
        assert(!seq_views(items@).contains(x@));
    }
    false
}

/// Whether a foreign-word tag with this value occurs in the collection.
pub(crate) fn kata_contains(items: &Vec<KataAsing>, x: &KataAsing) -> (r: bool)
    ensures
        r == seq_views(items@).contains(x@),
{
    let n = items.len();
    let mut j: usize = 0;
    while j < n
        invariant
            n == items@.len(),
            0 <= j <= n,
            forall|k: int| 0 <= k < j ==> seq_views(items@)[k] != x@,
        decreases n - j,
    {
        if items[j] == *x {
            proof {
                assert(seq_views(items@)[j as int] == x@);
            }
            return true;
        }
        j = j + 1;
    }
    proof {
        assert(!seq_views(items@).contains(x@));
    }
    false
}

/// The context tags of `items` whose value does not occur in `from`, in
/// input order.
fn cakupans_missing_from(items: &Vec<Cakupan>, from: &Vec<Cakupan>) -> (r: Vec<Cakupan>)
    ensures
        seq_views(r@) == seq_views(items@).filter(not_in(seq_views(from@))),
{
    let mut out: Vec<Cakupan> = Vec::new();
    let n = items.len();
    let mut i: usize = 0;
    proof {
        assert(seq_views(items@).take(0) =~= Seq::<Seq<char>>::empty());
        assert(seq_views(out@) =~= Seq::<Seq<char>>::empty().filter(not_in(seq_views(from@))));
    }
    while i < n
        invariant
            n == items@.len(),
            0 <= i <= n,
            seq_views(out@) == seq_views(items@).take(i as int).filter(not_in(seq_views(from@))),
        decreases n - i,
    {
        let ghost pre = seq_views(out@);
        proof {
            lemma_filter_take_step(seq_views(items@), not_in(seq_views(from@)), i as int);
            assert(seq_views(items@)[i as int] == items@[i as int]@);
        }
        if !cakupan_contains(from, &items[i]) {
            out.push(items[i].clone());
            proof {
                assert(seq_views(out@) =~= pre.push(items@[i as int]@));
            }
        }
        i = i + 1;
    }
    proof {
        assert(seq_views(items@).take(n as int) =~= seq_views(items@));
    }
    out
}

/// The foreign-word tags of `items` whose value does not occur in
/// `from`, in input order.
fn katas_missing_from(items: &Vec<KataAsing>, from: &Vec<KataAsing>) -> (r: Vec<KataAsing>)
    ensures
        seq_views(r@) == seq_views(items@).filter(not_in(seq_views(from@))),
{
    let mut out: Vec<KataAsing> = Vec::new();
    let n = items.len();
    let mut i: usize = 0;
    proof {
        assert(seq_views(items@).take(0) =~= Seq::<(Seq<char>, Seq<char>)>::empty());
        assert(seq_views(out@) =~= Seq::<(Seq<char>, Seq<char>)>::empty().filter(
            not_in(seq_views(from@)),
        ));
    }
    while i < n
        invariant
            n == items@.len(),
            0 <= i <= n,
            seq_views(out@) == seq_views(items@).take(i as int).filter(not_in(seq_views(from@))),
        decreases n - i,
    {
        let ghost pre = seq_views(out@);
        proof {
            lemma_filter_take_step(seq_views(items@), not_in(seq_views(from@)), i as int);
            assert(seq_views(items@)[i as int] == items@[i as int]@);
        }
        if !kata_contains(from, &items[i]) {
            out.push(items[i].clone());
            proof {
                assert(seq_views(out@) =~= pre.push(items@[i as int]@));
            }
        }
        i = i + 1;
    }
    proof {
        assert(seq_views(items@).take(n as int) =~= seq_views(items@));
    }
    out
}

/// Whether every context tag of `a` also occurs in `b`.
fn cakupans_all_in(a: &Vec<Cakupan>, b: &Vec<Cakupan>) -> (r: bool)
    ensures
        r == sub_collection(seq_views(a@), seq_views(b@)),
{
    let n = a.len();
    let mut i: usize = 0;
    while i < n
        invariant
            n == a@.len(),
            0 <= i <= n,
            forall|k: int| 0 <= k < i ==> seq_views(b@).contains(#[trigger] seq_views(a@)[k]),
        decreases n - i,
    {
        if !cakupan_contains(b, &a[i]) {
            proof {
                assert(seq_views(a@)[i as int] == a@[i as int]@);
                assert(seq_views(a@).contains(a@[i as int]@));
                assert(!sub_collection(seq_views(a@), seq_views(b@)));
            }
            return false;
        }
        i = i + 1;
    }
    proof {
        lemma_all_indices_iff_sub_collection(seq_views(a@), seq_views(b@));
    }
    true
}

/// Whether every foreign-word tag of `a` also occurs in `b`.
fn katas_all_in(a: &Vec<KataAsing>, b: &Vec<KataAsing>) -> (r: bool)
    ensures
        r == sub_collection(seq_views(a@), seq_views(b@)),
{
    let n = a.len();
    let mut i: usize = 0;
    while i < n
        invariant
            n == a@.len(),
            0 <= i <= n,
            forall|k: int| 0 <= k < i ==> seq_views(b@).contains(#[trigger] seq_views(a@)[k]),
        decreases n - i,
    {
        if !kata_contains(b, &a[i]) {
            proof {
                assert(seq_views(a@)[i as int] == a@[i as int]@);
                assert(seq_views(a@).contains(a@[i as int]@));
                assert(!sub_collection(seq_views(a@), seq_views(b@)));
            }
            return false;
        }
        i = i + 1;
    }
    proof {
        lemma_all_indices_iff_sub_collection(seq_views(a@), seq_views(b@));
    }
    true
}

impl PartialEq for Konsep {
    fn eq(&self, other: &Self) -> (r: bool) {
        self.keterangan == other.keterangan && self.golongan_kata == other.golongan_kata
            && cakupans_all_in(&self.cakupans, &other.cakupans)
            && cakupans_all_in(&other.cakupans, &self.cakupans)
            && katas_all_in(&self.kata_asing, &other.kata_asing)
            && katas_all_in(&other.kata_asing, &self.kata_asing)
    }
}

impl vstd::std_specs::cmp::PartialEqSpecImpl for Konsep {
    open spec fn obeys_eq_spec() -> bool {
        true
    }

    open spec fn eq_spec(&self, other: &Konsep) -> bool {
        konsep_eqv(self@, other@)
    }
}

impl Konsep {
    /// The empty concept: no identifier, empty texts, no tags.
    pub fn null() -> (r: Self)
        ensures
            r.id == AutoGen::Unknown,
            r@.keterangan == Seq::<char>::empty(),
            r@.golongan_kata == Seq::<char>::empty(),
            r@.cakupans == Seq::<Seq<char>>::empty(),
            r@.kata_asing == Seq::<(Seq<char>, Seq<char>)>::empty(),
    {
        let r = Konsep {
            id: AutoGen::Unknown,
            keterangan: String::new(),
            golongan_kata: String::new(),
            cakupans: Vec::new(),
            kata_asing: Vec::new(),
        };
        proof {
            assert(r@.cakupans =~= Seq::<Seq<char>>::empty());
            assert(r@.kata_asing =~= Seq::<(Seq<char>, Seq<char>)>::empty());
        }
        r
    }
}

/// A modified [`Konsep`]: the scalar fields as change markers, the tag
/// collections as change sets.
#[derive(Clone, PartialEq, Debug)]
pub struct KonsepMod {
    /// The identifier shared by the old and the new concept.
    pub id: AutoGen,
    /// The definition text change.
    pub keterangan: FieldMod<String>,
    /// The word-class change.
    pub golongan_kata: FieldMod<String>,
    /// The context tag changes.
    pub cakupans: AttachmentMod<Cakupan>,
    /// The foreign-word tag changes.
    pub kata_asing: AttachmentMod<KataAsing>,
}

/// The mathematical value of a [`KonsepMod`].
#[verifier::ext_equal]
pub struct KonsepModV {
    /// The identifier.
    pub id: AutoGen,
    /// The definition text change.
    pub keterangan: FieldModV<Seq<char>>,
    /// The word-class change.
    pub golongan_kata: FieldModV<Seq<char>>,
    /// The context tag changes.
    pub cakupans: AttachmentModV<Seq<char>>,
    /// The foreign-word tag changes.
    pub kata_asing: AttachmentModV<(Seq<char>, Seq<char>)>,
}

impl View for KonsepMod {
    type V = KonsepModV;

    open spec fn view(&self) -> KonsepModV {
        KonsepModV {
            id: self.id,
            keterangan: self.keterangan@,
            golongan_kata: self.golongan_kata@,
            cakupans: self.cakupans@,
            kata_asing: self.kata_asing@,
        }
    }
}

impl KonsepModV {
    /// Whether this modification changes nothing: both scalar fields
    /// unchanged and no tag attached or detached.
    pub open spec fn is_noop(self) -> bool {
        &&& self.keterangan.is_fixed()
        &&& self.golongan_kata.is_fixed()
        &&& self.cakupans.is_empty()
        &&& self.kata_asing.is_empty()
    }
}

/// The default modification of a fresh concept: scalar fields unchanged,
/// every tag newly attached.
pub open spec fn konsep_from_item(k: KonsepV) -> KonsepModV {
    KonsepModV {
        id: k.id,
        keterangan: FieldModV::Fixed(k.keterangan),
        golongan_kata: FieldModV::Fixed(k.golongan_kata),
        cakupans: all_attached(k.cakupans),
        kata_asing: all_attached(k.kata_asing),
    }
}

/// The shallow concept a modification rebuilds: own scalar fields only,
/// tag collections left empty.
pub open spec fn konsep_partial(m: KonsepModV) -> KonsepV {
    KonsepV {
        id: m.id,
        keterangan: m.keterangan.value(),
        golongan_kata: m.golongan_kata.value(),
        cakupans: Seq::empty(),
        kata_asing: Seq::empty(),
    }
}

/// The diff of two concepts sharing an identifier: each scalar field
/// compared on its own, each tag collection diffed by value.  Concepts
/// whose identifiers differ cannot be diffed.
pub open spec fn konsep_diff(old: KonsepV, new: KonsepV) -> Result<KonsepModV, DiffError> {
    if old.id != new.id {
        Err(DiffError::IdentityMismatch)
    } else {
        Ok(
            KonsepModV {
                id: old.id,
                keterangan: field_compare_v(old.keterangan, new.keterangan),
                golongan_kata: field_compare_v(old.golongan_kata, new.golongan_kata),
                cakupans: diff_tags(old.cakupans, new.cakupans),
                kata_asing: diff_tags(old.kata_asing, new.kata_asing),
            },
        )
    }
}

impl CompareAttachable<Cakupan, Cakupan> for Konsep {
    /// The concept's current context tags.
    fn items(&self) -> (r: Vec<Cakupan>) {
        clone_cakupans(&self.cakupans)
    }

    /// The context tags of `other` absent from this concept.
    fn find_attached(&self, other: &Vec<Cakupan>) -> (r: Vec<Cakupan>)
        ensures
            seq_views(r@) == diff_tags(self@.cakupans, seq_views(other@)).attached,
    {
        cakupans_missing_from(other, &self.cakupans)
    }

    /// The context tags of this concept absent from `other`.
    fn find_detached(&self, other: &Vec<Cakupan>) -> (r: Vec<Cakupan>)
        ensures
            seq_views(r@) == diff_tags(self@.cakupans, seq_views(other@)).detached,
    {
        cakupans_missing_from(&self.cakupans, other)
    }

    /// Value-identity tags are never modified in place.
    fn find_modified(&self, other: &Vec<Cakupan>) -> (r: Result<Vec<Cakupan>, DiffError>)
        ensures
            r matches Ok(v) && v@ == Seq::<Cakupan>::empty(),
    {
        Ok(Vec::new())
    }

    /// The full diff of this concept's context tags against `other`.
    fn compare_attachment(&self, other: Vec<Cakupan>) -> (r: Result<
        AttachmentMod<Cakupan>,
        DiffError,
    >)
        ensures
            r matches Ok(am) && am@ == diff_tags(self@.cakupans, seq_views(other@)),
    {
        let am = AttachmentMod {
            attached: cakupans_missing_from(&other, &self.cakupans),
            detached: cakupans_missing_from(&self.cakupans, &other),
            modified: Vec::new(),
        };
        proof {
            assert(am@ =~= diff_tags(self@.cakupans, seq_views(other@)));
        }
        Ok(am)
    }
}

impl CompareAttachable<KataAsing, KataAsing> for Konsep {
    /// The concept's current foreign-word tags.
    fn items(&self) -> (r: Vec<KataAsing>) {
        clone_katas(&self.kata_asing)
    }

    /// The foreign-word tags of `other` absent from this concept.
    fn find_attached(&self, other: &Vec<KataAsing>) -> (r: Vec<KataAsing>)
        ensures
            seq_views(r@) == diff_tags(self@.kata_asing, seq_views(other@)).attached,
    {
        katas_missing_from(other, &self.kata_asing)
    }

    /// The foreign-word tags of this concept absent from `other`.
    fn find_detached(&self, other: &Vec<KataAsing>) -> (r: Vec<KataAsing>)
        ensures
            seq_views(r@) == diff_tags(self@.kata_asing, seq_views(other@)).detached,
    {
        katas_missing_from(&self.kata_asing, other)
    }

    /// Value-identity tags are never modified in place.
    fn find_modified(&self, other: &Vec<KataAsing>) -> (r: Result<Vec<KataAsing>, DiffError>)
        ensures
            r matches Ok(v) && v@ == Seq::<KataAsing>::empty(),
    {
        Ok(Vec::new())
    }

    /// The full diff of this concept's foreign-word tags against
    /// `other`.
    fn compare_attachment(&self, other: Vec<KataAsing>) -> (r: Result<
        AttachmentMod<KataAsing>,
        DiffError,
    >)
        ensures
            r matches Ok(am) && am@ == diff_tags(self@.kata_asing, seq_views(other@)),
    {
        let am = AttachmentMod {
            attached: katas_missing_from(&other, &self.kata_asing),
            detached: katas_missing_from(&self.kata_asing, &other),
            modified: Vec::new(),
        };
        proof {
            assert(am@ =~= diff_tags(self@.kata_asing, seq_views(other@)));
        }
        Ok(am)
    }
}

impl Item for Konsep {
    type IntoMod = KonsepMod;

    /// Diffs this concept (the old state) against `other` (the desired
    /// state), exactly as [`konsep_diff`] describes.
    fn modify_into(&self, other: &Self) -> (r: Result<KonsepMod, DiffError>)
        ensures
            diff_result_matches(r, konsep_diff(self@, other@)),
    {
        if self.id != other.id {
            return Err(DiffError::IdentityMismatch);
        }
        let cakupans: AttachmentMod<Cakupan> = match self.compare_attachment(
            clone_cakupans(&other.cakupans),
        ) {
            Ok(am) => am,
            Err(e) => {
                return Err(e);
            },
        };
        let kata_asing: AttachmentMod<KataAsing> = match self.compare_attachment(
            clone_katas(&other.kata_asing),
        ) {
            Ok(am) => am,
            Err(e) => {
                return Err(e);
            },
        };
        let m = KonsepMod {
            id: self.id,
            keterangan: FieldMod::compare(self.keterangan.clone(), other.keterangan.clone()),
            golongan_kata: FieldMod::compare(
                self.golongan_kata.clone(),
                other.golongan_kata.clone(),
            ),
            cakupans,
            kata_asing,
        };
        proof {
            assert(m@ =~= konsep_diff(self@, other@)->Ok_0);
        }
        Ok(m)
    }

    /// Rebuilds the shallow concept a modification describes: scalar
    /// fields from the carried values, tag collections empty.
    fn partial_from_mod(other: &KonsepMod) -> (r: Self)
        ensures
            r@ == konsep_partial(other@),
    {
        let r = Konsep {
            id: other.id,
            keterangan: other.keterangan.value().clone(),
            golongan_kata: other.golongan_kata.value().clone(),
            cakupans: Vec::new(),
            kata_asing: Vec::new(),
        };
        proof {
            assert(r@ =~= konsep_partial(other@));
        }
        r
    }
}

impl ItemMod for KonsepMod {
    type FromItem = Konsep;

    /// The default modification of a fresh concept: scalar fields
    /// unchanged, every tag newly attached.
    fn from_item(value: &Konsep) -> (r: Self)
        ensures
            r@ == konsep_from_item(value@),
            r.id == value.id,
            r.keterangan == FieldMod::Fixed::<String>(value.keterangan),
            r.golongan_kata == FieldMod::Fixed::<String>(value.golongan_kata),
            r.cakupans.attached@ == value.cakupans@,
            r.cakupans.detached@.len() == 0,
            r.cakupans.modified@.len() == 0,
            r.kata_asing.attached@ == value.kata_asing@,
            r.kata_asing.detached@.len() == 0,
            r.kata_asing.modified@.len() == 0,
    {
        let r = KonsepMod {
            id: value.id,
            keterangan: FieldMod::Fixed(value.keterangan.clone()),
            golongan_kata: FieldMod::Fixed(value.golongan_kata.clone()),
            cakupans: AttachmentMod {
                attached: clone_cakupans(&value.cakupans),
                detached: Vec::new(),
                modified: Vec::new(),
            },
            kata_asing: AttachmentMod {
                attached: clone_katas(&value.kata_asing),
                detached: Vec::new(),
                modified: Vec::new(),
            },
        };
        proof {
            assert(r@ =~= konsep_from_item(value@));
        }
        r
    }
}

/// A modified concept is submitted against the entry it belongs to; the
/// backend addresses that entry by its identifier and headword, so the
/// parent here is that pair.
impl AttachmentItemMod<(AutoGen, String)> for KonsepMod {
    /// Attaching inserts the concept row under the entry, then attaches
    /// all its tags to the concept.
    open spec fn attach_plan(self, parent: (AutoGen, String)) -> Result<Seq<DbOp>, DiffError> {
        let head = seq![
            DbOp::InsertKonsep {
                keterangan: self.keterangan.spec_value(),
                lemma: parent.1,
                golongan_kata: self.golongan_kata.spec_value(),
            },
        ];
        match changes_plan(self.cakupans, self.keterangan.spec_value()) {
            Ok(c) => match changes_plan(self.kata_asing, self.keterangan.spec_value()) {
                Ok(k) => Ok(head + c + k),
                Err(e) => Err(e),
            },
            Err(e) => Err(e),
        }
    }

    /// Detaching deletes the concept row under the entry.
    open spec fn detach_plan(self, parent: (AutoGen, String)) -> Result<Seq<DbOp>, DiffError> {
        Ok(seq![DbOp::DeleteKonsep { id: self.id, lemma_id: parent.0 }])
    }

    /// Modifying rewrites the concept row's scalar fields, then submits
    /// the tag change sets against the concept.
    open spec fn modify_plan(self, parent: (AutoGen, String)) -> Result<Seq<DbOp>, DiffError> {
        let head = seq![
            DbOp::UpdateKonsep {
                keterangan: self.keterangan.spec_value(),
                golongan_kata: self.golongan_kata.spec_value(),
                id: self.id,
                lemma_id: parent.0,
            },
        ];
        match changes_plan(self.cakupans, self.keterangan.spec_value()) {
            Ok(c) => match changes_plan(self.kata_asing, self.keterangan.spec_value()) {
                Ok(k) => Ok(head + c + k),
                Err(e) => Err(e),
            },
            Err(e) => Err(e),
        }
    }

    fn submit_attachment_to(&self, parent: &(AutoGen, String)) -> (r: Result<Vec<DbOp>, DiffError>) {
        let ket = self.keterangan.value().clone();
        let mut ops: Vec<DbOp> = Vec::new();
        ops.push(
            DbOp::InsertKonsep {
                keterangan: ket.clone(),
                lemma: parent.1.clone(),
                golongan_kata: self.golongan_kata.value().clone(),
            },
        );
        let ghost head = ops@;
        let mut c = match self.cakupans.submit_changes_with(&ket) {
            Ok(v) => v,
            Err(e) => {
                return Err(e);
            },
        };
        let mut k = match self.kata_asing.submit_changes_with(&ket) {
            Ok(v) => v,
            Err(e) => {
                return Err(e);
            },
        };
        let ghost cs = c@;
        let ghost ks = k@;
        ops.append(&mut c);
        ops.append(&mut k);
        proof {
            assert(ops@ == (head + cs) + ks);
            assert((*self).attach_plan(*parent) matches Ok(p) && p == (head + cs) + ks);
        }
        Ok(ops)
    }

    fn submit_detachment_from(&self, parent: &(AutoGen, String)) -> (r: Result<
        Vec<DbOp>,
        DiffError,
    >) {
        let mut ops: Vec<DbOp> = Vec::new();
        ops.push(DbOp::DeleteKonsep { id: self.id, lemma_id: parent.0 });
        proof {
            assert(ops@ =~= seq![DbOp::DeleteKonsep { id: self.id, lemma_id: parent.0 }]);
        }
        Ok(ops)
    }

    fn submit_modification_with(&self, parent: &(AutoGen, String)) -> (r: Result<
        Vec<DbOp>,
        DiffError,
    >) {
        let ket = self.keterangan.value().clone();
        let mut ops: Vec<DbOp> = Vec::new();
        ops.push(
            DbOp::UpdateKonsep {
                keterangan: ket.clone(),
                golongan_kata: self.golongan_kata.value().clone(),
                id: self.id,
                lemma_id: parent.0,
            },
        );
        let ghost head = ops@;
        let mut c = match self.cakupans.submit_changes_with(&ket) {
            Ok(v) => v,
            Err(e) => {
                return Err(e);
            },
        };
        let mut k = match self.kata_asing.submit_changes_with(&ket) {
            Ok(v) => v,
            Err(e) => {
                return Err(e);
            },
        };
        let ghost cs = c@;
        let ghost ks = k@;
        ops.append(&mut c);
        ops.append(&mut k);
        proof {
            assert(ops@ == (head + cs) + ks);
            assert((*self).modify_plan(*parent) matches Ok(p) && p == (head + cs) + ks);
        }
        Ok(ops)
    }
}

} // verus!
