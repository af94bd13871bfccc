//! A dictionary entry: a headword with its concepts.

use vstd::prelude::*;

use crate::changes::changes_plan;
use crate::changes::diff_result_matches;
use crate::changes::field_compare_v;
use crate::changes::lemma_filter_take_step;
use crate::changes::seq_views;
use crate::changes::AttachmentMod;
use crate::changes::AttachmentModV;
use crate::changes::CompareAttachable;
use crate::changes::FieldMod;
use crate::changes::FieldModV;
use crate::changes::PlanPhase;
use crate::changes::phase_plan;
use crate::errors::DiffError;
use crate::interface::plan_matches;
use crate::interface::AttachmentItemMod;
use crate::interface::Item;
use crate::interface::ItemMod;
use crate::interface::SubmitMod;
use crate::items::cakupan::Cakupan;
use crate::items::kata_asing::KataAsing;
use crate::items::konsep::konsep_diff;
use crate::items::konsep::konsep_eqv;
use crate::items::konsep::konsep_from_item;
use crate::items::konsep::Konsep;
use crate::items::konsep::KonsepMod;
use crate::items::konsep::KonsepModV;
use crate::items::konsep::KonsepV;
use crate::metatype::AutoGen;
use crate::operations::DbOp;

verus! {

/// A dictionary entry: a headword together with the concepts it can
/// denote.
///
/// Equality ignores the identifier and the ordering of the concepts.
#[derive(Debug)]
pub struct Lemma {
    /// The database-assigned identifier, if already known.
    pub id: AutoGen,
    /// The headword.
    pub lemma: String,
    /// The concepts this entry denotes.
    pub konseps: Vec<Konsep>,
}

/// The mathematical value of a [`Lemma`].
#[verifier::ext_equal]
pub struct LemmaV {
    /// The identifier.
    pub id: AutoGen,
    /// The headword.
    pub lemma: Seq<char>,
    /// The concept values, in collection order.
    pub konseps: Seq<KonsepV>,
}

impl View for Lemma {
    type V = LemmaV;

    open spec fn view(&self) -> LemmaV {
        LemmaV { id: self.id, lemma: self.lemma@, konseps: seq_views(self.konseps@) }
    }
}

/// Clones a collection of concepts; the copy reads the same, value for
/// value.
pub(crate) fn clone_konseps(v: &Vec<Konsep>) -> (r: Vec<Konsep>)
    ensures
        seq_views(r@) == seq_views(v@),
{
    let mut r: Vec<Konsep> = Vec::new();
    let n = v.len();
    let mut i: usize = 0;
    proof {
        assert(seq_views(r@) =~= seq_views(v@).take(0));
    }
    while i < n
        invariant
            n == v@.len(),
            0 <= i <= n,
            seq_views(r@) == seq_views(v@).take(i as int),
        decreases n - i,
    {
        let ghost pre = seq_views(r@);
        r.push(v[i].clone());
        proof {
            assert(seq_views(r@) =~= pre.push(v@[i as int]@));
            assert(seq_views(v@).take(i as int + 1) =~= pre.push(v@[i as int]@));
        }
        i = i + 1;
    }
    proof {
        assert(seq_views(v@).take(n as int) =~= seq_views(v@));
    }
    r
}

impl Clone for Lemma {
    fn clone(&self) -> (r: Self)
        ensures
            r@ == self@,
            r.lemma == self.lemma,
    {
        Lemma {
            id: self.id,
            lemma: self.lemma.clone(),
            konseps: clone_konseps(&self.konseps),
        }
    }
}

/// Whether some concept of `s` is the same definition as `k`.
pub open spec fn some_konsep_eqv(s: Seq<KonsepV>, k: KonsepV) -> bool {
    exists|j: int| 0 <= j < s.len() && konsep_eqv(k, #[trigger] s[j])
}

/// Whether every concept of `a` occurs, as the same definition, in `b`.
pub open spec fn all_eqv_in(a: Seq<KonsepV>, b: Seq<KonsepV>) -> bool {
    forall|i: int| 0 <= i < a.len() ==> some_konsep_eqv(b, #[trigger] a[i])
}

/// Two entry values are the same entry: equal headwords, and each side's
/// concepts all occur on the other side, with no regard to order or
/// repetition.  The identifier does not distinguish entries.
pub open spec fn lemma_eqv(a: LemmaV, b: LemmaV) -> bool {
    &&& a.lemma == b.lemma
    &&& all_eqv_in(a.konseps, b.konseps)
    &&& all_eqv_in(b.konseps, a.konseps)
}

/// Whether a concept reading the same as `x` occurs in the collection.
fn konsep_in(items: &Vec<Konsep>, x: &Konsep) -> (r: bool)
    ensures
        r == some_konsep_eqv(seq_views(items@), x@),
{
    let n = items.len();
    let mut j: usize = 0;
    while j < n
        invariant
            n == items@.len(),
            0 <= j <= n,
            forall|k: int| 0 <= k < j ==> !konsep_eqv(x@, #[trigger] seq_views(items@)[k]),
        decreases n - j,
    {
        if *x == items[j] {
            proof {
                assert(konsep_eqv(x@, seq_views(items@)[j as int]));
            }
            return true;
        }
        j = j + 1;
    }
    false
}

/// Whether every concept of `a` also occurs, as the same definition, in
/// `b`.
fn konseps_all_in(a: &Vec<Konsep>, b: &Vec<Konsep>) -> (r: bool)
    ensures
        r == all_eqv_in(seq_views(a@), seq_views(b@)),
{
    let n = a.len();
    let mut i: usize = 0;
    while i < n
        invariant
            n == a@.len(),
            0 <= i <= n,
            forall|k: int|
                0 <= k < i ==> some_konsep_eqv(seq_views(b@), #[trigger] seq_views(a@)[k]),
        decreases n - i,
    {
        if !konsep_in(b, &a[i]) {
            proof {
                assert(seq_views(a@)[i as int] == a@[i as int]@);
                assert(!all_eqv_in(seq_views(a@), seq_views(b@)));
            }
            return false;
        }
        i = i + 1;
    }
    true
}

impl PartialEq for Lemma {
    fn eq(&self, other: &Self) -> (r: bool) {
        self.lemma == other.lemma && konseps_all_in(&self.konseps, &other.konseps)
            && konseps_all_in(&other.konseps, &self.konseps)
    }
}

impl vstd::std_specs::cmp::PartialEqSpecImpl for Lemma {
    open spec fn obeys_eq_spec() -> bool {
        true
    }

    open spec fn eq_spec(&self, other: &Lemma) -> bool {
        lemma_eqv(self@, other@)
    }
}

/// A modified [`Lemma`]: the headword as a change marker, the concepts
/// as a change set.
#[derive(Clone, PartialEq, Debug)]
pub struct LemmaMod {
    /// The identifier shared by the old and the new entry.
    pub id: AutoGen,
    /// The headword change.
    pub lemma: FieldMod<String>,
    /// The concept changes.
    pub konseps: AttachmentMod<KonsepMod>,
}

/// The mathematical value of a [`LemmaMod`].
#[verifier::ext_equal]
pub struct LemmaModV {
    /// The identifier.
    pub id: AutoGen,
    /// The headword change.
    pub lemma: FieldModV<Seq<char>>,
    /// The concept changes.
    pub konseps: AttachmentModV<KonsepModV>,
}

impl View for LemmaMod {
    type V = LemmaModV;

    open spec fn view(&self) -> LemmaModV {
        LemmaModV { id: self.id, lemma: self.lemma@, konseps: self.konseps@ }
    }
}

/// The predicate holding of the concepts whose identifier is not yet
/// known: the caller is declaring them brand new.
pub open spec fn is_unknown_k() -> spec_fn(KonsepV) -> bool {
    |k: KonsepV| k.id == AutoGen::Unknown
}

/// The predicate holding of the concepts whose identifier is already
/// known.
pub open spec fn is_known_k() -> spec_fn(KonsepV) -> bool {
    |k: KonsepV| k.id != AutoGen::Unknown
}

/// The map sending a concept to its default modification.
pub open spec fn from_item_map() -> spec_fn(KonsepV) -> KonsepModV {
    |k: KonsepV| konsep_from_item(k)
}

/// The identifiers of the concepts of `s` that already have one, in
/// collection order.
pub open spec fn known_ids(s: Seq<KonsepV>) -> Seq<AutoGen> {
    s.filter(is_known_k()).map_values(|k: KonsepV| k.id)
}

/// The predicate holding of the old concepts that the new collection no
/// longer lists: their identifier is not among the new known ones.
pub open spec fn dropped_from(new: Seq<KonsepV>) -> spec_fn(KonsepV) -> bool {
    |k: KonsepV| !known_ids(new).contains(k.id)
}

/// The predicate holding of the old concepts that the new collection
/// still lists.
pub open spec fn kept_in(new: Seq<KonsepV>) -> spec_fn(KonsepV) -> bool {
    |k: KonsepV| known_ids(new).contains(k.id)
}

/// The concepts a diff must newly attach: the new ones with no
/// identifier yet, each as a from-scratch modification.
pub open spec fn konseps_attached(new: Seq<KonsepV>) -> Seq<KonsepModV> {
    new.filter(is_unknown_k()).map_values(from_item_map())
}

/// The concepts a diff must detach: the old ones whose identifier the
/// new collection no longer lists.  A concept silently dropped from the
/// new collection is interpreted as deleted.
pub open spec fn konseps_detached(old: Seq<KonsepV>, new: Seq<KonsepV>) -> Seq<KonsepModV> {
    old.filter(dropped_from(new)).map_values(from_item_map())
}

/// Inserts a concept into a sequence sorted by identifier, after any
/// concept whose identifier is not larger.
pub open spec fn insert_sorted(s: Seq<KonsepV>, k: KonsepV) -> Seq<KonsepV>
    decreases s.len(),
{
    if s.len() == 0 {
        seq![k]
    } else if !s[0].id.spec_le(k.id) {
        seq![k] + s
    } else {
        seq![s[0]] + insert_sorted(s.drop_first(), k)
    }
}

/// Sorts a sequence of concepts by identifier, stably, by repeated
/// insertion.
pub open spec fn sort_by_id(s: Seq<KonsepV>) -> Seq<KonsepV>
    decreases s.len(),
{
    if s.len() == 0 {
        Seq::empty()
    } else {
        insert_sorted(sort_by_id(s.drop_last()), s.last())
    }
}

/// The pairwise diffs of two equally long concept sequences, or the
/// first failure: a pair whose identifiers differ cannot be diffed.
pub open spec fn zip_diff(a: Seq<KonsepV>, b: Seq<KonsepV>) -> Result<Seq<KonsepModV>, DiffError>
    decreases a.len(),
{
    if a.len() == 0 {
        Ok(Seq::empty())
    } else {
        match konsep_diff(a[0], b[0]) {
            Ok(m) => match zip_diff(a.drop_first(), b.drop_first()) {
                Ok(t) => Ok(seq![m] + t),
                Err(e) => Err(e),
            },
            Err(e) => Err(e),
        }
    }
}

/// The `modified` bucket of a concept-collection diff: the old concepts
/// still listed and the new concepts with known identifiers are sorted
/// by identifier and paired positionally; unequal counts mean the caller
/// omitted the identifier of a concept it intended to modify, which is a
/// hard failure, not a silent drop.
pub open spec fn konseps_modified(old: Seq<KonsepV>, new: Seq<KonsepV>) -> Result<
    Seq<KonsepModV>,
    DiffError,
> {
    let kept = sort_by_id(old.filter(kept_in(new)));
    let known = sort_by_id(new.filter(is_known_k()));
    if kept.len() != known.len() {
        Err(DiffError::PairingCardinalityMismatch)
    } else {
        zip_diff(kept, known)
    }
}

/// The full diff of an entry's concept collection against a desired
/// collection.
pub open spec fn konseps_diff(old: Seq<KonsepV>, new: Seq<KonsepV>) -> Result<
    AttachmentModV<KonsepModV>,
    DiffError,
> {
    match konseps_modified(old, new) {
        Ok(m) => Ok(
            AttachmentModV {
                attached: konseps_attached(new),
                detached: konseps_detached(old, new),
                modified: m,
            },
        ),
        Err(e) => Err(e),
    }
}

/// The diff of two entries sharing an identifier: the headword compared
/// on its own, the concept collections diffed by identifier.  Entries
/// whose identifiers differ cannot be diffed.
pub open spec fn lemma_diff(old: LemmaV, new: LemmaV) -> Result<LemmaModV, DiffError> {
    if old.id != new.id {
        Err(DiffError::IdentityMismatch)
    } else {
        match konseps_diff(old.konseps, new.konseps) {
            Ok(am) => Ok(
                LemmaModV {
                    id: old.id,
                    lemma: field_compare_v(old.lemma, new.lemma),
                    konseps: am,
                },
            ),
            Err(e) => Err(e),
        }
    }
}

/// The shallow entry a modification rebuilds: the headword from the
/// carried value, the concept collection left empty.
pub open spec fn lemma_partial(m: LemmaModV) -> LemmaV {
    LemmaV { id: m.id, lemma: m.lemma.value(), konseps: Seq::empty() }
}

/// The default modification of a fresh entry: the headword unchanged,
/// every concept newly attached from scratch.
pub open spec fn lemma_from_item(l: LemmaV) -> LemmaModV {
    LemmaModV {
        id: l.id,
        lemma: FieldModV::Fixed(l.lemma),
        konseps: AttachmentModV {
            attached: l.konseps.map_values(from_item_map()),
            detached: Seq::empty(),
            modified: Seq::empty(),
        },
    }
}

/// Whether an identifier occurs in the list.
fn autogen_in(ids: &Vec<AutoGen>, x: AutoGen) -> (r: bool)
    ensures
        r == ids@.contains(x),
{
    let n = ids.len();
    let mut j: usize = 0;
    while j < n
        invariant
            n == ids@.len(),
            0 <= j <= n,
            forall|k: int| 0 <= k < j ==> ids@[k] != x,
        decreases n - j,
    {
        if ids[j] == x {
            return true;
        }
        j = j + 1;
    }
    false
}

/// The identifiers that the new concept collection already knows.
fn collect_known_ids(items: &Vec<Konsep>) -> (r: Vec<AutoGen>)
    ensures
        r@ == known_ids(seq_views(items@)),
{
    let mut out: Vec<AutoGen> = Vec::new();
    let n = items.len();
    let mut i: usize = 0;
    proof {
        assert(seq_views(items@).take(0) =~= Seq::<KonsepV>::empty());
        assert(out@ =~= known_ids(seq_views(items@).take(0)));
    }
    while i < n
        invariant
            n == items@.len(),
            0 <= i <= n,
            out@ == known_ids(seq_views(items@).take(i as int)),
        decreases n - i,
    {
        let ghost pre = out@;
        proof {
            lemma_filter_take_step(seq_views(items@), is_known_k(), i as int);
            assert(seq_views(items@)[i as int] == items@[i as int]@);
        }
        if !(items[i].id == AutoGen::Unknown) {
            out.push(items[i].id);
        }
        proof {
            let f = seq_views(items@).take(i as int).filter(is_known_k());
            let g = seq_views(items@).take(i as int + 1).filter(is_known_k());
            if is_known_k()(seq_views(items@)[i as int]) {
                assert(g == f.push(seq_views(items@)[i as int]));
                assert(g.map_values(|k: KonsepV| k.id) =~= f.map_values(|k: KonsepV| k.id).push(
                    items@[i as int]@.id,
                ));
            } else {
                assert(g == f);
            }
        }
        i = i + 1;
    }
    proof {
        assert(seq_views(items@).take(n as int) =~= seq_views(items@));
    }
    out
}

/// Builds the from-scratch modifications of the new concepts that have
/// no identifier yet, in input order.
fn collect_attached(other: &Vec<Konsep>) -> (r: Vec<KonsepMod>)
    ensures
        seq_views(r@) == konseps_attached(seq_views(other@)),
{
    let mut out: Vec<KonsepMod> = Vec::new();
    let n = other.len();
    let mut i: usize = 0;
    proof {
        assert(seq_views(other@).take(0) =~= Seq::<KonsepV>::empty());
        assert(seq_views(out@) =~= konseps_attached(seq_views(other@).take(0)));
    }
    while i < n
        invariant
            n == other@.len(),
            0 <= i <= n,
            seq_views(out@) == konseps_attached(seq_views(other@).take(i as int)),
        decreases n - i,
    {
        let ghost pre = seq_views(out@);
        proof {
            lemma_filter_take_step(seq_views(other@), is_unknown_k(), i as int);
            assert(seq_views(other@)[i as int] == other@[i as int]@);
        }
        if other[i].id == AutoGen::Unknown {
            out.push(KonsepMod::from_item(&other[i]));
            proof {
                let f = seq_views(other@).take(i as int).filter(is_unknown_k());
                assert(seq_views(out@) =~= pre.push(konsep_from_item(other@[i as int]@)));
                assert(f.push(other@[i as int]@).map_values(from_item_map()) =~= f.map_values(
                    from_item_map(),
                ).push(konsep_from_item(other@[i as int]@)));
            }
        }
        i = i + 1;
    }
    proof {
        assert(seq_views(other@).take(n as int) =~= seq_views(other@));
    }
    out
}

/// Builds the from-scratch modifications of the old concepts whose
/// identifier the new collection no longer lists, in input order.
fn collect_detached(old: &Vec<Konsep>, other_ids: &Vec<AutoGen>, Ghost(new_v): Ghost<Seq<KonsepV>>) -> (r: Vec<
    KonsepMod,
>)
    requires
        other_ids@ == known_ids(new_v),
    ensures
        seq_views(r@) == konseps_detached(seq_views(old@), new_v),
{
    let mut out: Vec<KonsepMod> = Vec::new();
    let n = old.len();
    let mut i: usize = 0;
    proof {
        assert(seq_views(old@).take(0) =~= Seq::<KonsepV>::empty());
        assert(seq_views(out@) =~= konseps_detached(seq_views(old@).take(0), new_v));
    }
    while i < n
        invariant
            n == old@.len(),
            0 <= i <= n,
            other_ids@ == known_ids(new_v),
            seq_views(out@) == konseps_detached(seq_views(old@).take(i as int), new_v),
        decreases n - i,
    {
        let ghost pre = seq_views(out@);
        proof {
            lemma_filter_take_step(seq_views(old@), dropped_from(new_v), i as int);
            assert(seq_views(old@)[i as int] == old@[i as int]@);
        }
        if !autogen_in(other_ids, old[i].id) {
            out.push(KonsepMod::from_item(&old[i]));
            proof {
                let f = seq_views(old@).take(i as int).filter(dropped_from(new_v));
                assert(seq_views(out@) =~= pre.push(konsep_from_item(old@[i as int]@)));
                assert(f.push(old@[i as int]@).map_values(from_item_map()) =~= f.map_values(
                    from_item_map(),
                ).push(konsep_from_item(old@[i as int]@)));
            }
        }
        i = i + 1;
    }
    proof {
        assert(seq_views(old@).take(n as int) =~= seq_views(old@));
    }
    out
}

/// Collects the old concepts whose identifier the new collection still
/// lists, in input order.
fn collect_kept(old: &Vec<Konsep>, other_ids: &Vec<AutoGen>, Ghost(new_v): Ghost<Seq<KonsepV>>) -> (r: Vec<
    Konsep,
>)
    requires
        other_ids@ == known_ids(new_v),
    ensures
        seq_views(r@) == seq_views(old@).filter(kept_in(new_v)),
{
    let mut out: Vec<Konsep> = Vec::new();
    let n = old.len();
    let mut i: usize = 0;
    proof {
        assert(seq_views(old@).take(0) =~= Seq::<KonsepV>::empty());
        assert(seq_views(out@) =~= seq_views(old@).take(0).filter(kept_in(new_v)));
    }
    while i < n
        invariant
            n == old@.len(),
            0 <= i <= n,
            other_ids@ == known_ids(new_v),
            seq_views(out@) == seq_views(old@).take(i as int).filter(kept_in(new_v)),
        decreases n - i,
    {
        let ghost pre = seq_views(out@);
        proof {
            lemma_filter_take_step(seq_views(old@), kept_in(new_v), i as int);
            assert(seq_views(old@)[i as int] == old@[i as int]@);
        }
        if autogen_in(other_ids, old[i].id) {
            out.push(old[i].clone());
            proof {
                assert(seq_views(out@) =~= pre.push(old@[i as int]@));
            }
        }
        i = i + 1;
    }
    proof {
        assert(seq_views(old@).take(n as int) =~= seq_views(old@));
    }
    out
}

/// Collects the new concepts that already have an identifier, in input
/// order.
fn collect_known(other: &Vec<Konsep>) -> (r: Vec<Konsep>)
    ensures
        seq_views(r@) == seq_views(other@).filter(is_known_k()),
{
    let mut out: Vec<Konsep> = Vec::new();
    let n = other.len();
    let mut i: usize = 0;
    proof {
        assert(seq_views(other@).take(0) =~= Seq::<KonsepV>::empty());
        assert(seq_views(out@) =~= seq_views(other@).take(0).filter(is_known_k()));
    }
    while i < n
        invariant
            n == other@.len(),
            0 <= i <= n,
            seq_views(out@) == seq_views(other@).take(i as int).filter(is_known_k()),
        decreases n - i,
    {
        let ghost pre = seq_views(out@);
        proof {
            lemma_filter_take_step(seq_views(other@), is_known_k(), i as int);
            assert(seq_views(other@)[i as int] == other@[i as int]@);
        }
        if !(other[i].id == AutoGen::Unknown) {
            out.push(other[i].clone());
            proof {
                assert(seq_views(out@) =~= pre.push(other@[i as int]@));
            }
        }
        i = i + 1;
    }
    proof {
        assert(seq_views(other@).take(n as int) =~= seq_views(other@));
    }
    out
}

/// Where the insertion point sits, the recursive insertion is a splice.
proof fn lemma_insert_sorted_at(s: Seq<KonsepV>, k: KonsepV, p: int)
    requires
        0 <= p <= s.len(),
        forall|q: int| 0 <= q < p ==> (#[trigger] s[q].id).spec_le(k.id),
        p < s.len() ==> !s[p].id.spec_le(k.id),
    ensures
        insert_sorted(s, k) == s.take(p) + seq![k] + s.skip(p),
    decreases s.len(),
{
    if s.len() == 0 {
        assert(insert_sorted(s, k) =~= s.take(p) + seq![k] + s.skip(p));
    } else if p == 0 {
        assert(insert_sorted(s, k) =~= s.take(0) + seq![k] + s.skip(0));
    } else {
        assert(s[0].id.spec_le(k.id));
        assert forall|q: int| 0 <= q < p - 1 implies (#[trigger] s.drop_first()[q].id).spec_le(
            k.id,
        ) by {
            assert(s.drop_first()[q] == s[q + 1]);
        }
        assert(p - 1 < s.drop_first().len() ==> !s.drop_first()[p - 1].id.spec_le(k.id));
        lemma_insert_sorted_at(s.drop_first(), k, p - 1);
        assert(insert_sorted(s, k) =~= s.take(p) + seq![k] + s.skip(p));
    }
}

/// Inserts a concept into a collection kept sorted by identifier.
fn insert_konsep_by_id(out: &mut Vec<Konsep>, k: Konsep)
    ensures
        seq_views(final(out)@) == insert_sorted(seq_views(old(out)@), k@),
{
    let n = out.len();
    let mut p: usize = 0;
    while p < n && out[p].id.le(&k.id)
        invariant
            n == out@.len(),
            0 <= p <= n,
            *out == *old(out),
            forall|q: int| 0 <= q < p ==> (#[trigger] seq_views(out@)[q].id).spec_le(k@.id),
        decreases n - p,
    {
        proof {
            assert(seq_views(out@)[p as int] == out@[p as int]@);
        }
        p = p + 1;
    }
    proof {
        assert(p < n ==> !seq_views(out@)[p as int].id.spec_le(k@.id));
        lemma_insert_sorted_at(seq_views(out@), k@, p as int);
    }
    let ghost pre = seq_views(out@);
    out.insert(p, k);
    proof {
        assert(seq_views(out@) =~= pre.take(p as int) + seq![k@] + pre.skip(p as int));
    }
}

/// Sorts a collection of concepts by identifier, stably.
fn sort_konseps_by_id(v: Vec<Konsep>) -> (r: Vec<Konsep>)
    ensures
        seq_views(r@) == sort_by_id(seq_views(v@)),
{
    let mut out: Vec<Konsep> = Vec::new();
    let n = v.len();
    let mut i: usize = 0;
    proof {
        assert(seq_views(v@).take(0) =~= Seq::<KonsepV>::empty());
        assert(seq_views(out@) =~= sort_by_id(seq_views(v@).take(0)));
    }
    while i < n
        invariant
            n == v@.len(),
            0 <= i <= n,
            seq_views(out@) == sort_by_id(seq_views(v@).take(i as int)),
        decreases n - i,
    {
        let ghost pre = seq_views(out@);
        insert_konsep_by_id(&mut out, v[i].clone());
        proof {
            let t = seq_views(v@).take(i as int + 1);
            assert(t.drop_last() =~= seq_views(v@).take(i as int));
            assert(t.last() == v@[i as int]@);
            assert(sort_by_id(t) == insert_sorted(pre, v@[i as int]@));
        }
        i = i + 1;
    }
    proof {
        assert(seq_views(v@).take(n as int) =~= seq_views(v@));
    }
    out
}

/// Relates an executable `modified`-bucket result to its specification.
pub open spec fn mods_result_matches(r: Result<Vec<KonsepMod>, DiffError>, s: Result<
    Seq<KonsepModV>,
    DiffError,
>) -> bool {
    match r {
        Ok(v) => s matches Ok(sv) && seq_views(v@) == sv,
        Err(e) => s matches Err(se) && e == se,
    }
}

impl CompareAttachable<Konsep, KonsepMod> for Lemma {
    /// The entry's current concepts.
    fn items(&self) -> (r: Vec<Konsep>) {
        clone_konseps(&self.konseps)
    }

    /// The new concepts with no identifier yet, each as a from-scratch
    /// modification.
    fn find_attached(&self, other: &Vec<Konsep>) -> (r: Vec<KonsepMod>)
        ensures
            seq_views(r@) == konseps_attached(seq_views(other@)),
    {
        collect_attached(other)
    }

    /// The old concepts whose identifier the new collection no longer
    /// lists, each as a from-scratch modification.
    fn find_detached(&self, other: &Vec<Konsep>) -> (r: Vec<KonsepMod>)
        ensures
            seq_views(r@) == konseps_detached(self@.konseps, seq_views(other@)),
    {
        let other_ids = collect_known_ids(other);
        collect_detached(&self.konseps, &other_ids, Ghost(seq_views(other@)))
    }

    /// The pairwise diffs of the concepts present on both sides, paired
    /// by identifier after sorting, or the failure that makes the
    /// pairing impossible.
    fn find_modified(&self, other: &Vec<Konsep>) -> (r: Result<Vec<KonsepMod>, DiffError>)
        ensures
            mods_result_matches(r, konseps_modified(self@.konseps, seq_views(other@))),
    {
        let other_ids = collect_known_ids(other);
        let kept = sort_konseps_by_id(
            collect_kept(&self.konseps, &other_ids, Ghost(seq_views(other@))),
        );
        let known = sort_konseps_by_id(collect_known(other));
        if kept.len() != known.len() {
            return Err(DiffError::PairingCardinalityMismatch);
        }
        let ghost ka = seq_views(kept@);
        let ghost kb = seq_views(known@);
        let mut out: Vec<KonsepMod> = Vec::new();
        let n = kept.len();
        let mut i: usize = 0;
        proof {
            assert(ka.skip(0) =~= ka);
            assert(kb.skip(0) =~= kb);
            let whole = zip_diff(ka, kb);
            if whole is Ok {
                assert(Seq::<KonsepModV>::empty() + whole->Ok_0 =~= whole->Ok_0);
            }
        }
        while i < n
            invariant
                n == kept@.len(),
                n == known@.len(),
                0 <= i <= n,
                ka == seq_views(kept@),
                kb == seq_views(known@),
                ka == sort_by_id(self@.konseps.filter(kept_in(seq_views(other@)))),
                kb == sort_by_id(seq_views(other@).filter(is_known_k())),
                ka.len() == kb.len(),
                (match zip_diff(ka.skip(i as int), kb.skip(i as int)) {
                    Ok(t) => zip_diff(ka, kb) == Ok::<_, DiffError>(seq_views(out@) + t),
                    Err(e) => zip_diff(ka, kb) == Err::<Seq<KonsepModV>, _>(e),
                }),
            decreases n - i,
        {
            proof {
                assert(ka.skip(i as int).len() > 0);
                assert(ka.skip(i as int)[0] == ka[i as int]);
                assert(kb.skip(i as int)[0] == kb[i as int]);
                assert(ka.skip(i as int).drop_first() =~= ka.skip(i as int + 1));
                assert(kb.skip(i as int).drop_first() =~= kb.skip(i as int + 1));
                assert(ka[i as int] == kept@[i as int]@);
                assert(kb[i as int] == known@[i as int]@);
            }
            let ghost pre = seq_views(out@);
            match kept[i].modify_into(&known[i]) {
                Ok(m) => {
                    out.push(m);
                    proof {
                        assert(seq_views(out@) =~= pre.push(
                            konsep_diff(ka[i as int], kb[i as int])->Ok_0,
                        ));
                        let rest = zip_diff(ka.skip(i as int + 1), kb.skip(i as int + 1));
                        if rest is Ok {
                            assert((pre + (seq![
                                konsep_diff(ka[i as int], kb[i as int])->Ok_0,
                            ] + rest->Ok_0)) =~= (seq_views(out@) + rest->Ok_0));
                        }
                    }
                },
                Err(e) => {
                    return Err(e);
                },
            }
            i = i + 1;
        }
        proof {
            assert(ka.skip(n as int) =~= Seq::<KonsepV>::empty());
            assert(zip_diff(ka.skip(n as int), kb.skip(n as int)) == Ok::<_, DiffError>(
                Seq::<KonsepModV>::empty(),
            ));
            assert(seq_views(out@) + Seq::<KonsepModV>::empty() =~= seq_views(out@));
        }
        Ok(out)
    }

    /// The full diff of this entry's concepts against `other`.
    fn compare_attachment(&self, other: Vec<Konsep>) -> (r: Result<
        AttachmentMod<KonsepMod>,
        DiffError,
    >)
        ensures
            diff_result_matches(r, konseps_diff(self@.konseps, seq_views(other@))),
    {
        let modified = match self.find_modified(&other) {
            Ok(v) => v,
            Err(e) => {
                return Err(e);
            },
        };
        let am = AttachmentMod {
            attached: self.find_attached(&other),
            detached: self.find_detached(&other),
            modified,
        };
        proof {
            assert(am@ =~= konseps_diff(self@.konseps, seq_views(other@))->Ok_0);
        }
        Ok(am)
    }
}

impl Item for Lemma {
    type IntoMod = LemmaMod;

    /// Diffs this entry (the old state) against `other` (the desired
    /// state), exactly as [`lemma_diff`] describes.
    fn modify_into(&self, other: &Self) -> (r: Result<LemmaMod, DiffError>)
        ensures
            diff_result_matches(r, lemma_diff(self@, other@)),
    {
        if self.id != other.id {
            return Err(DiffError::IdentityMismatch);
        }
        let konseps = match self.compare_attachment(clone_konseps(&other.konseps)) {
            Ok(am) => am,
            Err(e) => {
                return Err(e);
            },
        };
        let m = LemmaMod {
            id: self.id,
            lemma: FieldMod::compare(self.lemma.clone(), other.lemma.clone()),
            konseps,
        };
        proof {
            assert(m@ =~= lemma_diff(self@, other@)->Ok_0);
        }
        Ok(m)
    }

    /// Rebuilds the shallow entry a modification describes: the headword
    /// from the carried value, the concept collection empty.
    fn partial_from_mod(other: &LemmaMod) -> (r: Self)
        ensures
            r@ == lemma_partial(other@),
    {
        let r = Lemma {
            id: other.id,
            lemma: other.lemma.value().clone(),
            konseps: Vec::new(),
        };
        proof {
            assert(r@ =~= lemma_partial(other@));
        }
        r
    }
}

impl ItemMod for LemmaMod {
    type FromItem = Lemma;

    /// The default modification of a fresh entry: the headword
    /// unchanged, every concept newly attached from scratch.
    fn from_item(value: &Lemma) -> (r: Self)
        ensures
            r@ == lemma_from_item(value@),
    {
        let mut attached: Vec<KonsepMod> = Vec::new();
        let n = value.konseps.len();
        let mut i: usize = 0;
        proof {
            assert(seq_views(value.konseps@).take(0) =~= Seq::<KonsepV>::empty());
            assert(seq_views(attached@) =~= seq_views(value.konseps@).take(0).map_values(
                from_item_map(),
            ));
        }
        while i < n
            invariant
                n == value.konseps@.len(),
                0 <= i <= n,
                seq_views(attached@) == seq_views(value.konseps@).take(i as int).map_values(
                    from_item_map(),
                ),
            decreases n - i,
        {
            let ghost pre = seq_views(attached@);
            attached.push(KonsepMod::from_item(&value.konseps[i]));
            proof {
                assert(seq_views(attached@) =~= pre.push(
                    konsep_from_item(value.konseps@[i as int]@),
                ));
                assert(seq_views(value.konseps@).take(i as int + 1).map_values(from_item_map())
                    =~= pre.push(konsep_from_item(value.konseps@[i as int]@)));
            }
            i = i + 1;
        }
        proof {
            assert(seq_views(value.konseps@).take(n as int) =~= seq_views(value.konseps@));
        }
        let r = LemmaMod {
            id: value.id,
            lemma: FieldMod::Fixed(value.lemma.clone()),
            konseps: AttachmentMod { attached, detached: Vec::new(), modified: Vec::new() },
        };
        proof {
            assert(r@ =~= lemma_from_item(value@));
        }
        r
    }
}

impl SubmitMod for LemmaMod {
    /// The full submission plan: insert the entry row if absent, then
    /// submit the concept change set against the entry.
    open spec fn mod_plan(self) -> Result<Seq<DbOp>, DiffError> {
        let head = seq![DbOp::InsertLemma { id: self.id, nama: self.lemma.spec_value() }];
        match changes_plan(self.konseps, (self.id, self.lemma.spec_value())) {
            Ok(t) => Ok(head + t),
            Err(e) => Err(e),
        }
    }

    fn submit_mod(&self) -> (r: Result<Vec<DbOp>, DiffError>) {
        let nama = self.lemma.value().clone();
        let mut ops: Vec<DbOp> = Vec::new();
        ops.push(DbOp::InsertLemma { id: self.id, nama: nama.clone() });
        let ghost head = ops@;
        let parent = (self.id, nama);
        let mut t = match self.konseps.submit_changes_with(&parent) {
            Ok(v) => v,
            Err(e) => {
                return Err(e);
            },
        };
        let ghost ts = t@;
        ops.append(&mut t);
        proof {
            assert(head =~= seq![
                DbOp::InsertLemma { id: self.id, nama: self.lemma.spec_value() },
            ]);
            assert((*self).mod_plan() matches Ok(p) && p == head + ts);
        }
        Ok(ops)
    }
}

impl Lemma {
    /// The plan that inserts the entry row alone, if absent.
    pub open spec fn partial_plan(self) -> Seq<DbOp> {
        seq![DbOp::InsertLemma { id: self.id, nama: self.lemma }]
    }

    /// Builds the plan that inserts the entry row with no children.
    pub fn submit_partial(&self) -> (r: Vec<DbOp>)
        ensures
            r@ == self.partial_plan(),
    {
        let mut ops: Vec<DbOp> = Vec::new();
        ops.push(DbOp::InsertLemma { id: self.id, nama: self.lemma.clone() });
        proof {
            assert(ops@ =~= self.partial_plan());
        }
        ops
    }

    /// The plan that deletes the entry row alone.
    pub open spec fn partial_removal_plan(self) -> Seq<DbOp> {
        seq![DbOp::DeleteLemma { id: self.id, nama: self.lemma }]
    }

    /// Builds the plan that deletes the entry row with no children
    /// affected.
    pub fn submit_partial_removal(&self) -> (r: Vec<DbOp>)
        ensures
            r@ == self.partial_removal_plan(),
    {
        let mut ops: Vec<DbOp> = Vec::new();
        ops.push(DbOp::DeleteLemma { id: self.id, nama: self.lemma.clone() });
        proof {
            assert(ops@ =~= self.partial_removal_plan());
        }
        ops
    }

    /// The plan that attaches one concept, taken as it is, under an
    /// entry: insert its row, then attach all its tags.
    pub open spec fn item_attach_plan(k: Konsep, parent: (AutoGen, String)) -> Result<
        Seq<DbOp>,
        DiffError,
    > {
        let head = seq![
            DbOp::InsertKonsep {
                keterangan: k.keterangan,
                lemma: parent.1,
                golongan_kata: k.golongan_kata,
            },
        ];
        match phase_plan(k.cakupans@, k.keterangan, PlanPhase::Attach) {
            Ok(c) => match phase_plan(k.kata_asing@, k.keterangan, PlanPhase::Attach) {
                Ok(ka) => Ok(head + c + ka),
                Err(e) => Err(e),
            },
            Err(e) => Err(e),
        }
    }

    /// The plan that attaches a whole concept collection under an entry,
    /// concept by concept in collection order, stopping at the first
    /// failure.
    pub open spec fn items_attach_plan(ks: Seq<Konsep>, parent: (AutoGen, String)) -> Result<
        Seq<DbOp>,
        DiffError,
    >
        decreases ks.len(),
    {
        if ks.len() == 0 {
            Ok(Seq::empty())
        } else {
            match Self::item_attach_plan(ks[0], parent) {
                Ok(head) => match Self::items_attach_plan(ks.drop_first(), parent) {
                    Ok(tail) => Ok(head + tail),
                    Err(e) => Err(e),
                },
                Err(e) => Err(e),
            }
        }
    }

    /// The plan that inserts the entry row and attaches every concept
    /// with all its tags.
    pub open spec fn full_plan(self) -> Result<Seq<DbOp>, DiffError> {
        match Self::items_attach_plan(self.konseps@, (self.id, self.lemma)) {
            Ok(t) => Ok(self.partial_plan() + t),
            Err(e) => Err(e),
        }
    }

    /// Builds the plan that inserts the entry together with its
    /// concepts and their tags.
    pub fn submit_full(&self) -> (r: Result<Vec<DbOp>, DiffError>)
        ensures
            plan_matches(r, self.full_plan()),
    {
        let mut ops = self.submit_partial();
        let ghost head = ops@;
        let parent = (self.id, self.lemma.clone());
        let n = self.konseps.len();
        let mut i: usize = 0;
        proof {
            assert(self.konseps@.skip(0) =~= self.konseps@);
            let whole = Self::items_attach_plan(self.konseps@, (self.id, self.lemma));
            if whole is Ok {
                assert(Seq::<DbOp>::empty() + whole->Ok_0 =~= whole->Ok_0);
            }
        }
        while i < n
            invariant
                n == self.konseps@.len(),
                0 <= i <= n,
                parent == (self.id, self.lemma),
                head == self.partial_plan(),
                ops@.len() >= head.len(),
                head == ops@.take(head.len() as int),
                (match Self::items_attach_plan(self.konseps@.skip(i as int), parent) {
                    Ok(t) => Self::items_attach_plan(self.konseps@, parent) == Ok::<
                        _,
                        DiffError,
                    >(ops@.skip(head.len() as int) + t),
                    Err(e) => Self::items_attach_plan(self.konseps@, parent) == Err::<
                        Seq<DbOp>,
                        _,
                    >(e),
                }),
            decreases n - i,
        {
            proof {
                assert(self.konseps@.skip(i as int).len() > 0);
                assert(self.konseps@.skip(i as int)[0] == self.konseps@[i as int]);
                assert(self.konseps@.skip(i as int).drop_first() =~= self.konseps@.skip(
                    i as int + 1,
                ));
            }
            let m = KonsepMod::from_item(&self.konseps[i]);
            let ghost k = self.konseps@[i as int];
            proof {
                lemma_item_mod_plan_agrees(m, k, parent);
            }
            match m.submit_attachment_to(&parent) {
                Ok(mut v) => {
                    let ghost pre = ops@;
                    let ghost vs = v@;
                    ops.append(&mut v);
                    proof {
                        assert(ops@.take(head.len() as int) =~= head);
                        let rest = Self::items_attach_plan(self.konseps@.skip(i as int + 1), parent);
                        if rest is Ok {
                            assert((pre.skip(head.len() as int) + vs) + rest->Ok_0 =~= pre.skip(
                                head.len() as int,
                            ) + (vs + rest->Ok_0));
                            assert(ops@.skip(head.len() as int) =~= pre.skip(head.len() as int)
                                + vs);
                        }
                    }
                },
                Err(e) => {
                    return Err(e);
                },
            }
            i = i + 1;
        }
        proof {
            assert(self.konseps@.skip(n as int) =~= Seq::<Konsep>::empty());
            assert(Self::items_attach_plan(self.konseps@.skip(n as int), parent) == Ok::<
                _,
                DiffError,
            >(Seq::<DbOp>::empty()));
            assert(ops@.skip(head.len() as int) + Seq::<DbOp>::empty() =~= ops@.skip(
                head.len() as int,
            ));
            assert(ops@ =~= head + ops@.skip(head.len() as int));
        }
        Ok(ops)
    }
}

/// The from-scratch modification of a concept plans the same attachment
/// as the concept itself: the detach and modify phases of its change
/// sets are empty and contribute nothing.
proof fn lemma_item_mod_plan_agrees(m: KonsepMod, k: Konsep, parent: (AutoGen, String))
    requires
        m.keterangan == FieldMod::Fixed::<String>(k.keterangan),
        m.golongan_kata == FieldMod::Fixed::<String>(k.golongan_kata),
        m.cakupans.attached@ == k.cakupans@,
        m.cakupans.detached@.len() == 0,
        m.cakupans.modified@.len() == 0,
        m.kata_asing.attached@ == k.kata_asing@,
        m.kata_asing.detached@.len() == 0,
        m.kata_asing.modified@.len() == 0,
    ensures
        m.attach_plan(parent) == Lemma::item_attach_plan(k, parent),
{
    let ket = m.keterangan.spec_value();
    assert(ket == k.keterangan);
    assert(m.golongan_kata.spec_value() == k.golongan_kata);
    assert(m.cakupans.detached@ =~= Seq::<Cakupan>::empty());
    assert(m.cakupans.modified@ =~= Seq::<Cakupan>::empty());
    assert(m.kata_asing.detached@ =~= Seq::<KataAsing>::empty());
    assert(m.kata_asing.modified@ =~= Seq::<KataAsing>::empty());
    let ca = phase_plan(k.cakupans@, ket, PlanPhase::Attach);
    let kaa = phase_plan(k.kata_asing@, ket, PlanPhase::Attach);
    assert(phase_plan(m.cakupans.detached@, ket, PlanPhase::Detach) == Ok::<_, DiffError>(
        Seq::<DbOp>::empty(),
    ));
    assert(phase_plan(m.cakupans.modified@, ket, PlanPhase::Modify) == Ok::<_, DiffError>(
        Seq::<DbOp>::empty(),
    ));
    assert(phase_plan(m.kata_asing.detached@, ket, PlanPhase::Detach) == Ok::<_, DiffError>(
        Seq::<DbOp>::empty(),
    ));
    assert(phase_plan(m.kata_asing.modified@, ket, PlanPhase::Modify) == Ok::<_, DiffError>(
        Seq::<DbOp>::empty(),
    ));
    if ca is Ok {
        assert(changes_plan(m.cakupans, ket) == Ok::<_, DiffError>(
            (ca->Ok_0 + Seq::<DbOp>::empty()) + Seq::<DbOp>::empty(),
        ));
        assert((ca->Ok_0 + Seq::<DbOp>::empty()) + Seq::<DbOp>::empty() =~= ca->Ok_0);
        if kaa is Ok {
            assert(changes_plan(m.kata_asing, ket) == Ok::<_, DiffError>(
                (kaa->Ok_0 + Seq::<DbOp>::empty()) + Seq::<DbOp>::empty(),
            ));
            assert((kaa->Ok_0 + Seq::<DbOp>::empty()) + Seq::<DbOp>::empty() =~= kaa->Ok_0);
        }
    }
}

} // verus!
