//! The laws the diffing engine obeys, stated and proved over the
//! mathematical model that the executable contracts are written
//! against.

use vstd::prelude::*;

use crate::changes::diff_tags;
use crate::changes::lemma_filter_all_false;
use crate::changes::lemma_filter_all_true;
use crate::errors::DiffError;
use crate::items::konsep::konsep_diff;
use crate::items::konsep::konsep_from_item;
use crate::items::konsep::konsep_partial;
use crate::items::konsep::KonsepModV;
use crate::items::konsep::KonsepV;
use crate::items::lemma::from_item_map;
use crate::items::lemma::insert_sorted;
use crate::items::lemma::is_known_k;
use crate::items::lemma::is_unknown_k;
use crate::items::lemma::kept_in;
use crate::items::lemma::known_ids;
use crate::items::lemma::konseps_attached;
use crate::items::lemma::LemmaModV;
use crate::items::lemma::konseps_detached;
use crate::items::lemma::konseps_diff;
use crate::items::lemma::konseps_modified;
use crate::items::lemma::lemma_diff;
use crate::items::lemma::lemma_partial;
use crate::items::lemma::sort_by_id;
use crate::items::lemma::zip_diff;
use crate::items::lemma::LemmaV;
use crate::metatype::AutoGen;

verus! {

/// Diffing a value-identity collection against itself attaches and
/// detaches nothing.
pub proof fn lemma_diff_tags_self<V>(s: Seq<V>)
    ensures
        diff_tags(s, s).no_attach_detach(),
        diff_tags(s, s).modified.len() == 0,
{
    assert forall|i: int| 0 <= i < s.len() implies !(crate::changes::not_in(s)(#[trigger] s[i])) by {
        assert(s.contains(s[i]));
    }
    lemma_filter_all_false(s, crate::changes::not_in(s));
}

/// The attached and detached buckets of a value-identity diff never
/// share a value: attached values are present only in the new
/// collection, detached values only in the old one.
pub proof fn lemma_diff_tags_disjoint<V>(old: Seq<V>, new: Seq<V>)
    ensures
        forall|v: V|
            #[trigger] diff_tags(old, new).attached.contains(v) ==> !diff_tags(
                old,
                new,
            ).detached.contains(v),
{
    let d = diff_tags(old, new);
    assert forall|v: V| #[trigger] d.attached.contains(v) implies !d.detached.contains(v) by {
        let i = choose|i: int| 0 <= i < d.attached.len() && d.attached[i] == v;
        new.lemma_filter_pred(crate::changes::not_in(old), i);
        assert(!old.contains(v));
        if d.detached.contains(v) {
            old.lemma_filter_contains_rev(crate::changes::not_in(new), v);
        }
    }
}

/// Diffing a concept against itself yields a modification that changes
/// nothing: both scalar fields unchanged, no tag attached or detached.
pub proof fn lemma_konsep_diff_self_is_noop(k: KonsepV)
    ensures
        konsep_diff(k, k) matches Ok(m) && m.is_noop(),
{
    lemma_diff_tags_self(k.cakupans);
    lemma_diff_tags_self(k.kata_asing);
}

/// Pairwise diffing a concept sequence against itself succeeds and
/// yields only no-op modifications.
proof fn lemma_zip_diff_self_is_noop(s: Seq<KonsepV>)
    ensures
        zip_diff(s, s) matches Ok(ms) && ms.len() == s.len() && (forall|i: int|
            0 <= i < ms.len() ==> (#[trigger] ms[i]).is_noop()),
    decreases s.len(),
{
    if s.len() > 0 {
        lemma_konsep_diff_self_is_noop(s[0]);
        lemma_zip_diff_self_is_noop(s.drop_first());
    }
}

/// Diffing an entry against itself is a no-op: the diff succeeds, the
/// headword is unchanged, no concept is attached or detached, and every
/// paired concept modification changes nothing.  The entry's concepts
/// must already carry their database identifiers, as an entry read back
/// from storage does; a concept still waiting for its identifier would
/// be indistinguishable from a brand-new one.
pub proof fn lemma_diff_self_is_noop(e: LemmaV)
    requires
        forall|i: int| 0 <= i < e.konseps.len() ==> (#[trigger] e.konseps[i]).id
            != AutoGen::Unknown,
    ensures
        lemma_diff(e, e) matches Ok(m) && {
            &&& m.lemma.is_fixed()
            &&& m.konseps.no_attach_detach()
            &&& forall|i: int|
                0 <= i < m.konseps.modified.len() ==> (#[trigger] m.konseps.modified[i]).is_noop()
        },
{
    let ks = e.konseps;
    // Nothing is newly attached: no concept has an unknown identifier.
    assert forall|i: int| 0 <= i < ks.len() implies !(is_unknown_k()(#[trigger] ks[i])) by {}
    lemma_filter_all_false(ks, is_unknown_k());
    assert(konseps_attached(ks) =~= Seq::<KonsepModV>::empty());
    // Every concept keeps its identifier, so every identifier is known
    // again on the new side and nothing is detached.
    assert forall|i: int| 0 <= i < ks.len() implies is_known_k()(#[trigger] ks[i]) by {}
    lemma_filter_all_true(ks, is_known_k());
    assert(ks.filter(is_known_k()).map_values(|k: KonsepV| k.id) =~= ks.map_values(
        |k: KonsepV| k.id,
    ));
    assert forall|i: int| 0 <= i < ks.len() implies known_ids(ks).contains(
        (#[trigger] ks[i]).id,
    ) by {
        assert(ks.map_values(|k: KonsepV| k.id)[i] == ks[i].id);
    }
    assert forall|i: int| 0 <= i < ks.len() implies !(crate::items::lemma::dropped_from(ks)(
        #[trigger] ks[i],
    )) by {}
    lemma_filter_all_false(ks, crate::items::lemma::dropped_from(ks));
    assert(konseps_detached(ks, ks) =~= Seq::<KonsepModV>::empty());
    // The modified bucket pairs the same sorted sequence with itself.
    assert forall|i: int| 0 <= i < ks.len() implies (kept_in(ks)(#[trigger] ks[i])) by {}
    lemma_filter_all_true(ks, kept_in(ks));
    assert(ks.filter(kept_in(ks)) == ks);
    assert(ks.filter(is_known_k()) == ks);
    lemma_zip_diff_self_is_noop(sort_by_id(ks));
    assert(konseps_modified(ks, ks) is Ok);
    assert(konseps_diff(ks, ks) is Ok);
}

/// Diffing two entries with different identities fails with the
/// identity-mismatch error, whether the identities are both known or
/// only one of them is.
pub proof fn lemma_diff_identity_mismatch(old: LemmaV, new: LemmaV)
    requires
        old.id != new.id,
    ensures
        lemma_diff(old, new) == Err::<LemmaModV, DiffError>(DiffError::IdentityMismatch),
{
}

/// A successful diff rebuilds the new entry's own scalar fields: the
/// shallow entry read back from the modification carries the new
/// headword and the shared identity, and its concept collection is
/// intentionally empty.
pub proof fn lemma_partial_rebuilds_new_scalars(old: LemmaV, new: LemmaV)
    requires
        lemma_diff(old, new) is Ok,
    ensures
        lemma_partial(lemma_diff(old, new)->Ok_0).id == new.id,
        lemma_partial(lemma_diff(old, new)->Ok_0).lemma == new.lemma,
        lemma_partial(lemma_diff(old, new)->Ok_0).konseps == Seq::<KonsepV>::empty(),
{
}

/// The concept-level round trip: a successful diff rebuilds the new
/// concept's own scalar fields, with the tag collections intentionally
/// empty.
pub proof fn lemma_konsep_partial_rebuilds_new_scalars(old: KonsepV, new: KonsepV)
    requires
        konsep_diff(old, new) is Ok,
    ensures
        konsep_partial(konsep_diff(old, new)->Ok_0).id == new.id,
        konsep_partial(konsep_diff(old, new)->Ok_0).keterangan == new.keterangan,
        konsep_partial(konsep_diff(old, new)->Ok_0).golongan_kata == new.golongan_kata,
        konsep_partial(konsep_diff(old, new)->Ok_0).cakupans == Seq::<Seq<char>>::empty(),
        konsep_partial(konsep_diff(old, new)->Ok_0).kata_asing == Seq::<(Seq<char>, Seq<char>)>::empty(),
{
}

/// Every newly attached concept of a successful diff is the from-scratch
/// modification of a new concept that has no identifier yet: its nested
/// change sets attach the concept's whole tag collections and detach or
/// modify nothing.
pub proof fn lemma_fresh_children_fully_attached(old: Seq<KonsepV>, new: Seq<KonsepV>)
    requires
        konseps_diff(old, new) is Ok,
    ensures
        forall|i: int|
            0 <= i < konseps_diff(old, new)->Ok_0.attached.len() ==> fresh_attachment(
                new,
                #[trigger] konseps_diff(old, new)->Ok_0.attached[i],
            ),
{
    let fresh = new.filter(is_unknown_k());
    let am = konseps_diff(old, new)->Ok_0;
    assert(am.attached == fresh.map_values(from_item_map()));
    assert forall|i: int| 0 <= i < am.attached.len() implies fresh_attachment(
        new,
        #[trigger] am.attached[i],
    ) by {
        assert(am.attached[i] == konsep_from_item(fresh[i]));
        new.lemma_filter_pred(is_unknown_k(), i);
        assert(fresh.contains(fresh[i]));
        new.lemma_filter_contains_rev(is_unknown_k(), fresh[i]);
        let j = choose|j: int| 0 <= j < new.len() && new[j] == fresh[i];
        assert(fresh[i].id == AutoGen::Unknown);
        assert(konsep_from_item(fresh[i]).cakupans.attached == fresh[i].cakupans);
    }
}

/// Whether some concept of the sequence carries this identifier.
pub open spec fn has_id(s: Seq<KonsepV>, x: AutoGen) -> bool {
    exists|i: int| 0 <= i < s.len() && (#[trigger] s[i]).id == x
}

/// Whether no two concepts of the sequence share an identifier.
pub open spec fn unique_ids(s: Seq<KonsepV>) -> bool {
    forall|i: int, j: int|
        0 <= i < j < s.len() ==> (#[trigger] s[i]).id != (#[trigger] s[j]).id
}

/// Whether the sequence is ordered by identifier.
pub open spec fn sorted_ids(s: Seq<KonsepV>) -> bool {
    forall|i: int, j: int|
        0 <= i < j < s.len() ==> (#[trigger] s[i]).id.spec_le((#[trigger] s[j]).id)
}

/// Identifier membership distributes over concatenation.
proof fn lemma_has_id_concat(a: Seq<KonsepV>, b: Seq<KonsepV>)
    ensures
        forall|x: AutoGen| #[trigger] has_id(a + b, x) <==> (has_id(a, x) || has_id(b, x)),
{
    assert forall|x: AutoGen| #[trigger] has_id(a + b, x) implies (has_id(a, x) || has_id(
        b,
        x,
    )) by {
        let i = choose|i: int| 0 <= i < (a + b).len() && (a + b)[i].id == x;
        if i < a.len() {
            assert(a[i].id == x);
        } else {
            assert(b[i - a.len()].id == x);
        }
    }
    assert forall|x: AutoGen| (has_id(a, x) || has_id(b, x)) implies #[trigger] has_id(
        a + b,
        x,
    ) by {
        if has_id(a, x) {
            let i = choose|i: int| 0 <= i < a.len() && a[i].id == x;
            assert((a + b)[i].id == x);
        } else {
            let i = choose|i: int| 0 <= i < b.len() && b[i].id == x;
            assert((a + b)[a.len() + i].id == x);
        }
    }
}

/// What sorted insertion does to length, identifier membership, element
/// membership and ordering.
proof fn lemma_insert_sorted_props(s: Seq<KonsepV>, k: KonsepV)
    ensures
        insert_sorted(s, k).len() == s.len() + 1,
        forall|x: AutoGen| #[trigger] has_id(insert_sorted(s, k), x) <==> (has_id(s, x) || k.id
            == x),
        forall|j: int|
            0 <= j < insert_sorted(s, k).len() ==> (insert_sorted(s, k)[j] == k || s.contains(
                #[trigger] insert_sorted(s, k)[j],
            )),
        sorted_ids(s) ==> sorted_ids(insert_sorted(s, k)),
    decreases s.len(),
{
    let t = insert_sorted(s, k);
    crate::metatype::lemma_autogen_le_total_order();
    if s.len() == 0 {
        assert(t =~= seq![k]);
        assert forall|x: AutoGen| #[trigger] has_id(t, x) implies (has_id(s, x) || k.id == x) by {
            let i = choose|i: int| 0 <= i < t.len() && t[i].id == x;
            assert(t[0] == k);
        }
        assert(t[0] == k);
        assert(k.id == k.id);
        assert forall|x: AutoGen| (has_id(s, x) || k.id == x) implies #[trigger] has_id(t, x) by {
            assert(t[0].id == k.id);
        }
    } else if !s[0].id.spec_le(k.id) {
        assert(t == seq![k] + s);
        lemma_has_id_concat(seq![k], s);
        assert forall|x: AutoGen| #[trigger] has_id(seq![k], x) <==> k.id == x by {
            if has_id(seq![k], x) {
                let i = choose|i: int| 0 <= i < 1 && seq![k][i].id == x;
                assert(seq![k][0] == k);
            }
            if k.id == x {
                assert(seq![k][0].id == x);
            }
        }
        assert forall|j: int| 0 <= j < t.len() implies (t[j] == k || s.contains(
            #[trigger] t[j],
        )) by {
            if j > 0 {
                assert(t[j] == s[j - 1]);
            }
        }
        if sorted_ids(s) {
            assert forall|i: int, j: int| 0 <= i < j < t.len() implies (
            #[trigger] t[i].id).spec_le((#[trigger] t[j].id)) by {
                if i == 0 {
                    assert(k.id.spec_le(s[0].id));
                    if j > 1 {
                        assert(s[0].id.spec_le(s[j - 1].id));
                    }
                } else {
                    assert(t[i] == s[i - 1] && t[j] == s[j - 1]);
                }
            }
        }
    } else {
        let rest = insert_sorted(s.drop_first(), k);
        lemma_insert_sorted_props(s.drop_first(), k);
        assert(t == seq![s[0]] + rest);
        lemma_has_id_concat(seq![s[0]], rest);
        assert forall|x: AutoGen| #[trigger] has_id(seq![s[0]], x) <==> s[0].id == x by {
            if has_id(seq![s[0]], x) {
                let i = choose|i: int| 0 <= i < 1 && seq![s[0]][i].id == x;
            }
            if s[0].id == x {
                assert(seq![s[0]][0].id == x);
            }
        }
        assert forall|x: AutoGen| #[trigger] has_id(s, x) <==> (s[0].id == x || has_id(
            s.drop_first(),
            x,
        )) by {
            assert(s =~= seq![s[0]] + s.drop_first());
            lemma_has_id_concat(seq![s[0]], s.drop_first());
            if has_id(seq![s[0]], x) {
                let i = choose|i: int| 0 <= i < 1 && seq![s[0]][i].id == x;
            }
            if s[0].id == x {
                assert(seq![s[0]][0].id == x);
            }
        }
        assert forall|j: int| 0 <= j < t.len() implies (t[j] == k || s.contains(
            #[trigger] t[j],
        )) by {
            if j == 0 {
                assert(s.contains(s[0]));
            } else {
                assert(t[j] == rest[j - 1]);
                if rest[j - 1] == k {
                } else {
                    assert(s.drop_first().contains(rest[j - 1]));
                    let i = choose|i: int|
                        0 <= i < s.drop_first().len() && s.drop_first()[i] == rest[j - 1];
                    assert(s[i + 1] == rest[j - 1]);
                }
            }
        }
        if sorted_ids(s) {
            assert forall|i: int, j: int|
                0 <= i < j < s.drop_first().len() implies (
            #[trigger] s.drop_first()[i].id).spec_le((#[trigger] s.drop_first()[j].id)) by {
                assert(s.drop_first()[i] == s[i + 1] && s.drop_first()[j] == s[j + 1]);
            }
            assert(sorted_ids(s.drop_first()));
            assert(sorted_ids(rest));
            assert forall|i: int, j: int| 0 <= i < j < t.len() implies (
            #[trigger] t[i].id).spec_le((#[trigger] t[j].id)) by {
                if i == 0 {
                    assert(t[j] == rest[j - 1]);
                    if rest[j - 1] == k {
                        assert(s[0].id.spec_le(k.id));
                    } else {
                        assert(s.drop_first().contains(rest[j - 1]));
                        let q = choose|q: int|
                            0 <= q < s.drop_first().len() && s.drop_first()[q] == rest[j - 1];
                        assert(s.drop_first()[q] == s[q + 1]);
                        assert(s[0].id.spec_le(s[q + 1].id));
                    }
                } else {
                    assert(t[i] == rest[i - 1] && t[j] == rest[j - 1]);
                }
            }
        }
    }
}

/// What sorting does to length, identifier membership and ordering.
proof fn lemma_sort_by_id_props(s: Seq<KonsepV>)
    ensures
        sort_by_id(s).len() == s.len(),
        forall|x: AutoGen| #[trigger] has_id(sort_by_id(s), x) <==> has_id(s, x),
        sorted_ids(sort_by_id(s)),
        forall|j: int|
            0 <= j < sort_by_id(s).len() ==> s.contains(#[trigger] sort_by_id(s)[j]),
    decreases s.len(),
{
    if s.len() == 0 {
        assert forall|x: AutoGen| #[trigger] has_id(sort_by_id(s), x) <==> has_id(s, x) by {}
    } else {
        let rest = s.drop_last();
        lemma_sort_by_id_props(rest);
        lemma_insert_sorted_props(sort_by_id(rest), s.last());
        assert forall|x: AutoGen| #[trigger] has_id(s, x) <==> (has_id(rest, x) || s.last().id
            == x) by {
            assert(s =~= rest.push(s.last()));
            lemma_has_id_concat(rest, seq![s.last()]);
            assert(rest + seq![s.last()] =~= s);
            if has_id(seq![s.last()], x) {
                let i = choose|i: int| 0 <= i < 1 && seq![s.last()][i].id == x;
            }
            if s.last().id == x {
                assert(seq![s.last()][0].id == x);
            }
        }
        assert forall|j: int| 0 <= j < sort_by_id(s).len() implies s.contains(
            #[trigger] sort_by_id(s)[j],
        ) by {
            let e = sort_by_id(s)[j];
            if e == s.last() {
                assert(s[s.len() - 1] == e);
            } else {
                assert(sort_by_id(rest).contains(e));
                let q = choose|q: int| 0 <= q < sort_by_id(rest).len() && sort_by_id(rest)[q] == e;
                assert(rest.contains(sort_by_id(rest)[q]));
                let p = choose|p: int| 0 <= p < rest.len() && rest[p] == e;
                assert(s[p] == e);
            }
        }
    }
}

/// Sorted insertion of a fresh identifier keeps identifiers unique.
proof fn lemma_insert_sorted_unique(s: Seq<KonsepV>, k: KonsepV)
    requires
        unique_ids(s),
        !has_id(s, k.id),
    ensures
        unique_ids(insert_sorted(s, k)),
    decreases s.len(),
{
    let t = insert_sorted(s, k);
    lemma_insert_sorted_props(s, k);
    assert forall|i: int, j: int| 0 <= i < j < t.len() implies (#[trigger] t[i]).id != (
    #[trigger] t[j]).id by {
        if t[i].id == t[j].id {
            if t[i] == k && t[j] == k {
                lemma_insert_sorted_dup_is_old(s, k, i, j);
                assert(false);
            } else if t[i] == k {
                assert(s.contains(t[j]));
                let q = choose|q: int| 0 <= q < s.len() && s[q] == t[j];
                assert(s[q].id == k.id);
                assert(has_id(s, k.id));
                assert(false);
            } else if t[j] == k {
                assert(s.contains(t[i]));
                let q = choose|q: int| 0 <= q < s.len() && s[q] == t[i];
                assert(s[q].id == k.id);
                assert(has_id(s, k.id));
                assert(false);
            } else {
                lemma_insert_sorted_two_old(s, k, i, j);
                let (p, q) = choose|p: int, q: int|
                    0 <= p < q < s.len() && s[p] == t[i] && s[q] == t[j];
                assert(s[p].id != s[q].id);
                assert(false);
            }
        }
    }
}

/// If two distinct positions of a sorted insertion both hold the
/// inserted element, the inserted identifier already occurred in the
/// original sequence.
proof fn lemma_insert_sorted_dup_is_old(s: Seq<KonsepV>, k: KonsepV, i: int, j: int)
    requires
        0 <= i < j < insert_sorted(s, k).len(),
        insert_sorted(s, k)[i] == k,
        insert_sorted(s, k)[j] == k,
    ensures
        has_id(s, k.id),
    decreases s.len(),
{
    let t = insert_sorted(s, k);
    if s.len() == 0 {
        assert(t =~= seq![k]);
        assert(false);
    } else if !s[0].id.spec_le(k.id) {
        assert(t == seq![k] + s);
        assert(s[j - 1] == k);
        assert(s[j - 1].id == k.id);
    } else {
        assert(t == seq![s[0]] + insert_sorted(s.drop_first(), k));
        if i == 0 {
            assert(s[0] == k);
            assert(s[0].id == k.id);
        } else {
            lemma_insert_sorted_dup_is_old(s.drop_first(), k, i - 1, j - 1);
            let q = choose|q: int| 0 <= q < s.drop_first().len() && s.drop_first()[q].id == k.id;
            assert(s[q + 1].id == k.id);
        }
    }
}

/// Two positions of a sorted insertion that hold old elements come from
/// two ordered positions of the original sequence.
proof fn lemma_insert_sorted_two_old(s: Seq<KonsepV>, k: KonsepV, i: int, j: int)
    requires
        0 <= i < j < insert_sorted(s, k).len(),
        insert_sorted(s, k)[i] != k,
        insert_sorted(s, k)[j] != k,
    ensures
        exists|p: int, q: int|
            0 <= p < q < s.len() && s[p] == #[trigger] insert_sorted(s, k)[i] && s[q]
                == insert_sorted(s, k)[j],
    decreases s.len(),
{
    let t = insert_sorted(s, k);
    if s.len() == 0 {
        assert(t =~= seq![k]);
        assert(false);
    } else if !s[0].id.spec_le(k.id) {
        assert(t == seq![k] + s);
        assert(t[0] == k);
        assert(i >= 1);
        assert(s[i - 1] == t[i] && s[j - 1] == t[j]);
    } else {
        let rest = insert_sorted(s.drop_first(), k);
        assert(t == seq![s[0]] + rest);
        if i == 0 {
            lemma_insert_sorted_props(s.drop_first(), k);
            assert(t[j] == rest[j - 1]);
            assert(s.drop_first().contains(rest[j - 1]));
            let q = choose|q: int|
                0 <= q < s.drop_first().len() && s.drop_first()[q] == rest[j - 1];
            assert(s[0] == t[i] && s[q + 1] == t[j]);
        } else {
            lemma_insert_sorted_two_old(s.drop_first(), k, i - 1, j - 1);
            let (p, q) = choose|p: int, q: int|
                0 <= p < q < s.drop_first().len() && s.drop_first()[p] == rest[i - 1]
                    && s.drop_first()[q] == rest[j - 1];
            assert(s[p + 1] == t[i] && s[q + 1] == t[j]);
        }
    }
}

/// Sorting keeps identifiers unique.
proof fn lemma_sort_by_id_unique(s: Seq<KonsepV>)
    requires
        unique_ids(s),
    ensures
        unique_ids(sort_by_id(s)),
    decreases s.len(),
{
    if s.len() > 0 {
        let rest = s.drop_last();
        assert forall|i: int, j: int| 0 <= i < j < rest.len() implies (#[trigger] rest[i]).id
            != (#[trigger] rest[j]).id by {
            assert(rest[i] == s[i] && rest[j] == s[j]);
        }
        lemma_sort_by_id_unique(rest);
        lemma_sort_by_id_props(rest);
        if has_id(sort_by_id(rest), s.last().id) {
            assert(has_id(rest, s.last().id));
            let q = choose|q: int| 0 <= q < rest.len() && rest[q].id == s.last().id;
            assert(s[q].id == s[s.len() - 1].id);
            assert(false);
        }
        lemma_insert_sorted_unique(sort_by_id(rest), s.last());
    }
}

/// Two sequences sorted by identifier, each with unique identifiers and
/// with the same identifiers overall, carry equal identifiers position
/// by position.
proof fn lemma_sorted_same_ids(a: Seq<KonsepV>, b: Seq<KonsepV>)
    requires
        sorted_ids(a),
        sorted_ids(b),
        unique_ids(a),
        unique_ids(b),
        forall|x: AutoGen| #[trigger] has_id(a, x) <==> has_id(b, x),
    ensures
        a.len() == b.len(),
        forall|i: int| 0 <= i < a.len() ==> (#[trigger] a[i]).id == b[i].id,
    decreases a.len(),
{
    crate::metatype::lemma_autogen_le_total_order();
    if a.len() == 0 {
        if b.len() > 0 {
            assert(has_id(b, b[0].id));
            assert(has_id(a, b[0].id));
            assert(false);
        }
    } else if b.len() == 0 {
        assert(has_id(a, a[0].id));
        assert(has_id(b, a[0].id));
        assert(false);
    } else {
        assert(has_id(a, a[0].id));
        assert(has_id(b, a[0].id));
        let jb = choose|j: int| 0 <= j < b.len() && b[j].id == a[0].id;
        assert(has_id(b, b[0].id));
        assert(has_id(a, b[0].id));
        let ja = choose|j: int| 0 <= j < a.len() && a[j].id == b[0].id;
        if jb > 0 {
            assert(b[0].id.spec_le(b[jb].id));
        }
        assert(b[0].id.spec_le(a[0].id));
        if ja > 0 {
            assert(a[0].id.spec_le(a[ja].id));
        }
        assert(a[0].id.spec_le(b[0].id));
        assert(a[0].id == b[0].id);
        let ra = a.drop_first();
        let rb = b.drop_first();
        assert forall|i: int, j: int| 0 <= i < j < ra.len() implies ((#[trigger] ra[i]).id
            != (#[trigger] ra[j]).id && ra[i].id.spec_le(ra[j].id)) by {
            assert(ra[i] == a[i + 1] && ra[j] == a[j + 1]);
        }
        assert forall|i: int, j: int| 0 <= i < j < rb.len() implies ((#[trigger] rb[i]).id
            != (#[trigger] rb[j]).id && rb[i].id.spec_le(rb[j].id)) by {
            assert(rb[i] == b[i + 1] && rb[j] == b[j + 1]);
        }
        assert forall|x: AutoGen| #[trigger] has_id(ra, x) implies has_id(rb, x) by {
            let i = choose|i: int| 0 <= i < ra.len() && ra[i].id == x;
            assert(a[i + 1].id == x);
            assert(x != a[0].id);
            assert(has_id(a, x));
            assert(has_id(b, x));
            let j = choose|j: int| 0 <= j < b.len() && b[j].id == x;
            assert(x != b[0].id);
            assert(j != 0);
            assert(rb[j - 1].id == x);
        }
        assert forall|x: AutoGen| #[trigger] has_id(rb, x) implies has_id(ra, x) by {
            let i = choose|i: int| 0 <= i < rb.len() && rb[i].id == x;
            assert(b[i + 1].id == x);
            assert(x != b[0].id);
            assert(has_id(b, x));
            assert(has_id(a, x));
            let j = choose|j: int| 0 <= j < a.len() && a[j].id == x;
            assert(x != a[0].id);
            assert(j != 0);
            assert(ra[j - 1].id == x);
        }
        lemma_sorted_same_ids(ra, rb);
        assert forall|i: int| 0 <= i < a.len() implies (#[trigger] a[i]).id == b[i].id by {
            if i > 0 {
                assert(ra[i - 1].id == rb[i - 1].id);
            }
        }
    }
}

/// Pairwise diffing succeeds when the paired concepts carry equal
/// identifiers throughout.
proof fn lemma_zip_diff_ok(a: Seq<KonsepV>, b: Seq<KonsepV>)
    requires
        a.len() == b.len(),
        forall|i: int| 0 <= i < a.len() ==> (#[trigger] a[i]).id == b[i].id,
    ensures
        zip_diff(a, b) is Ok,
    decreases a.len(),
{
    if a.len() > 0 {
        assert(a[0].id == b[0].id);
        assert forall|i: int| 0 <= i < a.drop_first().len() implies (
        #[trigger] a.drop_first()[i]).id == b.drop_first()[i].id by {
            assert(a.drop_first()[i] == a[i + 1] && b.drop_first()[i] == b[i + 1]);
        }
        lemma_zip_diff_ok(a.drop_first(), b.drop_first());
    }
}

/// Filtering keeps identifiers unique.
proof fn lemma_filter_unique_ids(s: Seq<KonsepV>, pred: spec_fn(KonsepV) -> bool)
    requires
        unique_ids(s),
    ensures
        unique_ids(s.filter(pred)),
{
    let f = s.filter(pred);
    assert forall|i: int, j: int| 0 <= i < j < f.len() implies (#[trigger] f[i]).id != (
    #[trigger] f[j]).id by {
        lemma_filter_index_map(s, pred, i, j);
        let (p, q) = choose|p: int, q: int|
            0 <= p < q < s.len() && s[p] == f[i] && s[q] == f[j];
        assert(s[p].id != s[q].id);
    }
}

/// Two positions of a filtered sequence come from two ordered positions
/// of the original.
proof fn lemma_filter_index_map(s: Seq<KonsepV>, pred: spec_fn(KonsepV) -> bool, i: int, j: int)
    requires
        0 <= i < j < s.filter(pred).len(),
    ensures
        exists|p: int, q: int|
            0 <= p < q < s.len() && s[p] == #[trigger] s.filter(pred)[i] && s[q] == s.filter(
                pred,
            )[j],
    decreases s.len(),
{
    reveal(Seq::filter);
    let f = s.filter(pred);
    let rest = s.drop_last();
    let fr = rest.filter(pred);
    if pred(s.last()) && j == f.len() - 1 {
        assert(f[i] == fr[i]);
        assert(fr.contains(fr[i]));
        rest.lemma_filter_contains_rev(pred, fr[i]);
        let p = choose|p: int| 0 <= p < rest.len() && rest[p] == fr[i];
        assert(s[p] == f[i] && s[s.len() - 1] == f[j]);
    } else {
        assert(f[i] == fr[i] && f[j] == fr[j]);
        lemma_filter_index_map(rest, pred, i, j);
        let (p, q) = choose|p: int, q: int|
            0 <= p < q < rest.len() && rest[p] == fr[i] && rest[q] == fr[j];
        assert(s[p] == f[i] && s[q] == f[j]);
    }
}

/// Diffing succeeds whenever the two entries share their known identity
/// and the caller's new concept collection can be paired with the old
/// one: the old concepts all carry unique known identifiers, the new
/// concepts' known identifiers are unique, and every one of them occurs
/// among the old identifiers.  Under those conditions the sorted pairing
/// lines the identifiers up exactly.
pub proof fn lemma_diff_succeeds_when_pairable(old: LemmaV, new: LemmaV)
    requires
        old.id == new.id,
        old.id matches AutoGen::Known(_),
        forall|i: int| 0 <= i < old.konseps.len() ==> (#[trigger] old.konseps[i]).id
            != AutoGen::Unknown,
        unique_ids(old.konseps),
        forall|i: int, j: int|
            0 <= i < j < new.konseps.len() && (#[trigger] new.konseps[i]).id != AutoGen::Unknown
                && (#[trigger] new.konseps[j]).id != AutoGen::Unknown ==> new.konseps[i].id
                != new.konseps[j].id,
        forall|j: int|
            0 <= j < new.konseps.len() && (#[trigger] new.konseps[j]).id != AutoGen::Unknown
                ==> has_id(old.konseps, new.konseps[j].id),
    ensures
        lemma_diff(old, new) is Ok,
{
    let ok = old.konseps;
    let nk = new.konseps;
    let kept = ok.filter(kept_in(nk));
    let known = nk.filter(is_known_k());
    let a = sort_by_id(kept);
    let b = sort_by_id(known);
    // Known identifiers of the new side, as a membership fact.
    assert forall|x: AutoGen| #[trigger] known_ids(nk).contains(x) <==> has_id(known, x) by {
        if known_ids(nk).contains(x) {
            let i = choose|i: int| 0 <= i < known_ids(nk).len() && known_ids(nk)[i] == x;
            assert(known.map_values(|k: KonsepV| k.id)[i] == known[i].id);
        }
        if has_id(known, x) {
            let i = choose|i: int| 0 <= i < known.len() && known[i].id == x;
            assert(known.map_values(|k: KonsepV| k.id)[i] == x);
        }
    }
    // Membership of the kept side.
    assert forall|x: AutoGen| #[trigger] has_id(kept, x) implies has_id(known, x) by {
        let i = choose|i: int| 0 <= i < kept.len() && kept[i].id == x;
        ok.lemma_filter_pred(kept_in(nk), i);
        assert(known_ids(nk).contains(kept[i].id));
    }
    assert forall|x: AutoGen| #[trigger] has_id(known, x) implies has_id(kept, x) by {
        let i = choose|i: int| 0 <= i < known.len() && known[i].id == x;
        nk.lemma_filter_pred(is_known_k(), i);
        assert(known.contains(known[i]));
        nk.lemma_filter_contains_rev(is_known_k(), known[i]);
        let j = choose|j: int| 0 <= j < nk.len() && nk[j] == known[i];
        assert(has_id(ok, nk[j].id));
        let p = choose|p: int| 0 <= p < ok.len() && ok[p].id == x;
        assert(kept_in(nk)(ok[p]));
        ok.lemma_filter_contains(kept_in(nk), p);
        let q = choose|q: int| 0 <= q < kept.len() && kept[q] == ok[p];
        assert(kept[q].id == x);
    }
    // Unique identifiers on both sides.
    lemma_filter_unique_ids(ok, kept_in(nk));
    assert forall|i: int, j: int| 0 <= i < j < known.len() implies (#[trigger] known[i]).id
        != (#[trigger] known[j]).id by {
        lemma_filter_index_map(nk, is_known_k(), i, j);
        let (p, q) = choose|p: int, q: int|
            0 <= p < q < nk.len() && nk[p] == known[i] && nk[q] == known[j];
        nk.lemma_filter_pred(is_known_k(), i);
        nk.lemma_filter_pred(is_known_k(), j);
    }
    // Sort both sides and line the identifiers up.
    lemma_sort_by_id_props(kept);
    lemma_sort_by_id_props(known);
    lemma_sort_by_id_unique(kept);
    lemma_sort_by_id_unique(known);
    assert forall|x: AutoGen| #[trigger] has_id(a, x) <==> has_id(b, x) by {}
    lemma_sorted_same_ids(a, b);
    lemma_zip_diff_ok(a, b);
    assert(konseps_modified(ok, nk) is Ok);
    assert(konseps_diff(ok, nk) is Ok);
}

/// What it means for an attached entry to be a from-scratch subtree: it
/// is the default modification of one of the new concepts, that concept
/// has no identifier yet, and the nested change sets attach its whole
/// tag collections while detaching and modifying nothing.
pub open spec fn fresh_attachment(new: Seq<KonsepV>, m: KonsepModV) -> bool {
    exists|j: int|
        {
            &&& 0 <= j < new.len()
            &&& (#[trigger] new[j]).id == AutoGen::Unknown
            &&& m == konsep_from_item(new[j])
            &&& m.cakupans.attached == new[j].cakupans
            &&& m.cakupans.detached.len() == 0
            &&& m.cakupans.modified.len() == 0
            &&& m.kata_asing.attached == new[j].kata_asing
            &&& m.kata_asing.detached.len() == 0
            &&& m.kata_asing.modified.len() == 0
        }
}

} // verus!
