//! The flat row shape that storage queries return, and the folding of
//! row streams into nested entity trees.
//!
//! A query joins an entry to its concepts and their tags, one tag value
//! per row, tags fanning out across rows.  Folding groups the rows by
//! entry key, then by concept key, deterministically in first-occurrence
//! order, and derives the tag collections by collecting distinct tag
//! values; rows carrying no tag contribute none.

use vstd::prelude::*;

use crate::changes::lemma_filter_take_step;
use crate::changes::seq_views;
use crate::interface::FromView;
use crate::interface::FromViewMap;
use crate::interface::IntoViewMap;
use crate::items::cakupan::Cakupan;
use crate::items::kata_asing::KataAsing;
use crate::items::konsep::cakupan_contains;
use crate::items::konsep::kata_contains;
use crate::items::konsep::Konsep;
use crate::items::konsep::KonsepV;
use crate::items::lemma::Lemma;
use crate::items::lemma::LemmaV;
use crate::metatype::AutoGen;

verus! {

/// One row of the query that joins an entry to its concepts and their
/// tags.
#[derive(Debug)]
pub struct LemmaWithKonsepView {
    /// The entry's identifier.
    pub l_id: i64,
    /// The entry's headword.
    pub lemma: String,
    /// The concept's identifier.
    pub k_id: i64,
    /// The concept's definition text, if the entry has a concept.
    pub konsep: Option<String>,
    /// The concept's word class, if recorded.
    pub golongan_kata: Option<String>,
    /// One context tag value, if this row carries one.
    pub cakupan: Option<String>,
    /// One foreign word, if this row carries one.
    pub kata_asing: Option<String>,
    /// The foreign word's language, if this row carries one.
    pub bahasa_asing: Option<String>,
}

/// The view of an optional text.
pub open spec fn opt_view(o: Option<String>) -> Option<Seq<char>> {
    match o {
        Some(s) => Some(s@),
        None => None,
    }
}

/// The text of an optional field, the empty text standing for absence.
pub open spec fn opt_or_empty(o: Option<Seq<char>>) -> Seq<char> {
    match o {
        Some(s) => s,
        None => Seq::empty(),
    }
}

/// Clones an optional text; the copy is the same value.
fn clone_opt(o: &Option<String>) -> (r: Option<String>)
    ensures
        r == *o,
{
    match o {
        Some(s) => Some(s.clone()),
        None => None,
    }
}

impl Clone for LemmaWithKonsepView {
    fn clone(&self) -> (r: Self)
        ensures
            r == *self,
    {
        LemmaWithKonsepView {
            l_id: self.l_id,
            lemma: self.lemma.clone(),
            k_id: self.k_id,
            konsep: clone_opt(&self.konsep),
            golongan_kata: clone_opt(&self.golongan_kata),
            cakupan: clone_opt(&self.cakupan),
            kata_asing: clone_opt(&self.kata_asing),
            bahasa_asing: clone_opt(&self.bahasa_asing),
        }
    }
}

/// The entry key of a row: identifier and headword.
pub open spec fn lkey(r: LemmaWithKonsepView) -> (i64, Seq<char>) {
    (r.l_id, r.lemma@)
}

/// The concept key of a row: identifier, definition text and word
/// class.
pub open spec fn kkey(r: LemmaWithKonsepView) -> (i64, Option<Seq<char>>, Option<Seq<char>>) {
    (r.k_id, opt_view(r.konsep), opt_view(r.golongan_kata))
}

/// The entry keys of a row sequence, row by row.
pub open spec fn lkeys(s: Seq<LemmaWithKonsepView>) -> Seq<(i64, Seq<char>)> {
    s.map_values(|r: LemmaWithKonsepView| lkey(r))
}

/// The concept keys of a row sequence, row by row.
pub open spec fn kkeys(s: Seq<LemmaWithKonsepView>) -> Seq<
    (i64, Option<Seq<char>>, Option<Seq<char>>),
> {
    s.map_values(|r: LemmaWithKonsepView| kkey(r))
}

/// The predicate holding of the rows that carry this entry key.
pub open spec fn with_lkey(k: (i64, Seq<char>)) -> spec_fn(LemmaWithKonsepView) -> bool {
    |r: LemmaWithKonsepView| lkey(r) == k
}

/// The predicate holding of the rows that carry this concept key.
pub open spec fn with_kkey(k: (i64, Option<Seq<char>>, Option<Seq<char>>)) -> spec_fn(
    LemmaWithKonsepView,
) -> bool {
    |r: LemmaWithKonsepView| kkey(r) == k
}

/// The distinct values of a sequence, each kept at its first
/// occurrence, in order.
pub open spec fn dedup_first<T>(s: Seq<T>) -> Seq<T>
    decreases s.len(),
{
    if s.len() == 0 {
        s
    } else {
        let rest = dedup_first(s.drop_last());
        if s.drop_last().contains(s.last()) {
            rest
        } else {
            rest.push(s.last())
        }
    }
}

/// Keeping first occurrences keeps exactly the original values.
pub proof fn lemma_dedup_first_contains<T>(s: Seq<T>)
    ensures
        forall|x: T| #[trigger] dedup_first(s).contains(x) <==> s.contains(x),
    decreases s.len(),
{
    if s.len() > 0 {
        let rest = s.drop_last();
        lemma_dedup_first_contains(rest);
        assert forall|x: T| #[trigger] dedup_first(s).contains(x) implies s.contains(x) by {
            let i = choose|i: int| 0 <= i < dedup_first(s).len() && dedup_first(s)[i] == x;
            if i < dedup_first(rest).len() {
                assert(dedup_first(rest)[i] == x);
                assert(dedup_first(rest).contains(x));
                assert(rest.contains(x));
                let q = choose|q: int| 0 <= q < rest.len() && rest[q] == x;
                assert(s[q] == x);
            } else {
                assert(!rest.contains(s.last()));
                assert(dedup_first(s) == dedup_first(rest).push(s.last()));
                assert(x == s.last());
                assert(s[s.len() - 1] == x);
            }
        }
        assert forall|x: T| #[trigger] s.contains(x) implies dedup_first(s).contains(x) by {
            let i = choose|i: int| 0 <= i < s.len() && s[i] == x;
            if i < s.len() - 1 || rest.contains(s.last()) {
                if i < s.len() - 1 {
                    assert(rest[i] == x);
                    assert(rest.contains(x));
                } else {
                    assert(rest.contains(x));
                }
                assert(dedup_first(rest).contains(x));
                let q = choose|q: int|
                    0 <= q < dedup_first(rest).len() && dedup_first(rest)[q] == x;
                if rest.contains(s.last()) {
                    assert(dedup_first(s) == dedup_first(rest));
                } else {
                    assert(dedup_first(s) == dedup_first(rest).push(s.last()));
                    assert(dedup_first(s)[q] == x);
                }
                assert(dedup_first(s).contains(x));
            } else {
                assert(x == s.last());
                assert(dedup_first(s) == dedup_first(rest).push(s.last()));
                assert(dedup_first(s)[dedup_first(s).len() - 1] == x);
            }
        }
    }
}

/// One unfolding step of first-occurrence deduplication along a growing
/// prefix.
pub proof fn lemma_dedup_take_step<T>(s: Seq<T>, i: int)
    requires
        0 <= i < s.len(),
    ensures
        dedup_first(s.take(i + 1)) == (if s.take(i).contains(s[i]) {
            dedup_first(s.take(i))
        } else {
            dedup_first(s.take(i)).push(s[i])
        }),
{
    assert(s.take(i + 1).drop_last() =~= s.take(i));
    assert(s.take(i + 1).last() == s[i]);
}

/// Filtering and mapping two sequences that correspond point by point
/// yields the same sequence.
pub proof fn lemma_filter_map_pointwise<A, B, C>(
    x: Seq<A>,
    y: Seq<B>,
    px: spec_fn(A) -> bool,
    py: spec_fn(B) -> bool,
    fx: spec_fn(A) -> C,
    fy: spec_fn(B) -> C,
)
    requires
        x.len() == y.len(),
        forall|i: int|
            0 <= i < x.len() ==> (px(#[trigger] x[i]) == py(#[trigger] y[i]) && (px(x[i])
                ==> fx(x[i]) == fy(y[i]))),
    ensures
        x.filter(px).map_values(fx) == y.filter(py).map_values(fy),
    decreases x.len(),
{
    reveal(Seq::filter);
    if x.len() > 0 {
        let rx = x.drop_last();
        let ry = y.drop_last();
        assert forall|i: int|
            0 <= i < rx.len() implies (px(#[trigger] rx[i]) == py(#[trigger] ry[i]) && (px(
            rx[i]) ==> fx(rx[i]) == fy(ry[i]))) by {
            assert(rx[i] == x[i] && ry[i] == y[i]);
        }
        lemma_filter_map_pointwise(rx, ry, px, py, fx, fy);
        assert(px(x.last()) == py(y.last()));
        if px(x.last()) {
            assert(x.filter(px) == rx.filter(px).push(x.last()));
            assert(y.filter(py) == ry.filter(py).push(y.last()));
            assert(rx.filter(px).push(x.last()).map_values(fx) =~= rx.filter(px).map_values(
                fx,
            ).push(fx(x.last())));
            assert(ry.filter(py).push(y.last()).map_values(fy) =~= ry.filter(py).map_values(
                fy,
            ).push(fy(y.last())));
        }
    } else {
        assert(x.filter(px).map_values(fx) =~= y.filter(py).map_values(fy));
    }
}

/// The grouping of one entry's rows by concept key: each distinct key in
/// first-occurrence order, with the rows that carry it.
pub type KonsepViewMap = Vec<
    ((i64, Option<String>, Option<String>), Vec<LemmaWithKonsepView>),
>;

/// The view of a stored concept key.
pub open spec fn kkey_view(k: (i64, Option<String>, Option<String>)) -> (
    i64,
    Option<Seq<char>>,
    Option<Seq<char>>,
) {
    (k.0, opt_view(k.1), opt_view(k.2))
}

/// What a correct concept grouping of a row sequence looks like: the
/// stored keys are the distinct concept keys in first-occurrence order,
/// and each bucket holds exactly the rows carrying its key.
pub open spec fn konsep_groups_exact(
    g: Seq<((i64, Option<String>, Option<String>), Vec<LemmaWithKonsepView>)>,
    rows: Seq<LemmaWithKonsepView>,
) -> bool {
    let keys = dedup_first(kkeys(rows));
    &&& g.len() == keys.len()
    &&& forall|j: int|
        0 <= j < g.len() ==> (kkey_view((#[trigger] g[j]).0) == keys[j] && g[j].1@ == rows.filter(
            with_kkey(keys[j]),
        ))
}

/// Whether an entry key with this view occurs in the list.
fn lkey_in(keys: &Vec<(i64, String)>, l_id: i64, lemma: &String) -> (r: bool)
    ensures
        r == lkeys_of_pairs(keys@).contains((l_id, lemma@)),
{
    let n = keys.len();
    let mut j: usize = 0;
    while j < n
        invariant
            n == keys@.len(),
            0 <= j <= n,
            forall|q: int| 0 <= q < j ==> lkeys_of_pairs(keys@)[q] != (l_id, lemma@),
        decreases n - j,
    {
        if keys[j].0 == l_id && keys[j].1 == *lemma {
            proof {
                assert(lkeys_of_pairs(keys@)[j as int] == (l_id, lemma@));
            }
            return true;
        }
        j = j + 1;
    }
    false
}

/// The views of stored entry keys.
pub open spec fn lkeys_of_pairs(s: Seq<(i64, String)>) -> Seq<(i64, Seq<char>)> {
    Seq::new(s.len(), |i: int| (s[i].0, s[i].1@))
}

/// Whether a concept key with this view occurs in the list.
fn kkey_in(
    keys: &Vec<(i64, Option<String>, Option<String>)>,
    row: &LemmaWithKonsepView,
) -> (r: bool)
    ensures
        r == kkeys_of_triples(keys@).contains(kkey(*row)),
{
    let n = keys.len();
    let mut j: usize = 0;
    while j < n
        invariant
            n == keys@.len(),
            0 <= j <= n,
            forall|q: int| 0 <= q < j ==> kkeys_of_triples(keys@)[q] != kkey(*row),
        decreases n - j,
    {
        if keys[j].0 == row.k_id && opt_eq(&keys[j].1, &row.konsep) && opt_eq(
            &keys[j].2,
            &row.golongan_kata,
        ) {
            proof {
                assert(kkeys_of_triples(keys@)[j as int] == kkey(*row));
            }
            return true;
        }
        j = j + 1;
    }
    false
}

/// The views of stored concept keys.
pub open spec fn kkeys_of_triples(s: Seq<(i64, Option<String>, Option<String>)>) -> Seq<
    (i64, Option<Seq<char>>, Option<Seq<char>>),
> {
    Seq::new(s.len(), |i: int| kkey_view(s[i]))
}

/// Whether two optional texts read the same.
fn opt_eq(a: &Option<String>, b: &Option<String>) -> (r: bool)
    ensures
        r == (opt_view(*a) == opt_view(*b)),
{
    match a {
        Some(x) => match b {
            Some(y) => *x == *y,
            None => false,
        },
        None => match b {
            Some(_) => false,
            None => true,
        },
    }
}

/// The distinct entry keys of a row stream, in first-occurrence order.
fn distinct_lemma_keys(rows: &Vec<LemmaWithKonsepView>) -> (r: Vec<(i64, String)>)
    ensures
        lkeys_of_pairs(r@) == dedup_first(lkeys(rows@)),
{
    let mut out: Vec<(i64, String)> = Vec::new();
    let n = rows.len();
    let mut i: usize = 0;
    proof {
        assert(lkeys(rows@).take(0) =~= Seq::<(i64, Seq<char>)>::empty());
        assert(lkeys_of_pairs(out@) =~= dedup_first(lkeys(rows@).take(0)));
    }
    while i < n
        invariant
            n == rows@.len(),
            0 <= i <= n,
            lkeys_of_pairs(out@) == dedup_first(lkeys(rows@).take(i as int)),
        decreases n - i,
    {
        let ghost pre = lkeys_of_pairs(out@);
        proof {
            lemma_dedup_take_step(lkeys(rows@), i as int);
            assert(lkeys(rows@)[i as int] == lkey(rows@[i as int]));
            lemma_dedup_first_contains(lkeys(rows@).take(i as int));
        }
        if !lkey_in(&out, rows[i].l_id, &rows[i].lemma) {
            out.push((rows[i].l_id, rows[i].lemma.clone()));
            proof {
                assert(lkeys_of_pairs(out@) =~= pre.push(lkey(rows@[i as int])));
            }
        }
        i = i + 1;
    }
    proof {
        assert(lkeys(rows@).take(n as int) =~= lkeys(rows@));
    }
    out
}

/// The distinct concept keys of a row stream, in first-occurrence
/// order.
fn distinct_konsep_keys(rows: &Vec<LemmaWithKonsepView>) -> (r: Vec<
    (i64, Option<String>, Option<String>),
>)
    ensures
        kkeys_of_triples(r@) == dedup_first(kkeys(rows@)),
{
    let mut out: Vec<(i64, Option<String>, Option<String>)> = Vec::new();
    let n = rows.len();
    let mut i: usize = 0;
    proof {
        assert(kkeys(rows@).take(0) =~= Seq::<(i64, Option<Seq<char>>, Option<Seq<char>>)>::empty());
        assert(kkeys_of_triples(out@) =~= dedup_first(kkeys(rows@).take(0)));
    }
    while i < n
        invariant
            n == rows@.len(),
            0 <= i <= n,
            kkeys_of_triples(out@) == dedup_first(kkeys(rows@).take(i as int)),
        decreases n - i,
    {
        let ghost pre = kkeys_of_triples(out@);
        proof {
            lemma_dedup_take_step(kkeys(rows@), i as int);
            assert(kkeys(rows@)[i as int] == kkey(rows@[i as int]));
            lemma_dedup_first_contains(kkeys(rows@).take(i as int));
        }
        if !kkey_in(&out, &rows[i]) {
            out.push(
                (rows[i].k_id, clone_opt(&rows[i].konsep), clone_opt(&rows[i].golongan_kata)),
            );
            proof {
                assert(kkeys_of_triples(out@) =~= pre.push(kkey(rows@[i as int])));
            }
        }
        i = i + 1;
    }
    proof {
        assert(kkeys(rows@).take(n as int) =~= kkeys(rows@));
    }
    out
}

/// The rows carrying the given entry key, in input order.
fn filter_rows_by_lkey(rows: &Vec<LemmaWithKonsepView>, key: &(i64, String)) -> (r: Vec<
    LemmaWithKonsepView,
>)
    ensures
        r@ == rows@.filter(with_lkey((key.0, key.1@))),
{
    let ghost kv = (key.0, key.1@);
    let mut out: Vec<LemmaWithKonsepView> = Vec::new();
    let n = rows.len();
    let mut i: usize = 0;
    proof {
        assert(rows@.take(0) =~= Seq::<LemmaWithKonsepView>::empty());
        assert(out@ =~= rows@.take(0).filter(with_lkey(kv)));
    }
    while i < n
        invariant
            n == rows@.len(),
            0 <= i <= n,
            kv == ((key.0, key.1@)),
            out@ == rows@.take(i as int).filter(with_lkey(kv)),
        decreases n - i,
    {
        proof {
            lemma_filter_take_step(rows@, with_lkey(kv), i as int);
        }
        if rows[i].l_id == key.0 && rows[i].lemma == key.1 {
            out.push(rows[i].clone());
        }
        i = i + 1;
    }
    proof {
        assert(rows@.take(n as int) =~= rows@);
    }
    out
}

/// The rows carrying the given concept key, in input order.
fn filter_rows_by_kkey(
    rows: &Vec<LemmaWithKonsepView>,
    key: &(i64, Option<String>, Option<String>),
) -> (r: Vec<LemmaWithKonsepView>)
    ensures
        r@ == rows@.filter(with_kkey(kkey_view(*key))),
{
    let ghost kv = kkey_view(*key);
    let mut out: Vec<LemmaWithKonsepView> = Vec::new();
    let n = rows.len();
    let mut i: usize = 0;
    proof {
        assert(rows@.take(0) =~= Seq::<LemmaWithKonsepView>::empty());
        assert(out@ =~= rows@.take(0).filter(with_kkey(kv)));
    }
    while i < n
        invariant
            n == rows@.len(),
            0 <= i <= n,
            kv == kkey_view(*key),
            out@ == rows@.take(i as int).filter(with_kkey(kv)),
        decreases n - i,
    {
        proof {
            lemma_filter_take_step(rows@, with_kkey(kv), i as int);
        }
        if rows[i].k_id == key.0 && opt_eq(&key.1, &rows[i].konsep) && opt_eq(
            &key.2,
            &rows[i].golongan_kata,
        ) {
            out.push(rows[i].clone());
        }
        i = i + 1;
    }
    proof {
        assert(rows@.take(n as int) =~= rows@);
    }
    out
}

/// Groups one entry's rows by concept key, in first-occurrence order.
fn group_by_konsep(rows: &Vec<LemmaWithKonsepView>) -> (g: KonsepViewMap)
    ensures
        konsep_groups_exact(g@, rows@),
{
    let keys = distinct_konsep_keys(rows);
    let mut out: KonsepViewMap = Vec::new();
    let n = keys.len();
    let mut i: usize = 0;
    while i < n
        invariant
            n == keys@.len(),
            kkeys_of_triples(keys@) == dedup_first(kkeys(rows@)),
            0 <= i <= n,
            out@.len() == i,
            forall|j: int|
                0 <= j < i ==> (kkey_view((#[trigger] out@[j]).0) == dedup_first(kkeys(rows@))[j]
                    && out@[j].1@ == rows@.filter(with_kkey(dedup_first(kkeys(rows@))[j]))),
        decreases n - i,
    {
        let bucket = filter_rows_by_kkey(rows, &keys[i]);
        out.push(
            ((keys[i].0, clone_opt(&keys[i].1), clone_opt(&keys[i].2)), bucket),
        );
        proof {
            assert(kkey_view(out@[i as int].0) == kkeys_of_triples(keys@)[i as int]);
        }
        i = i + 1;
    }
    out
}

impl IntoViewMap<LemmaWithKonsepView> for Vec<LemmaWithKonsepView> {
    type KEY = (i64, String);

    type VALUE = KonsepViewMap;

    /// Groups a row stream by entry key, then each entry's rows by
    /// concept key, both in first-occurrence order.
    fn into_viewmap(self) -> (r: Vec<((i64, String), KonsepViewMap)>)
        ensures
            r@.len() == dedup_first(lkeys(self@)).len(),
            forall|j: int|
                0 <= j < r@.len() ==> ((((#[trigger] r@[j]).0).0, (r@[j].0).1@) == dedup_first(
                    lkeys(self@),
                )[j] && konsep_groups_exact(
                    r@[j].1@,
                    self@.filter(with_lkey(dedup_first(lkeys(self@))[j])),
                )),
    {
        let keys = distinct_lemma_keys(&self);
        let mut out: Vec<((i64, String), KonsepViewMap)> = Vec::new();
        let n = keys.len();
        let mut i: usize = 0;
        while i < n
            invariant
                n == keys@.len(),
                lkeys_of_pairs(keys@) == dedup_first(lkeys(self@)),
                0 <= i <= n,
                out@.len() == i,
                forall|j: int|
                    0 <= j < i ==> ((((#[trigger] out@[j]).0).0, (out@[j].0).1@) == dedup_first(
                        lkeys(self@),
                    )[j] && konsep_groups_exact(
                        out@[j].1@,
                        self@.filter(with_lkey(dedup_first(lkeys(self@))[j])),
                    )),
            decreases n - i,
        {
            let bucket = filter_rows_by_lkey(&self, &keys[i]);
            let groups = group_by_konsep(&bucket);
            out.push(((keys[i].0, keys[i].1.clone()), groups));
            proof {
                assert((out@[i as int].0.0, out@[i as int].0.1@) == lkeys_of_pairs(keys@)[
                    i as int]);
            }
            i = i + 1;
        }
        out
    }
}

/// The distinct context tag values carried by a row sequence, in
/// first-occurrence order.
pub open spec fn cak_values(rows: Seq<LemmaWithKonsepView>) -> Seq<Seq<char>> {
    rows.filter(|r: LemmaWithKonsepView| r.cakupan is Some).map_values(
        |r: LemmaWithKonsepView| opt_or_empty(opt_view(r.cakupan)),
    )
}

/// The distinct foreign-word values carried by a row sequence, in
/// first-occurrence order.
pub open spec fn kata_values(rows: Seq<LemmaWithKonsepView>) -> Seq<(Seq<char>, Seq<char>)> {
    rows.filter(
        |r: LemmaWithKonsepView| r.kata_asing is Some && r.bahasa_asing is Some,
    ).map_values(
        |r: LemmaWithKonsepView|
            (opt_or_empty(opt_view(r.kata_asing)), opt_or_empty(opt_view(r.bahasa_asing))),
    )
}

impl FromView for Cakupan {
    type VIEW = LemmaWithKonsepView;

    /// The distinct context tags of a row stream, in first-occurrence
    /// order; rows carrying no context tag contribute none.
    fn from_views(views: &Vec<LemmaWithKonsepView>) -> (r: Vec<Cakupan>)
        ensures
            seq_views(r@) == dedup_first(cak_values(views@)),
    {
        let ghost pred = |r: LemmaWithKonsepView| r.cakupan is Some;
        let ghost f = |r: LemmaWithKonsepView| opt_or_empty(opt_view(r.cakupan));
        let mut out: Vec<Cakupan> = Vec::new();
        let n = views.len();
        let mut i: usize = 0;
        proof {
            assert(views@.take(0) =~= Seq::<LemmaWithKonsepView>::empty());
            assert(cak_values(views@.take(0)) =~= Seq::<Seq<char>>::empty());
            assert(seq_views(out@) =~= dedup_first(cak_values(views@.take(0))));
        }
        while i < n
            invariant
                n == views@.len(),
                0 <= i <= n,
                pred == (|r: LemmaWithKonsepView| r.cakupan is Some),
                f == (|r: LemmaWithKonsepView| opt_or_empty(opt_view(r.cakupan))),
                seq_views(out@) == dedup_first(cak_values(views@.take(i as int))),
            decreases n - i,
        {
            let ghost pre = seq_views(out@);
            proof {
                lemma_filter_take_step(views@, pred, i as int);
                if pred(views@[i as int]) {
                    assert(views@.take(i as int + 1).filter(pred).map_values(f) =~= views@.take(
                        i as int,
                    ).filter(pred).map_values(f).push(f(views@[i as int])));
                    lemma_dedup_take_step(
                        cak_values(views@.take(i as int + 1)),
                        cak_values(views@.take(i as int + 1)).len() - 1,
                    );
                    assert(cak_values(views@.take(i as int + 1)).take(
                        cak_values(views@.take(i as int + 1)).len() - 1,
                    ) =~= cak_values(views@.take(i as int)));
                } else {
                    assert(views@.take(i as int + 1).filter(pred).map_values(f) =~= views@.take(
                        i as int,
                    ).filter(pred).map_values(f));
                }
                lemma_dedup_first_contains(cak_values(views@.take(i as int)));
            }
            match &views[i].cakupan {
                Some(s) => {
                    let c = Cakupan::new(s.clone());
                    if !cakupan_contains(&out, &c) {
                        out.push(c);
                        proof {
                            assert(seq_views(out@) =~= pre.push(f(views@[i as int])));
                        }
                    }
                },
                None => {},
            }
            i = i + 1;
        }
        proof {
            assert(views@.take(n as int) =~= views@);
        }
        out
    }
}

impl FromView for KataAsing {
    type VIEW = LemmaWithKonsepView;

    /// The distinct foreign-word tags of a row stream, in
    /// first-occurrence order; rows carrying no complete foreign-word
    /// pair contribute none.
    fn from_views(views: &Vec<LemmaWithKonsepView>) -> (r: Vec<KataAsing>)
        ensures
            seq_views(r@) == dedup_first(kata_values(views@)),
    {
        let ghost pred = (|r: LemmaWithKonsepView| r.kata_asing is Some && r.bahasa_asing is Some);
        let ghost f = (|r: LemmaWithKonsepView|
            (opt_or_empty(opt_view(r.kata_asing)), opt_or_empty(opt_view(r.bahasa_asing))));
        let mut out: Vec<KataAsing> = Vec::new();
        let n = views.len();
        let mut i: usize = 0;
        proof {
            assert(views@.take(0) =~= Seq::<LemmaWithKonsepView>::empty());
            assert(kata_values(views@.take(0)) =~= Seq::<(Seq<char>, Seq<char>)>::empty());
            assert(seq_views(out@) =~= dedup_first(kata_values(views@.take(0))));
        }
        while i < n
            invariant
                n == views@.len(),
                0 <= i <= n,
                pred == (|r: LemmaWithKonsepView| r.kata_asing is Some && r.bahasa_asing is Some),
                f == (|r: LemmaWithKonsepView|
                    (
                        opt_or_empty(opt_view(r.kata_asing)),
                        opt_or_empty(opt_view(r.bahasa_asing)),
                    )),
                seq_views(out@) == dedup_first(kata_values(views@.take(i as int))),
            decreases n - i,
        {
            let ghost pre = seq_views(out@);
            proof {
                lemma_filter_take_step(views@, pred, i as int);
                if pred(views@[i as int]) {
                    assert(views@.take(i as int + 1).filter(pred).map_values(f) =~= views@.take(
                        i as int,
                    ).filter(pred).map_values(f).push(f(views@[i as int])));
                    lemma_dedup_take_step(
                        kata_values(views@.take(i as int + 1)),
                        kata_values(views@.take(i as int + 1)).len() - 1,
                    );
                    assert(kata_values(views@.take(i as int + 1)).take(
                        kata_values(views@.take(i as int + 1)).len() - 1,
                    ) =~= kata_values(views@.take(i as int)));
                } else {
                    assert(views@.take(i as int + 1).filter(pred).map_values(f) =~= views@.take(
                        i as int,
                    ).filter(pred).map_values(f));
                }
                lemma_dedup_first_contains(kata_values(views@.take(i as int)));
            }
            match (&views[i].kata_asing, &views[i].bahasa_asing) {
                (Some(nm), Some(bh)) => {
                    let c = KataAsing { nama: nm.clone(), bahasa: bh.clone() };
                    if !kata_contains(&out, &c) {
                        out.push(c);
                        proof {
                            assert(seq_views(out@) =~= pre.push(f(views@[i as int])));
                        }
                    }
                },
                _ => {},
            }
            i = i + 1;
        }
        proof {
            assert(views@.take(n as int) =~= views@);
        }
        out
    }
}

/// The concept a grouped bucket describes: the key's identifier is
/// database-assigned, the texts come from the key, and the tag
/// collections are the distinct tag values of the bucket's rows.
pub open spec fn konsep_of_group(
    key: (i64, Option<Seq<char>>, Option<Seq<char>>),
    rows: Seq<LemmaWithKonsepView>,
) -> KonsepV {
    KonsepV {
        id: AutoGen::Known(key.0),
        keterangan: opt_or_empty(key.1),
        golongan_kata: opt_or_empty(key.2),
        cakupans: dedup_first(cak_values(rows)),
        kata_asing: dedup_first(kata_values(rows)),
    }
}

/// The concepts a grouping describes: one per group whose key carries a
/// definition text, in grouping order.
pub open spec fn konseps_of_groups(
    g: Seq<((i64, Option<String>, Option<String>), Vec<LemmaWithKonsepView>)>,
) -> Seq<KonsepV> {
    g.filter(
        |p: ((i64, Option<String>, Option<String>), Vec<LemmaWithKonsepView>)| p.0.1 is Some,
    ).map_values(
        |p: ((i64, Option<String>, Option<String>), Vec<LemmaWithKonsepView>)|
            konsep_of_group(kkey_view(p.0), p.1@),
    )
}

impl FromViewMap for Konsep {
    type KEY = (i64, Option<String>, Option<String>);

    type VALUE = Vec<LemmaWithKonsepView>;

    /// Rebuilds the concepts of one entry from its concept grouping,
    /// skipping groups whose key carries no definition text.
    fn from_viewmap(value: &KonsepViewMap) -> (r: Vec<Konsep>)
        ensures
            seq_views(r@) == konseps_of_groups(value@),
    {
        let ghost pred = (|p: ((i64, Option<String>, Option<String>), Vec<LemmaWithKonsepView>)|
            p.0.1 is Some);
        let ghost f = (|p: ((i64, Option<String>, Option<String>), Vec<LemmaWithKonsepView>)|
            konsep_of_group(kkey_view(p.0), p.1@));
        let mut out: Vec<Konsep> = Vec::new();
        let n = value.len();
        let mut i: usize = 0;
        proof {
            assert(value@.take(0) =~= Seq::<
                ((i64, Option<String>, Option<String>), Vec<LemmaWithKonsepView>),
            >::empty());
            assert(seq_views(out@) =~= value@.take(0).filter(pred).map_values(f));
        }
        while i < n
            invariant
                n == value@.len(),
                0 <= i <= n,
                pred == (|p: (
                    (i64, Option<String>, Option<String>),
                    Vec<LemmaWithKonsepView>,
                )| p.0.1 is Some),
                f == (|p: ((i64, Option<String>, Option<String>), Vec<LemmaWithKonsepView>)|
                    konsep_of_group(kkey_view(p.0), p.1@)),
                seq_views(out@) == value@.take(i as int).filter(pred).map_values(f),
            decreases n - i,
        {
            let ghost pre = seq_views(out@);
            proof {
                lemma_filter_take_step(value@, pred, i as int);
                if pred(value@[i as int]) {
                    assert(value@.take(i as int + 1).filter(pred).map_values(f) =~= value@.take(
                        i as int,
                    ).filter(pred).map_values(f).push(f(value@[i as int])));
                } else {
                    assert(value@.take(i as int + 1).filter(pred).map_values(f) =~= value@.take(
                        i as int,
                    ).filter(pred).map_values(f));
                }
            }
            match &value[i].0.1 {
                Some(ket) => {
                    let k = Konsep {
                        id: AutoGen::Known(value[i].0.0),
                        keterangan: ket.clone(),
                        golongan_kata: match &value[i].0.2 {
                            Some(g) => g.clone(),
                            None => String::new(),
                        },
                        cakupans: Cakupan::from_views(&value[i].1),
                        kata_asing: KataAsing::from_views(&value[i].1),
                    };
                    out.push(k);
                    proof {
                        assert(seq_views(out@) =~= pre.push(f(value@[i as int])));
                    }
                },
                None => {},
            }
            i = i + 1;
        }
        proof {
            assert(value@.take(n as int) =~= value@);
        }
        out
    }
}

/// The entry a grouped pair describes.
pub open spec fn lemma_of_group(
    key: (i64, Seq<char>),
    g: Seq<((i64, Option<String>, Option<String>), Vec<LemmaWithKonsepView>)>,
) -> LemmaV {
    LemmaV { id: AutoGen::Known(key.0), lemma: key.1, konseps: konseps_of_groups(g) }
}

impl FromViewMap for Lemma {
    type KEY = (i64, String);

    type VALUE = KonsepViewMap;

    /// Rebuilds the entries a full grouping describes, in grouping
    /// order.
    fn from_viewmap(value: &Vec<((i64, String), KonsepViewMap)>) -> (r: Vec<Lemma>)
        ensures
            seq_views(r@).len() == value@.len(),
            forall|j: int|
                0 <= j < value@.len() ==> seq_views(r@)[j] == lemma_of_group(
                    (((#[trigger] value@[j]).0).0, (value@[j].0).1@),
                    value@[j].1@,
                ),
    {
        let mut out: Vec<Lemma> = Vec::new();
        let n = value.len();
        let mut i: usize = 0;
        while i < n
            invariant
                n == value@.len(),
                0 <= i <= n,
                seq_views(out@).len() == i,
                forall|j: int|
                    0 <= j < i ==> seq_views(out@)[j] == lemma_of_group(
                        (((#[trigger] value@[j]).0).0, (value@[j].0).1@),
                        value@[j].1@,
                    ),
            decreases n - i,
        {
            let l = Lemma {
                id: AutoGen::Known(value[i].0 .0),
                lemma: value[i].0 .1.clone(),
                konseps: Konsep::from_viewmap(&value[i].1),
            };
            out.push(l);
            i = i + 1;
        }
        out
    }
}

/// The entries a row stream describes: one per distinct entry key in
/// first-occurrence order, each with the concepts its own rows
/// describe.
pub open spec fn lemmas_of_rows(rows: Seq<LemmaWithKonsepView>) -> Seq<LemmaV> {
    dedup_first(lkeys(rows)).map_values(
        |k: (i64, Seq<char>)|
            LemmaV {
                id: AutoGen::Known(k.0),
                lemma: k.1,
                konseps: konseps_of_rows(rows.filter(with_lkey(k))),
            },
    )
}

/// The concepts one entry's rows describe: one per distinct concept key
/// carrying a definition text, in first-occurrence order.
pub open spec fn konseps_of_rows(rows: Seq<LemmaWithKonsepView>) -> Seq<KonsepV> {
    dedup_first(kkeys(rows)).filter(
        |k: (i64, Option<Seq<char>>, Option<Seq<char>>)| k.1 is Some,
    ).map_values(
        |k: (i64, Option<Seq<char>>, Option<Seq<char>>)|
            konsep_of_group(k, rows.filter(with_kkey(k))),
    )
}

/// A correct concept grouping describes exactly the concepts its rows
/// describe.
proof fn lemma_groups_describe_rows(
    g: Seq<((i64, Option<String>, Option<String>), Vec<LemmaWithKonsepView>)>,
    rows: Seq<LemmaWithKonsepView>,
)
    requires
        konsep_groups_exact(g, rows),
    ensures
        konseps_of_groups(g) == konseps_of_rows(rows),
{
    let keys = dedup_first(kkeys(rows));
    lemma_filter_map_pointwise(
        g,
        keys,
        |p: ((i64, Option<String>, Option<String>), Vec<LemmaWithKonsepView>)| p.0.1 is Some,
        |k: (i64, Option<Seq<char>>, Option<Seq<char>>)| k.1 is Some,
        |p: ((i64, Option<String>, Option<String>), Vec<LemmaWithKonsepView>)|
            konsep_of_group(kkey_view(p.0), p.1@),
        |k: (i64, Option<Seq<char>>, Option<Seq<char>>)|
            konsep_of_group(k, rows.filter(with_kkey(k))),
    );
}

impl FromView for Lemma {
    type VIEW = LemmaWithKonsepView;

    /// Folds a row stream into the entries it describes, grouping by
    /// entry key and then by concept key, in first-occurrence order.
    fn from_views(views: &Vec<LemmaWithKonsepView>) -> (r: Vec<Lemma>)
        ensures
            seq_views(r@) == lemmas_of_rows(views@),
    {
        let rows = clone_rows(views);
        let grouped = rows.into_viewmap();
        let r = Lemma::from_viewmap(&grouped);
        proof {
            let keys = dedup_first(lkeys(views@));
            assert forall|j: int| 0 <= j < grouped@.len() implies seq_views(r@)[j]
                == lemmas_of_rows(views@)[j] by {
                lemma_groups_describe_rows(
                    grouped@[j].1@,
                    views@.filter(with_lkey(keys[j])),
                );
            }
            assert(seq_views(r@) =~= lemmas_of_rows(views@));
        }
        r
    }
}

/// Clones a row stream; the copy carries the very same rows.
fn clone_rows(v: &Vec<LemmaWithKonsepView>) -> (r: Vec<LemmaWithKonsepView>)
    ensures
        r@ == v@,
{
    let mut out: Vec<LemmaWithKonsepView> = Vec::new();
    let n = v.len();
    let mut i: usize = 0;
    proof {
        assert(out@ =~= v@.take(0));
    }
    while i < n
        invariant
            n == v@.len(),
            0 <= i <= n,
            out@ == v@.take(i as int),
        decreases n - i,
    {
        out.push(v[i].clone());
        proof {
            assert(out@ =~= v@.take(i as int + 1));
        }
        i = i + 1;
    }
    proof {
        assert(v@.take(n as int) =~= v@);
    }
    out
}

} // verus!
