//! General modification structs: per-field change markers and per-child-
//! collection change sets, together with their mathematical views and the
//! plan-building machinery shared by all child collections.

use vstd::prelude::*;

use crate::errors::DiffError;
use crate::interface::plan_matches;
use crate::interface::AttachmentItemMod;
use crate::operations::DbOp;

verus! {

/// Marks whether a scalar field changed between the old and the new
/// version of an entity.  `Fixed` carries the unchanged value, `New` the
/// value that must be written.
#[derive(Clone, PartialEq, Debug)]
pub enum FieldMod<T> {
    /// The field changed; the carried value must be written.
    New(T),
    /// The field did not change; no write is needed.
    Fixed(T),
}

impl<T> FieldMod<T> {
    /// The carried value, whichever variant holds it.
    pub open spec fn spec_value(self) -> T {
        match self {
            FieldMod::New(v) => v,
            FieldMod::Fixed(v) => v,
        }
    }

    /// Whether the field is unchanged.
    pub open spec fn is_fixed(self) -> bool {
        self matches FieldMod::Fixed(_)
    }

    /// The current value to persist; callers that only need the value do
    /// not care whether it changed.
    pub fn value(&self) -> (r: &T)
        ensures
            *r == self.spec_value(),
    {
        match self {
            FieldMod::New(v) => v,
            FieldMod::Fixed(v) => v,
        }
    }
}

/// What [`FieldMod::compare`] returns: `Fixed(old)` when the two values
/// read the same, `New(new)` otherwise.
pub open spec fn spec_field_compare(old: String, new: String) -> FieldMod<String> {
    if old@ == new@ {
        FieldMod::Fixed(old)
    } else {
        FieldMod::New(new)
    }
}

impl FieldMod<String> {
    /// Compares an old and a new field value: equal values yield
    /// `Fixed(old)`, differing values yield `New(new)`.
    pub fn compare(old: String, new: String) -> (r: FieldMod<String>)
        ensures
            r == spec_field_compare(old, new),
    {
        if old == new {
            FieldMod::Fixed(old)
        } else {
            FieldMod::New(new)
        }
    }
}

/// The diff of one child collection against another: children to attach,
/// children to detach, and children whose own fields changed.  The items
/// are in modification form.
///
/// By construction `attached` holds only children present in the new
/// collection alone and `detached` only children present in the old
/// collection alone, so the two never share an item.
#[derive(Clone, PartialEq, Debug)]
pub struct AttachmentMod<A> {
    /// Children present only in the new collection.
    pub attached: Vec<A>,
    /// Children present only in the old collection.
    pub detached: Vec<A>,
    /// Children present in both, with their own changes.
    pub modified: Vec<A>,
}

impl<A> AttachmentMod<A> {
    /// Whether all three change lists are empty: nothing to do.
    pub open spec fn is_empty(self) -> bool {
        self.attached@.len() == 0 && self.detached@.len() == 0 && self.modified@.len() == 0
    }

    /// Whether nothing is attached or detached; `modified` may still
    /// carry per-child changes.
    pub open spec fn no_attach_detach(self) -> bool {
        self.attached@.len() == 0 && self.detached@.len() == 0
    }

    /// A change set with nothing to attach, detach or modify.
    pub fn empty() -> (r: AttachmentMod<A>)
        ensures
            r.is_empty(),
    {
        AttachmentMod { attached: Vec::new(), detached: Vec::new(), modified: Vec::new() }
    }
}

/// The mathematical value of a [`FieldMod`], with the carried value
/// abstracted to its view.
pub enum FieldModV<T> {
    /// The field changed to this value.
    New(T),
    /// The field kept this value.
    Fixed(T),
}

impl<T> FieldModV<T> {
    /// The carried value, whichever variant holds it.
    pub open spec fn value(self) -> T {
        match self {
            FieldModV::New(v) => v,
            FieldModV::Fixed(v) => v,
        }
    }

    /// Whether the field is unchanged.
    pub open spec fn is_fixed(self) -> bool {
        self matches FieldModV::Fixed(_)
    }
}

impl<T: View> View for FieldMod<T> {
    type V = FieldModV<T::V>;

    open spec fn view(&self) -> FieldModV<T::V> {
        match self {
            FieldMod::New(v) => FieldModV::New(v@),
            FieldMod::Fixed(v) => FieldModV::Fixed(v@),
        }
    }
}

/// The views of the elements of a sequence, element by element.
pub open spec fn seq_views<T: View>(s: Seq<T>) -> Seq<T::V> {
    Seq::new(s.len(), |i: int| s[i]@)
}

/// The mathematical value of an [`AttachmentMod`]: three sequences of
/// element views.
#[verifier::ext_equal]
pub struct AttachmentModV<M> {
    /// Views of the children present only in the new collection.
    pub attached: Seq<M>,
    /// Views of the children present only in the old collection.
    pub detached: Seq<M>,
    /// Views of the children present in both, with their own changes.
    pub modified: Seq<M>,
}

impl<M> AttachmentModV<M> {
    /// Whether all three change lists are empty.
    pub open spec fn is_empty(self) -> bool {
        self.attached.len() == 0 && self.detached.len() == 0 && self.modified.len() == 0
    }

    /// Whether nothing is attached or detached.
    pub open spec fn no_attach_detach(self) -> bool {
        self.attached.len() == 0 && self.detached.len() == 0
    }
}

impl<A: View> View for AttachmentMod<A> {
    type V = AttachmentModV<A::V>;

    open spec fn view(&self) -> AttachmentModV<A::V> {
        AttachmentModV {
            attached: seq_views(self.attached@),
            detached: seq_views(self.detached@),
            modified: seq_views(self.modified@),
        }
    }
}

/// The predicate holding of the values absent from `s`.
pub open spec fn not_in<V>(s: Seq<V>) -> spec_fn(V) -> bool {
    |v: V| !s.contains(v)
}

/// The default diff of two value-identity collections: attached are the
/// new elements absent from the old collection, detached the old ones
/// absent from the new, in input order; nothing is modified in place, a
/// changed value being a different value altogether.
pub open spec fn diff_tags<V>(old: Seq<V>, new: Seq<V>) -> AttachmentModV<V> {
    AttachmentModV {
        attached: new.filter(not_in(old)),
        detached: old.filter(not_in(new)),
        modified: Seq::empty(),
    }
}

/// What comparing two field values yields, at the level of views:
/// `Fixed(old)` when they are equal, `New(new)` otherwise.
pub open spec fn field_compare_v<T>(old: T, new: T) -> FieldModV<T> {
    if old == new {
        FieldModV::Fixed(old)
    } else {
        FieldModV::New(new)
    }
}

/// Relates an executable diff result to its specification: both succeed
/// with values of equal view, or both fail with the same error.
pub open spec fn diff_result_matches<T: View>(r: Result<T, DiffError>, s: Result<
    T::V,
    DiffError,
>) -> bool {
    match r {
        Ok(v) => s matches Ok(sv) && v@ == sv,
        Err(e) => s matches Err(se) && e == se,
    }
}

/// The change set that attaches a whole collection from scratch: used
/// when a fresh entity with no prior state is submitted.
pub open spec fn all_attached<V>(items: Seq<V>) -> AttachmentModV<V> {
    AttachmentModV { attached: items, detached: Seq::empty(), modified: Seq::empty() }
}

/// One unfolding step of `Seq::filter` along a growing prefix: filtering
/// the prefix of length `i + 1` appends element `i` exactly when the
/// predicate holds of it.
pub proof fn lemma_filter_take_step<T>(s: Seq<T>, pred: spec_fn(T) -> bool, i: int)
    requires
        0 <= i < s.len(),
    ensures
        s.take(i + 1).filter(pred) == (if pred(s[i]) {
            s.take(i).filter(pred).push(s[i])
        } else {
            s.take(i).filter(pred)
        }),
{
    reveal(Seq::filter);
    assert(s.take(i + 1).drop_last() =~= s.take(i));
    assert(s.take(i + 1).last() == s[i]);
}

/// Filtering by a predicate that no element satisfies yields the empty
/// sequence.
pub proof fn lemma_filter_all_false<T>(s: Seq<T>, pred: spec_fn(T) -> bool)
    requires
        forall|i: int| 0 <= i < s.len() ==> !pred(s[i]),
    ensures
        s.filter(pred) == Seq::<T>::empty(),
    decreases s.len(),
{
    reveal(Seq::filter);
    if s.len() > 0 {
        lemma_filter_all_false(s.drop_last(), pred);
    }
    assert(s.filter(pred) =~= Seq::<T>::empty());
}

/// Filtering by a predicate that every element satisfies keeps the
/// sequence as it is.
pub proof fn lemma_filter_all_true<T>(s: Seq<T>, pred: spec_fn(T) -> bool)
    requires
        forall|i: int| 0 <= i < s.len() ==> pred(#[trigger] s[i]),
    ensures
        s.filter(pred) == s,
    decreases s.len(),
{
    reveal(Seq::filter);
    if s.len() > 0 {
        lemma_filter_all_true(s.drop_last(), pred);
        assert(pred(s.last()));
    }
    assert(s.filter(pred) =~= s);
}

/// A trait which compares collections of children for use with
/// [`AttachmentMod`]: `I` is the child entity type, `A` its modification
/// type.  Each implementation carries its own exact contracts.
pub trait CompareAttachable<I, A>: Sized {
    /// The parent's current children.
    fn items(&self) -> Vec<I>;

    /// The children of `other` that must be newly attached.
    fn find_attached(&self, other: &Vec<I>) -> Vec<A>;

    /// The current children that must be detached because `other` no
    /// longer lists them.
    fn find_detached(&self, other: &Vec<I>) -> Vec<A>;

    /// The pairwise diffs of the children present on both sides, or a
    /// [`DiffError`] when the two sides cannot be paired.
    fn find_modified(&self, other: &Vec<I>) -> Result<Vec<A>, DiffError>;

    /// The full diff of the parent's children against `other`.
    fn compare_attachment(&self, other: Vec<I>) -> Result<AttachmentMod<A>, DiffError>;
}

/// The three phases of the submission protocol, in their fixed order.
pub enum PlanPhase {
    /// Attach the children present only in the new collection.
    Attach,
    /// Detach the children present only in the old collection.
    Detach,
    /// Apply the changes of the children present in both.
    Modify,
}

/// The plan of one phase for one child.
pub open spec fn item_phase_plan<P, A: AttachmentItemMod<P>>(
    item: A,
    parent: P,
    phase: PlanPhase,
) -> Result<Seq<DbOp>, DiffError> {
    match phase {
        PlanPhase::Attach => item.attach_plan(parent),
        PlanPhase::Detach => item.detach_plan(parent),
        PlanPhase::Modify => item.modify_plan(parent),
    }
}

/// The plan of one phase for a list of children: the children's plans
/// concatenated in list order, or the first error met.
pub open spec fn phase_plan<P, A: AttachmentItemMod<P>>(
    items: Seq<A>,
    parent: P,
    phase: PlanPhase,
) -> Result<Seq<DbOp>, DiffError>
    decreases items.len(),
{
    if items.len() == 0 {
        Ok(Seq::empty())
    } else {
        match item_phase_plan(items[0], parent, phase) {
            Ok(head) => match phase_plan(items.drop_first(), parent, phase) {
                Ok(tail) => Ok(head + tail),
                Err(e) => Err(e),
            },
            Err(e) => Err(e),
        }
    }
}

/// The full three-phase plan of a change set: attach everything first,
/// then detach, then modify, failing fast at the first child whose plan
/// cannot be built.
pub open spec fn changes_plan<P, A: AttachmentItemMod<P>>(
    am: AttachmentMod<A>,
    parent: P,
) -> Result<Seq<DbOp>, DiffError> {
    match phase_plan(am.attached@, parent, PlanPhase::Attach) {
        Ok(a) => match phase_plan(am.detached@, parent, PlanPhase::Detach) {
            Ok(d) => match phase_plan(am.modified@, parent, PlanPhase::Modify) {
                Ok(m) => Ok(a + d + m),
                Err(e) => Err(e),
            },
            Err(e) => Err(e),
        },
        Err(e) => Err(e),
    }
}

impl<A> AttachmentMod<A> {
    /// Builds the submission plan of this change set against `parent`:
    /// first every attach, then every detach, then every per-child
    /// modification, in the fixed phase order that avoids transient
    /// constraint violations.
    pub fn submit_changes_with<Parent>(&self, parent: &Parent) -> (r: Result<
        Vec<DbOp>,
        DiffError,
    >)
        where A: AttachmentItemMod<Parent>,
        ensures
            plan_matches(r, changes_plan(*self, *parent)),
    {
        let mut ops = match collect_phase_attach(&self.attached, parent) {
            Ok(v) => v,
            Err(e) => {
                return Err(e);
            },
        };
        let mut detach = match collect_phase_detach(&self.detached, parent) {
            Ok(v) => v,
            Err(e) => {
                return Err(e);
            },
        };
        let mut modify = match collect_phase_modify(&self.modified, parent) {
            Ok(v) => v,
            Err(e) => {
                return Err(e);
            },
        };
        ops.append(&mut detach);
        ops.append(&mut modify);
        Ok(ops)
    }
}

/// Builds the attach phase of a plan, child by child in list order,
/// stopping at the first child whose plan cannot be built.
fn collect_phase_attach<P, A: AttachmentItemMod<P>>(items: &Vec<A>, parent: &P) -> (r: Result<
    Vec<DbOp>,
    DiffError,
>)
    ensures
        plan_matches(r, phase_plan(items@, *parent, PlanPhase::Attach)),
{
    let ghost phase = PlanPhase::Attach;
    let mut ops: Vec<DbOp> = Vec::new();
    let n = items.len();
    let mut i: usize = 0;
    proof {
        assert(items@.skip(0) =~= items@);
        let whole = phase_plan(items@, *parent, phase);
        if whole is Ok {
            assert(Seq::<DbOp>::empty() + whole->Ok_0 =~= whole->Ok_0);
        }
    }
    while i < n
        invariant
            n == items@.len(),
            0 <= i <= n,
            phase == PlanPhase::Attach,
            (match phase_plan(items@.skip(i as int), *parent, phase) {
                Ok(t) => phase_plan(items@, *parent, phase) == Ok::<_, DiffError>(ops@ + t),
                Err(e) => phase_plan(items@, *parent, phase) == Err::<Seq<DbOp>, _>(e),
            }),
        decreases n - i,
    {
        proof {
            assert(items@.skip(i as int).len() > 0);
            assert(items@.skip(i as int)[0] == items@[i as int]);
            assert(items@.skip(i as int).drop_first() =~= items@.skip(i as int + 1));
        }
        match items[i].submit_attachment_to(parent) {
            Ok(mut v) => {
                proof {
                    assert(item_phase_plan(items@[i as int], *parent, phase) matches Ok(h)
                        && h == v@);
                }
                let ghost old_ops = ops@;
                let ghost head = v@;
                ops.append(&mut v);
                proof {
                    let rest = phase_plan(items@.skip(i as int + 1), *parent, phase);
                    if rest is Ok {
                        assert((old_ops + head) + rest->Ok_0 =~= old_ops + (head + rest->Ok_0));
                    }
                }
            },
            Err(e) => {
                return Err(e);
            },
        }
        i = i + 1;
    }
    proof {
        assert(items@.skip(n as int) =~= Seq::<A>::empty());
        assert(phase_plan(items@.skip(n as int), *parent, phase) == Ok::<_, DiffError>(
            Seq::<DbOp>::empty(),
        ));
        assert(ops@ + Seq::<DbOp>::empty() =~= ops@);
    }
    Ok(ops)
}

/// Builds the detach phase of a plan, child by child in list order,
/// stopping at the first child whose plan cannot be built.
fn collect_phase_detach<P, A: AttachmentItemMod<P>>(items: &Vec<A>, parent: &P) -> (r: Result<
    Vec<DbOp>,
    DiffError,
>)
    ensures
        plan_matches(r, phase_plan(items@, *parent, PlanPhase::Detach)),
{
    let ghost phase = PlanPhase::Detach;
    let mut ops: Vec<DbOp> = Vec::new();
    let n = items.len();
    let mut i: usize = 0;
    proof {
        assert(items@.skip(0) =~= items@);
        let whole = phase_plan(items@, *parent, phase);
        if whole is Ok {
            assert(Seq::<DbOp>::empty() + whole->Ok_0 =~= whole->Ok_0);
        }
    }
    while i < n
        invariant
            n == items@.len(),
            0 <= i <= n,
            phase == PlanPhase::Detach,
            (match phase_plan(items@.skip(i as int), *parent, phase) {
                Ok(t) => phase_plan(items@, *parent, phase) == Ok::<_, DiffError>(ops@ + t),
                Err(e) => phase_plan(items@, *parent, phase) == Err::<Seq<DbOp>, _>(e),
            }),
        decreases n - i,
    {
        proof {
            assert(items@.skip(i as int).len() > 0);
            assert(items@.skip(i as int)[0] == items@[i as int]);
            assert(items@.skip(i as int).drop_first() =~= items@.skip(i as int + 1));
        }
        match items[i].submit_detachment_from(parent) {
            Ok(mut v) => {
                proof {
                    assert(item_phase_plan(items@[i as int], *parent, phase) matches Ok(h)
                        && h == v@);
                }
                let ghost old_ops = ops@;
                let ghost head = v@;
                ops.append(&mut v);
                proof {
                    let rest = phase_plan(items@.skip(i as int + 1), *parent, phase);
                    if rest is Ok {
                        assert((old_ops + head) + rest->Ok_0 =~= old_ops + (head + rest->Ok_0));
                    }
                }
            },
            Err(e) => {
                return Err(e);
            },
        }
        i = i + 1;
    }
    proof {
        assert(items@.skip(n as int) =~= Seq::<A>::empty());
        assert(phase_plan(items@.skip(n as int), *parent, phase) == Ok::<_, DiffError>(
            Seq::<DbOp>::empty(),
        ));
        assert(ops@ + Seq::<DbOp>::empty() =~= ops@);
    }
    Ok(ops)
}

/// Builds the modify phase of a plan, child by child in list order,
/// stopping at the first child whose plan cannot be built.
fn collect_phase_modify<P, A: AttachmentItemMod<P>>(items: &Vec<A>, parent: &P) -> (r: Result<
    Vec<DbOp>,
    DiffError,
>)
    ensures
        plan_matches(r, phase_plan(items@, *parent, PlanPhase::Modify)),
{
    let ghost phase = PlanPhase::Modify;
    let mut ops: Vec<DbOp> = Vec::new();
    let n = items.len();
    let mut i: usize = 0;
    proof {
        assert(items@.skip(0) =~= items@);
        let whole = phase_plan(items@, *parent, phase);
        if whole is Ok {
            assert(Seq::<DbOp>::empty() + whole->Ok_0 =~= whole->Ok_0);
        }
    }
    while i < n
        invariant
            n == items@.len(),
            0 <= i <= n,
            phase == PlanPhase::Modify,
            (match phase_plan(items@.skip(i as int), *parent, phase) {
                Ok(t) => phase_plan(items@, *parent, phase) == Ok::<_, DiffError>(ops@ + t),
                Err(e) => phase_plan(items@, *parent, phase) == Err::<Seq<DbOp>, _>(e),
            }),
        decreases n - i,
    {
        proof {
            assert(items@.skip(i as int).len() > 0);
            assert(items@.skip(i as int)[0] == items@[i as int]);
            assert(items@.skip(i as int).drop_first() =~= items@.skip(i as int + 1));
        }
        match items[i].submit_modification_with(parent) {
            Ok(mut v) => {
                proof {
                    assert(item_phase_plan(items@[i as int], *parent, phase) matches Ok(h)
                        && h == v@);
                }
                let ghost old_ops = ops@;
                let ghost head = v@;
                ops.append(&mut v);
                proof {
                    let rest = phase_plan(items@.skip(i as int + 1), *parent, phase);
                    if rest is Ok {
                        assert((old_ops + head) + rest->Ok_0 =~= old_ops + (head + rest->Ok_0));
                    }
                }
            },
            Err(e) => {
                return Err(e);
            },
        }
        i = i + 1;
    }
    proof {
        assert(items@.skip(n as int) =~= Seq::<A>::empty());
        assert(phase_plan(items@.skip(n as int), *parent, phase) == Ok::<_, DiffError>(
            Seq::<DbOp>::empty(),
        ));
        assert(ops@ + Seq::<DbOp>::empty() =~= ops@);
    }
    Ok(ops)
}

} // verus!
