use vstd::prelude::*;

use crate::class::{upcastable, ClassView, OBJECT_ID};
use crate::handle::HandleView;

verus! {

/// A line of descent: the root's descriptor first, then each class derived
/// from the one before it.
pub open spec fn is_line<F>(line: Seq<ClassView<F>>) -> bool {
    &&& line.len() > 0
    &&& line[0].wf()
    &&& line[0].depth == 0
    &&& forall|k: int| 0 <= k < line.len() ==> #[trigger] line[k].wf()
    &&& forall|k: int| 0 < k < line.len() ==> #[trigger] line[k].derives_from(line[k - 1])
}

/// The position on `line`, at most `k`, of the class whose converter serves
/// level `d` for the class at position `k`: the nearest class at or below
/// `k` that overrides level `d`, or the class at depth `d` itself.
pub open spec fn provider<F>(line: Seq<ClassView<F>>, k: int, d: int) -> int
    decreases k - d,
{
    if k <= d {
        d
    } else if line[k].overridden.contains(d) {
        k
    } else {
        provider(line, k - 1, d)
    }
}

/// The root has depth 0, and each class one more than its parent: along a
/// line of descent the class at position `k` has depth `k` and `k + 1`
/// classes on its chain.
pub proof fn lemma_depth_law<F>(line: Seq<ClassView<F>>, k: int)
    requires
        is_line(line),
        0 <= k < line.len(),
    ensures
        line[k].depth == k,
        line[k].chain.len() == k + 1,
    decreases k,
{
    assert(line[k].wf());
    if k > 0 {
        assert(line[k].derives_from(line[k - 1]));
        lemma_depth_law(line, k - 1);
    }
}

/// The converter that a class uses for level `d` is the one set by the
/// nearest class at or below it that overrides level `d`, or the default of
/// the class at depth `d` when none does; classes that override nothing
/// there see that converter unchanged.
pub proof fn lemma_override_visibility<F>(line: Seq<ClassView<F>>, k: int, d: int)
    requires
        is_line(line),
        0 <= d <= k < line.len(),
    ensures
        d <= provider(line, k, d) <= k,
        line[k].level_slot(d) == line[provider(line, k, d)].level_slot(d),
    decreases k,
{
    if k > d && !line[k].overridden.contains(d) {
        assert(line[k].derives_from(line[k - 1]));
        lemma_depth_law(line, k - 1);
        lemma_override_visibility(line, k - 1, d);
    }
}

/// Upcasting a handle typed as its concrete class to any ancestor, then
/// downcasting it back to the concrete class, succeeds and gives the same
/// handle: same pointer, same descriptor, same level.
pub proof fn lemma_round_trip<P, F>(h: HandleView<P, F>, a: ClassView<F>)
    requires
        h.wf(),
        h.level == h.class.depth,
        a.wf(),
        upcastable(h.class.chain, a.chain),
    ensures
        h.upcast(a).downcast(h.class) == Ok::<HandleView<P, F>, HandleView<P, F>>(h),
{
    let c = h.class;
    let u = h.upcast(a);
    assert(c.chain[c.depth as int] == c.id());
    assert(c.downable(c.id()));
    u.lemma_index_of(c.id(), c.depth as int);
}

/// Downcasting to a class that is not on the concrete class's chain fails
/// and gives back the handle unchanged.
pub proof fn lemma_rejection<P, F>(h: HandleView<P, F>, d: ClassView<F>)
    requires
        h.wf(),
        !h.class.chain.contains(d.id()),
    ensures
        h.downcast(d) == Err::<HandleView<P, F>, HandleView<P, F>>(h),
{
}

/// Downcasting a handle typed as the root to the root always succeeds, and
/// the root has no proper ancestor.
pub proof fn lemma_root_triviality<P, F>(h: HandleView<P, F>, root: ClassView<F>)
    requires
        h.wf(),
        h.level == 0,
        root.wf(),
        root.depth == 0,
    ensures
        root.chain == seq![OBJECT_ID],
        h.downcast(root) == Ok::<HandleView<P, F>, HandleView<P, F>>(h),
        forall|a: ClassView<F>| #[trigger]
            upcastable(root.chain, a.chain) && a.wf() ==> a.chain == root.chain,
{
    assert(root.chain =~= seq![OBJECT_ID]);
    assert(h.class.chain[0] == OBJECT_ID);
    assert(h.class.downable(OBJECT_ID));
    h.lemma_index_of(OBJECT_ID, 0);
    assert forall|a: ClassView<F>| #[trigger]
        upcastable(root.chain, a.chain) && a.wf() implies a.chain == root.chain by {
        assert(a.chain =~= root.chain);
    }
}

} // verus!
