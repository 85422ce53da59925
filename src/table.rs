use vstd::prelude::*;

verus! {

/// A layered dispatch table.
///
/// Slot `i` of the table of a class at depth `n` holds the converter that
/// produces the dynamic view of the ancestor at depth `n - i`: slot 0 is the
/// class's own level, the last slot is the root's level.
pub struct VList<F> {
    slots: Vec<F>,
}

impl<F> View for VList<F> {
    type V = Seq<F>;

    closed spec fn view(&self) -> Seq<F> {
        self.slots@
    }
}

/// The number of slots of a dispatch table: one more than its class's depth.
pub fn vsize<F>(t: &VList<F>) -> (r: usize)
    ensures
        r == t@.len(),
{
    t.slots.len()
}

impl<F> VList<F> {
    /// The root's table: a single slot.
    pub fn single(f: F) -> (r: VList<F>)
        ensures
            r@ == seq![f],
    {
        let mut slots: Vec<F> = Vec::new();
        slots.push(f);
        VList { slots }
    }

    /// The converter at slot `i`.
    pub fn slot(&self, i: usize) -> (r: &F)
        requires
            i < self@.len(),
        ensures
            *r == self@[i as int],
    {
        &self.slots[i]
    }
}

/// Builder of a derived class's dispatch table.
///
/// It starts as the class's own converter in front of the parent's full
/// table, and records which levels were explicitly overridden since.
pub struct Vt<F> {
    slots: Vec<F>,
    base: Ghost<Seq<F>>,
    overridden: Ghost<Set<int>>,
}

impl<F> View for Vt<F> {
    type V = Seq<F>;

    closed spec fn view(&self) -> Seq<F> {
        self.slots@
    }
}

/// Index of the slot that holds the converter for `level` in a table of
/// `len` slots.
pub open spec fn slot_of(len: int, level: int) -> int {
    len - 1 - level
}

impl<F: Copy> Vt<F> {
    /// The levels that were overridden on this builder.
    pub closed spec fn overridden(&self) -> Set<int> {
        self.overridden@
    }

    /// The parent's table that this builder started from.
    pub closed spec fn base(&self) -> Seq<F> {
        self.base@
    }

    /// One slot more than the parent's table, and every level of the parent
    /// that was not overridden keeps the parent's converter.
    pub open spec fn layered(&self) -> bool {
        &&& self@.len() == self.base().len() + 1
        &&& forall|d: int|
            0 <= d < self.base().len() && !self.overridden().contains(d) ==> #[trigger] self@[slot_of(
                self@.len() as int,
                d,
            )] == self.base()[slot_of(self.base().len() as int, d)]
    }

    /// Starts a derived class's table: `own` for the class's own level, then
    /// every slot of the parent's table, with no level overridden.
    pub fn new(own: F, parent: &VList<F>) -> (r: Vt<F>)
        requires
            parent@.len() < usize::MAX,
        ensures
            r@ == seq![own] + parent@,
            r.base() == parent@,
            r.overridden() == Set::<int>::empty(),
            r.layered(),
    {
        let mut slots: Vec<F> = Vec::new();
        slots.push(own);
        let n: usize = parent.slots.len();
        let mut i: usize = 0;
        while i < n
            invariant
                n == parent@.len(),
                i <= n,
                slots@ == seq![own] + parent@.subrange(0, i as int),
            decreases n - i,
        {
            let f: F = parent.slots[i];
            slots.push(f);
            i += 1;
            proof {
                assert(parent@.subrange(0, i as int) == parent@.subrange(0, i - 1 as int).push(f));
            }
        }
        proof {
            assert(parent@.subrange(0, n as int) == parent@);
        }
        Vt { slots, base: Ghost(parent@), overridden: Ghost(Set::empty()) }
    }

    /// Replaces the converter of the ancestor at depth `level` (at most the
    /// class's own depth) by `f`.
    pub fn override_level(self, level: usize, f: F) -> (r: Vt<F>)
        requires
            level < self@.len(),
        ensures
            r@ == self@.update(slot_of(self@.len() as int, level as int), f),
            r.base() == self.base(),
            r.overridden() == self.overridden().insert(level as int),
            self.layered() ==> r.layered(),
    {
        let mut slots = self.slots;
        let len: usize = slots.len();
        slots.set(len - 1 - level, f);
        Vt { slots, base: self.base, overridden: Ghost(self.overridden@.insert(level as int)) }
    }

    /// The finished table.
    pub fn into_inner(self) -> (r: VList<F>)
        ensures
            r@ == self@,
    {
        VList { slots: self.slots }
    }
}

} // verus!
