use vstd::prelude::*;

use crate::table::{slot_of, VList, Vt};

verus! {

/// A class's identity: unique and stable for the whole process.
pub type ClassId = u64;

/// The identity of the universal root class.
pub const OBJECT_ID: ClassId = 0;

/// The mathematical model of a class descriptor.
pub ghost struct ClassView<F> {
    /// The number of proper ancestors.
    pub depth: nat,
    /// The identities on the ancestor chain: `chain[k]` is the ancestor at
    /// depth `k`, the last one is the class itself, the first one the root.
    pub chain: Seq<ClassId>,
    /// The dispatch table, own level first.
    pub table: Seq<F>,
    /// The levels whose converter this class set explicitly.
    pub overridden: Set<int>,
}

impl<F> ClassView<F> {
    /// The class's own identity.
    pub open spec fn id(self) -> ClassId {
        self.chain.last()
    }

    pub open spec fn wf(self) -> bool {
        &&& self.chain.len() == self.depth + 1
        &&& self.table.len() == self.depth + 1
        &&& self.depth <= u16::MAX
        &&& self.chain[0] == OBJECT_ID
        &&& self.chain.no_duplicates()
    }

    /// The converter this class uses for the dynamic view of its ancestor at
    /// depth `d`.
    pub open spec fn level_slot(self, d: int) -> F {
        self.table[slot_of(self.table.len() as int, d)]
    }

    /// Whether `id` names a class on this class's chain, the class itself and
    /// the root included.
    pub open spec fn downable(self, id: ClassId) -> bool {
        self.chain.contains(id)
    }

    /// `self` is derived from `parent` by one step: one level deeper, the
    /// parent's chain followed by a new identity, and the parent's converter
    /// kept at every level that `self` did not override.
    pub open spec fn derives_from(self, parent: ClassView<F>) -> bool {
        &&& self.depth == parent.depth + 1
        &&& self.chain.drop_last() == parent.chain
        &&& forall|d: int|
            0 <= d <= parent.depth && !self.overridden.contains(d) ==> #[trigger] self.level_slot(d)
                == parent.level_slot(d)
    }
}

/// Whether a class with chain `from` may be viewed as the class with chain
/// `to`: `to` is `from` itself or one of its ancestors.
pub open spec fn upcastable(from: Seq<ClassId>, to: Seq<ClassId>) -> bool {
    to.len() <= from.len() && from.subrange(0, to.len() as int) == to
}

/// Every class may be viewed as itself.
pub proof fn lemma_upcastable_reflexive(c: Seq<ClassId>)
    ensures
        upcastable(c, c),
{
    assert(c.subrange(0, c.len() as int) =~= c);
}

/// The ancestor relation is transitive: a class may be viewed as any
/// ancestor of any of its ancestors.
pub proof fn lemma_upcastable_transitive(a: Seq<ClassId>, b: Seq<ClassId>, c: Seq<ClassId>)
    requires
        upcastable(a, b),
        upcastable(b, c),
    ensures
        upcastable(a, c),
{
    assert(a.subrange(0, c.len() as int) =~= b.subrange(0, c.len() as int));
}

/// The descriptor of one class: its depth, its ancestor chain and its
/// dispatch table. Descriptors are built once, root first, and never change.
pub struct ClassInfo<F> {
    depth: u16,
    chain: Vec<ClassId>,
    vtable: VList<F>,
    overridden: Ghost<Set<int>>,
}

impl<F> View for ClassInfo<F> {
    type V = ClassView<F>;

    closed spec fn view(&self) -> ClassView<F> {
        ClassView {
            depth: self.depth as nat,
            chain: self.chain@,
            table: self.vtable@,
            overridden: self.overridden@,
        }
    }
}

/// The universal root class. Its dynamic view is trivial.
pub struct Object;

impl Object {
    /// The root's descriptor: depth 0, a chain of its own identity alone, and
    /// a table of the single converter `stub`.
    pub fn info<F>(stub: F) -> (r: ClassInfo<F>)
        ensures
            r@.wf(),
            r@.depth == 0,
            r@.chain == seq![OBJECT_ID],
            r@.table == seq![stub],
            r@.overridden == Set::<int>::empty(),
    {
        let mut chain: Vec<ClassId> = Vec::new();
        chain.push(OBJECT_ID);
        ClassInfo { depth: 0, chain, vtable: VList::single(stub), overridden: Ghost(Set::empty()) }
    }
}

impl<F> ClassInfo<F> {
    /// The descriptor of a class derived from `parent` under the identity
    /// `id`, with the table built by `vt` from the parent's table.
    pub fn derive(parent: &ClassInfo<F>, id: ClassId, vt: Vt<F>) -> (r: ClassInfo<F>)
        where F: Copy
        requires
            parent@.wf(),
            parent@.depth < u16::MAX,
            !parent@.chain.contains(id),
            vt.layered(),
            vt.base() == parent@.table,
        ensures
            r@.wf(),
            r@.derives_from(parent@),
            r@.depth == parent@.depth + 1,
            r@.id() == id,
            r@.chain == parent@.chain.push(id),
            upcastable(r@.chain, parent@.chain),
            forall|x: ClassId| #[trigger] r@.downable(x) <==> (x == id || parent@.downable(x)),
            r@.table == vt@,
            r@.overridden == vt.overridden(),
    {
        let mut chain: Vec<ClassId> = Vec::new();
        let n: usize = parent.chain.len();
        let mut i: usize = 0;
        while i < n
            invariant
                n == parent@.chain.len(),
                i <= n,
                chain@ == parent@.chain.subrange(0, i as int),
            decreases n - i,
        {
            chain.push(parent.chain[i]);
            i += 1;
        }
        chain.push(id);
        let ghost ovr = vt.overridden();
        let vtable = vt.into_inner();
        let r = ClassInfo { depth: parent.depth + 1, chain, vtable, overridden: Ghost(ovr) };
        proof {
            assert(parent@.chain.subrange(0, n as int) == parent@.chain);
            assert(r@.chain.drop_last() == parent@.chain);
            assert(r@.chain.subrange(0, parent@.chain.len() as int) =~= parent@.chain);
            assert forall|x: ClassId| #[trigger] r@.downable(x) <==> (x == id || parent@.downable(x)) by {
                if parent@.downable(x) {
                    let j = choose|j: int| 0 <= j < parent@.chain.len() && parent@.chain[j] == x;
                    assert(r@.chain[j] == x);
                }
                if x == id {
                    assert(r@.chain[r@.chain.len() - 1] == x);
                }
                if r@.downable(x) && x != id {
                    let j = choose|j: int| 0 <= j < r@.chain.len() && r@.chain[j] == x;
                    assert(parent@.chain[j] == x);
                }
            }
            assert forall|j: int, k: int| 0 <= j < k < r@.chain.len() implies r@.chain[j]
                != r@.chain[k] by {
                if k == r@.chain.len() - 1 {
                    assert(parent@.chain[j] == r@.chain[j]);
                }
            }
        }
        r
    }

    /// The number of proper ancestors.
    pub fn depth(&self) -> (r: u16)
        ensures
            r == self@.depth,
    {
        self.depth
    }

    /// The class's own identity.
    pub fn id(&self) -> (r: ClassId)
        requires
            self@.wf(),
        ensures
            r == self@.id(),
    {
        self.chain[self.chain.len() - 1]
    }

    /// The class's dispatch table.
    pub fn vtable(&self) -> (r: &VList<F>)
        ensures
            r@ == self@.table,
    {
        &self.vtable
    }

    /// The depth at which `id` stands on the chain, if it does.
    pub fn find(&self, id: ClassId) -> (r: Option<u16>)
        requires
            self@.wf(),
        ensures
            r is Some <==> self@.downable(id),
            r matches Some(k) ==> (k <= self@.depth && self@.chain[k as int] == id),
    {
        let n: usize = self.chain.len();
        let mut i: usize = 0;
        while i < n
            invariant
                n == self@.chain.len(),
                n == self@.depth + 1,
                self@.depth <= u16::MAX,
                i <= n,
                forall|j: int| 0 <= j < i ==> self@.chain[j] != id,
            decreases n - i,
        {
            if self.chain[i] == id {
                return Some(i as u16);
            }
            i += 1;
        }
        None
    }

    /// Whether `id` names a class on this class's chain.
    pub fn downable(&self, id: ClassId) -> (r: bool)
        requires
            self@.wf(),
        ensures
            r == self@.downable(id),
    {
        self.find(id).is_some()
    }
}

} // verus!
