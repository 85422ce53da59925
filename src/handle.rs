use vstd::prelude::*;

use crate::class::{upcastable, ClassId, ClassInfo, ClassView};
use crate::table::slot_of;

verus! {

/// The mathematical model of a handle: the wrapped pointer, the concrete
/// class's descriptor, and the depth of the class the handle is typed as.
pub ghost struct HandleView<P, F> {
    pub ptr: P,
    pub class: ClassView<F>,
    pub level: nat,
}

impl<P, F> HandleView<P, F> {
    pub open spec fn wf(self) -> bool {
        self.class.wf() && self.level <= self.class.depth
    }

    /// The chain of the class the handle is typed as.
    pub open spec fn static_chain(self) -> Seq<ClassId> {
        self.class.chain.subrange(0, self.level + 1 as int)
    }

    /// The identity of the class the handle is typed as.
    pub open spec fn static_id(self) -> ClassId {
        self.class.chain[self.level as int]
    }

    /// The handle retyped as the ancestor `target`.
    pub open spec fn upcast(self, target: ClassView<F>) -> HandleView<P, F> {
        HandleView { level: target.depth, ..self }
    }

    /// Retyping as `target` when it lies on the concrete class's chain, else
    /// the handle itself as the error.
    pub open spec fn downcast(self, target: ClassView<F>) -> Result<HandleView<P, F>, HandleView<P, F>> {
        if self.class.downable(target.id()) {
            Ok(HandleView { level: self.class.chain.index_of(target.id()) as nat, ..self })
        } else {
            Err(self)
        }
    }

    /// The slot of the concrete class's table that serves the level the
    /// handle is typed as.
    pub open spec fn view_slot(self) -> F {
        self.class.level_slot(self.level as int)
    }
}

/// A pointer to an object together with the descriptor of the object's
/// concrete class, typed as one class of that class's chain.
///
/// The descriptor is bound once, when the handle is made, and is carried
/// unchanged through every cast.
pub struct Handle<'a, P, F> {
    ptr: P,
    info: &'a ClassInfo<F>,
    level: u16,
}

impl<'a, P, F> View for Handle<'a, P, F> {
    type V = HandleView<P, F>;

    closed spec fn view(&self) -> HandleView<P, F> {
        HandleView { ptr: self.ptr, class: self.info@, level: self.level as nat }
    }
}

impl<'a, P, F> Handle<'a, P, F> {
    /// Wraps `ptr`, whose object's concrete class is described by `info`; the
    /// handle is typed as that class.
    pub fn new(ptr: P, info: &'a ClassInfo<F>) -> (r: Self)
        requires
            info@.wf(),
        ensures
            r@.wf(),
            r@ == (HandleView { ptr, class: info@, level: info@.depth }),
            r@.static_chain() == info@.chain,
    {
        assert(info@.chain.subrange(0, info@.depth + 1 as int) =~= info@.chain);
        Handle { ptr, info, level: info.depth() }
    }

    /// The descriptor of the concrete class.
    pub fn info(&self) -> (r: &'a ClassInfo<F>)
        ensures
            r@ == self@.class,
    {
        self.info
    }

    /// The depth of the class the handle is typed as.
    pub fn level(&self) -> (r: u16)
        ensures
            r == self@.level,
    {
        self.level
    }

    /// The wrapped pointer.
    pub fn get(&self) -> (r: &P)
        ensures
            *r == self@.ptr,
    {
        &self.ptr
    }

    /// The wrapped pointer, for writing.
    pub fn get_mut(&mut self) -> (r: &mut P)
        ensures
            *r == old(self)@.ptr,
            final(self)@ == (HandleView { ptr: *final(r), ..old(self)@ }),
    {
        &mut self.ptr
    }

    /// Gives the pointer back, releasing the handle.
    pub fn into_inner(self) -> (r: P)
        ensures
            r == self@.ptr,
    {
        self.ptr
    }

    /// Retypes the handle as `target`, an ancestor of the class it is typed
    /// as. This cannot fail.
    pub fn upcast(self, target: &ClassInfo<F>) -> (r: Self)
        requires
            self@.wf(),
            target@.wf(),
            upcastable(self@.static_chain(), target@.chain),
        ensures
            r@.wf(),
            r@ == self@.upcast(target@),
            r@.static_id() == target@.id(),
    {
        let level: u16 = target.depth();
        Handle { ptr: self.ptr, info: self.info, level }
    }

    /// Retypes the handle as `target`, a descendant of the class it is typed
    /// as, if `target` lies on the concrete class's chain; else gives the
    /// handle back unchanged.
    pub fn downcast(self, target: &ClassInfo<F>) -> (r: Result<Self, Self>)
        requires
            self@.wf(),
            target@.wf(),
            upcastable(target@.chain, self@.static_chain()),
        ensures
            r is Ok <==> self@.class.downable(target@.id()),
            match r {
                Ok(h) => self@.downcast(target@) == Ok::<HandleView<P, F>, HandleView<P, F>>(h@)
                    && h@.wf() && h@.static_id() == target@.id(),
                Err(h) => self@.downcast(target@) == Err::<HandleView<P, F>, HandleView<P, F>>(h@)
                    && h@ == self@,
            },
    {
        let id: ClassId = target.id();
        match self.info.find(id) {
            Some(k) => {
                proof {
                    self@.lemma_index_of(id, k as int);
                }
                Ok(Handle { ptr: self.ptr, info: self.info, level: k })
            },
            None => Err(self),
        }
    }

    /// A handle that borrows the pointer, typed as `target`, if `target` lies
    /// on the concrete class's chain.
    pub fn downcast_ref<'b>(&'b self, target: &ClassInfo<F>) -> (r: Option<Handle<'a, &'b P, F>>)
        requires
            self@.wf(),
            target@.wf(),
            upcastable(target@.chain, self@.static_chain()),
        ensures
            r is Some <==> self@.class.downable(target@.id()),
            r matches Some(h) ==> (h@.wf() && h@.static_id() == target@.id() && *h@.ptr
                == self@.ptr && self@.downcast(target@) == Ok::<HandleView<P, F>, HandleView<P, F>>(
                HandleView { ptr: self@.ptr, class: h@.class, level: h@.level },
            )),
    {
        let id: ClassId = target.id();
        match self.info.find(id) {
            Some(k) => {
                proof {
                    self@.lemma_index_of(id, k as int);
                }
                Some(Handle { ptr: &self.ptr, info: self.info, level: k })
            },
            None => None,
        }
    }

    /// A handle that borrows the pointer exclusively, typed as `target`, if
    /// `target` lies on the concrete class's chain. What is written through
    /// it is what the original handle holds afterwards.
    pub fn downcast_mut<'b>(&'b mut self, target: &ClassInfo<F>) -> (r: Option<
        Handle<'a, &'b mut P, F>,
    >)
        requires
            old(self)@.wf(),
            target@.wf(),
            upcastable(target@.chain, old(self)@.static_chain()),
        ensures
            r is Some <==> old(self)@.class.downable(target@.id()),
            r matches Some(h) ==> (h@.wf() && h@.static_id() == target@.id() && *h@.ptr == old(
                self,
            )@.ptr && old(self)@.downcast(target@) == Ok::<HandleView<P, F>, HandleView<P, F>>(
                HandleView { ptr: old(self)@.ptr, class: h@.class, level: h@.level },
            ) && final(self)@ == (HandleView { ptr: *final(h@.ptr), ..old(self)@ })),
            r is None ==> final(self)@ == old(self)@,
    {
        let id: ClassId = target.id();
        match self.info.find(id) {
            Some(k) => {
                proof {
                    self@.lemma_index_of(id, k as int);
                }
                Some(Handle { ptr: &mut self.ptr, info: self.info, level: k })
            },
            None => None,
        }
    }

    /// The converter that the concrete class's table holds for the level the
    /// handle is typed as: slot `depth - level`.
    pub fn dynamic_view(&self) -> (r: &F)
        requires
            self@.wf(),
        ensures
            *r == self@.view_slot(),
            *r == self@.class.table[self@.class.depth - self@.level],
    {
        let offset: u16 = self.info.depth() - self.level;
        self.info.vtable().slot(offset as usize)
    }
}

impl<P, F> HandleView<P, F> {
    /// On a chain without repeats, the depth found for `id` is the one that
    /// `downcast` speaks of.
    pub proof fn lemma_index_of(self, id: ClassId, k: int)
        requires
            self.class.wf(),
            0 <= k < self.class.chain.len(),
            self.class.chain[k] == id,
        ensures
            self.class.chain.index_of(id) == k,
    {
        let i: int = self.class.chain.index_of(id);
        assert(self.class.chain.contains(id));
        assert(0 <= i < self.class.chain.len() && self.class.chain[i] == id);
    }
}

} // verus!
