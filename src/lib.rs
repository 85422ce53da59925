//! Single-inheritance class hierarchies with checked downcasts and layered
//! dispatch tables.
//!
//! Every class has one parent, up to the universal root [`Object`]. A class is
//! described by a [`ClassInfo`]: its depth, the identities on its ancestor
//! chain, and its dispatch table ([`VList`]). A [`Handle`] couples a pointer
//! with the descriptor of the object's concrete class; upcasts are free and
//! gated by a proof obligation, downcasts are checked against the chain.

mod class;
mod handle;
mod laws;
mod table;

pub use class::{
    lemma_upcastable_reflexive, lemma_upcastable_transitive, upcastable, ClassId, ClassInfo, ClassView, Object,
    OBJECT_ID,
};
pub use handle::{Handle, HandleView};
pub use laws::{
    is_line, lemma_depth_law, lemma_override_visibility, lemma_rejection, lemma_root_triviality,
    lemma_round_trip, provider,
};
pub use table::{slot_of, vsize, VList, Vt};
