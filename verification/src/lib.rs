//! A compact, comparable bit-set of keyboard modifier keys.
//!
//! [`Modifiers`] records which modifier keys (Shift, Control, Alt, Meta,
//! Caps Lock, ...) are active during an input event. It is an immutable
//! value type backed by a `u32` bit pattern, with set algebra (union,
//! intersection, difference, containment) and named predicates for the
//! four most common queries.

mod modifiers;

pub use modifiers::InvalidBits;
pub use modifiers::Modifier;
pub use modifiers::Modifiers;
pub use modifiers::ALL_BITS;
pub use modifiers::ALT;
pub use modifiers::ALT_GRAPH;
pub use modifiers::CAPS_LOCK;
pub use modifiers::CONTROL;
pub use modifiers::FN;
pub use modifiers::FN_LOCK;
pub use modifiers::HYPER;
pub use modifiers::META;
pub use modifiers::NUM_LOCK;
pub use modifiers::SCROLL_LOCK;
pub use modifiers::SHIFT;
pub use modifiers::SUPER;
pub use modifiers::SYMBOL;
pub use modifiers::SYMBOL_LOCK;
pub use modifiers::lemma_eq_bits;
pub use modifiers::lemma_intersection_commutative;
pub use modifiers::lemma_union_commutative;
pub use modifiers::lemma_union_contains;
