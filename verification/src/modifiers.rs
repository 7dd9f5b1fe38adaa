//! The modifier-key bit set.
//!
//! Each modifier key owns one power-of-two bit of a `u32`. A set of
//! modifiers is the bitwise OR of the bits of its members; the empty set
//! is `0`. Fourteen bit positions are defined; a well-formed set never
//! has a bit outside them.

use vstd::prelude::*;

verus! {

/// Bit of the Alt (or Option) key.
pub const ALT: u32 = 0x1;

/// Bit of the Alternate Graphics key.
pub const ALT_GRAPH: u32 = 0x2;

/// Bit of the Caps Lock key.
pub const CAPS_LOCK: u32 = 0x4;

/// Bit of the Control key.
pub const CONTROL: u32 = 0x8;

/// Bit of the Function switch key.
pub const FN: u32 = 0x10;

/// Bit of the Function-Lock key.
pub const FN_LOCK: u32 = 0x20;

/// Bit of the Meta key ("windows" on PC, "command" on Mac).
pub const META: u32 = 0x40;

/// Bit of the Num Lock key.
pub const NUM_LOCK: u32 = 0x80;

/// Bit of the Scroll Lock key.
pub const SCROLL_LOCK: u32 = 0x100;

/// Bit of the Shift key.
pub const SHIFT: u32 = 0x200;

/// Bit of the Symbol key.
pub const SYMBOL: u32 = 0x400;

/// Bit of the Symbol-Lock key.
pub const SYMBOL_LOCK: u32 = 0x800;

/// Bit of the legacy Hyper key.
pub const HYPER: u32 = 0x1000;

/// Bit of the legacy Super key.
pub const SUPER: u32 = 0x2000;

/// All fourteen defined modifier bits together.
pub const ALL_BITS: u32 = 0x3fff;

/// One named modifier key.
#[derive(Clone, Copy, Debug, PartialEq, Eq, Hash, Structural)]
pub enum Modifier {
    Alt,
    AltGraph,
    CapsLock,
    Control,
    Fn,
    FnLock,
    Meta,
    NumLock,
    ScrollLock,
    Shift,
    Symbol,
    SymbolLock,
    Hyper,
    Super,
}

impl Modifier {
    /// The bit that this modifier owns in the raw pattern.
    pub open spec fn spec_bit(self) -> u32 {
        match self {
            Modifier::Alt => ALT,
            Modifier::AltGraph => ALT_GRAPH,
            Modifier::CapsLock => CAPS_LOCK,
            Modifier::Control => CONTROL,
            Modifier::Fn => FN,
            Modifier::FnLock => FN_LOCK,
            Modifier::Meta => META,
            Modifier::NumLock => NUM_LOCK,
            Modifier::ScrollLock => SCROLL_LOCK,
            Modifier::Shift => SHIFT,
            Modifier::Symbol => SYMBOL,
            Modifier::SymbolLock => SYMBOL_LOCK,
            Modifier::Hyper => HYPER,
            Modifier::Super => SUPER,
        }
    }

    /// The bit that this modifier owns in the raw pattern.
    #[verifier::when_used_as_spec(spec_bit)]
    pub fn bit(self) -> (r: u32)
        ensures
            r == self.spec_bit(),
    {
        match self {
            Modifier::Alt => ALT,
            Modifier::AltGraph => ALT_GRAPH,
            Modifier::CapsLock => CAPS_LOCK,
            Modifier::Control => CONTROL,
            Modifier::Fn => FN,
            Modifier::FnLock => FN_LOCK,
            Modifier::Meta => META,
            Modifier::NumLock => NUM_LOCK,
            Modifier::ScrollLock => SCROLL_LOCK,
            Modifier::Shift => SHIFT,
            Modifier::Symbol => SYMBOL,
            Modifier::SymbolLock => SYMBOL_LOCK,
            Modifier::Hyper => HYPER,
            Modifier::Super => SUPER,
        }
    }
}

/// Error of the strict constructor: the raw pattern had a bit set outside
/// the fourteen defined positions.
#[derive(Clone, Copy, Debug, PartialEq, Eq, Structural)]
pub struct InvalidBits;

/// Currently pressed modifier keys, as an immutable bit-set value.
///
/// Equality, ordering and hashing go purely by the underlying bit
/// pattern, so the type can serve as a map or sort key.
#[derive(Clone, Copy, Debug, PartialEq, Eq, Hash, Ord, Structural)]
#[verifier::ext_equal]
pub struct Modifiers {
    bits: u32,
}

impl PartialOrd for Modifiers {
    /// Order two sets by their raw bit patterns.
    fn partial_cmp(&self, other: &Modifiers) -> (r: Option<core::cmp::Ordering>) {
        if self.bits < other.bits {
            Some(core::cmp::Ordering::Less)
        } else if self.bits == other.bits {
            Some(core::cmp::Ordering::Equal)
        } else {
            Some(core::cmp::Ordering::Greater)
        }
    }
}

impl vstd::std_specs::cmp::PartialOrdSpecImpl for Modifiers {
    open spec fn obeys_partial_cmp_spec() -> bool {
        true
    }

    open spec fn partial_cmp_spec(&self, other: &Modifiers) -> Option<core::cmp::Ordering> {
        if self.spec_bits() < other.spec_bits() {
            Some(core::cmp::Ordering::Less)
        } else if self.spec_bits() == other.spec_bits() {
            Some(core::cmp::Ordering::Equal)
        } else {
            Some(core::cmp::Ordering::Greater)
        }
    }
}

impl View for Modifiers {
    type V = Set<Modifier>;

    open spec fn view(&self) -> Set<Modifier> {
        Set::new(|m: Modifier| self.spec_has(m))
    }
}

impl Modifiers {
    /// The raw bit pattern behind the set.
    pub closed spec fn spec_bits(self) -> u32 {
        self.bits
    }

    /// The raw pattern never has a bit outside the defined positions.
    #[verifier::type_invariant]
    pub open spec fn wf(self) -> bool {
        self.spec_bits() & ALL_BITS == self.spec_bits()
    }

    /// Whether the modifier `m` is in the set.
    pub open spec fn spec_has(self, m: Modifier) -> bool {
        self.spec_bits() & m.spec_bit() != 0
    }

    /// Whether every modifier of `other` is also in `self`.
    pub open spec fn spec_contains(self, other: Modifiers) -> bool {
        self.spec_bits() & other.spec_bits() == other.spec_bits()
    }

    /// Whether no modifier is in the set.
    pub open spec fn spec_is_empty(self) -> bool {
        self.spec_bits() == 0
    }

    /// The set whose pattern is the bitwise OR of the two patterns.
    pub closed spec fn spec_union(self, other: Modifiers) -> Modifiers {
        Modifiers { bits: self.bits | other.bits }
    }

    /// The set whose pattern is the bitwise AND of the two patterns.
    pub closed spec fn spec_intersection(self, other: Modifiers) -> Modifiers {
        Modifiers { bits: self.bits & other.bits }
    }

    /// The set holding the bits of `self` that are not in `other`.
    pub closed spec fn spec_difference(self, other: Modifiers) -> Modifiers {
        Modifiers { bits: self.bits & !other.bits }
    }

    /// The empty set: no modifier pressed.
    pub fn empty() -> (r: Modifiers)
        ensures
            r.spec_bits() == 0,
            r.spec_is_empty(),
            forall|m: Modifier| !r.spec_has(m),
            r@ == Set::<Modifier>::empty(),
    {
        proof {
            assert(0u32 & 0x3fffu32 == 0u32) by (bit_vector);
        }
        let r = Modifiers { bits: 0 };
        proof {
            assert forall|m: Modifier| !r.spec_has(m) by {
                lemma_and_zero(m.spec_bit());
            }
            assert(r@ =~= Set::<Modifier>::empty());
        }
        r
    }

    /// The raw bit pattern of the set.
    pub fn bits(&self) -> (r: u32)
        ensures
            r == self.spec_bits(),
    {
        self.bits
    }

    /// Strict constructor: accepts exactly the patterns whose bits all
    /// lie in the defined positions, and keeps such a pattern unchanged.
    pub fn from_bits(raw: u32) -> (r: Result<Modifiers, InvalidBits>)
        ensures
            r is Ok <==> raw & ALL_BITS == raw,
            r is Ok ==> r->Ok_0.spec_bits() == raw,
    {
        if raw & ALL_BITS == raw {
            Ok(Modifiers { bits: raw })
        } else {
            Err(InvalidBits)
        }
    }

    /// Lenient constructor: clears every undefined bit and never fails.
    pub fn from_bits_truncate(raw: u32) -> (r: Modifiers)
        ensures
            r.spec_bits() == raw & ALL_BITS,
            forall|m: Modifier| #[trigger] r.spec_has(m) <==> raw & m.spec_bit() != 0,
    {
        proof {
            assert((raw & 0x3fffu32) & 0x3fffu32 == raw & 0x3fffu32) by (bit_vector);
        }
        let r = Modifiers { bits: raw & ALL_BITS };
        proof {
            assert forall|m: Modifier| #[trigger] r.spec_has(m) <==> raw & m.spec_bit() != 0 by {
                lemma_defined_bit(m);
                lemma_defined_bit_ops(raw, 0, m.spec_bit());
            }
        }
        r
    }

    /// The set containing exactly one named modifier.
    pub fn single(m: Modifier) -> (r: Modifiers)
        ensures
            r.spec_bits() == m.spec_bit(),
            forall|k: Modifier| #[trigger] r.spec_has(k) <==> k == m,
    {
        proof {
            lemma_defined_bit(m);
        }
        let r = Modifiers { bits: m.bit() };
        proof {
            assert forall|k: Modifier| #[trigger] r.spec_has(k) <==> k == m by {
                lemma_defined_bit(k);
                lemma_defined_bit(m);
                if k == m {
                    let b = m.spec_bit();
                    assert(b & b == b) by (bit_vector);
                } else {
                    lemma_bit_injective(k, m);
                    lemma_distinct_bits(m.spec_bit(), k.spec_bit());
                }
            }
        }
        r
    }

    /// Union: a modifier is in the result iff it is in `self` or `other`.
    pub fn union(self, other: Modifiers) -> (r: Modifiers)
        ensures
            r == self.spec_union(other),
            r.spec_bits() == self.spec_bits() | other.spec_bits(),
            forall|m: Modifier| #[trigger] r.spec_has(m) <==> self.spec_has(m) || other.spec_has(
                m,
            ),
            r@ == self@.union(other@),
    {
        proof {
            use_type_invariant(self);
            use_type_invariant(other);
            let x: u32 = self.bits;
            let y: u32 = other.bits;
            assert((x | y) & 0x3fffu32 == (x | y)) by (bit_vector)
                requires
                    x & 0x3fffu32 == x,
                    y & 0x3fffu32 == y,
            ;
        }
        let r = Modifiers { bits: self.bits | other.bits };
        proof {
            assert forall|m: Modifier| #[trigger] r.spec_has(m) <==> self.spec_has(m)
                || other.spec_has(m) by {
                lemma_defined_bit(m);
                lemma_defined_bit_ops(self.spec_bits(), other.spec_bits(), m.spec_bit());
            }
            assert(r@ =~= self@.union(other@));
        }
        r
    }

    /// Intersection: a modifier is in the result iff it is in both sets.
    pub fn intersection(self, other: Modifiers) -> (r: Modifiers)
        ensures
            r == self.spec_intersection(other),
            r.spec_bits() == self.spec_bits() & other.spec_bits(),
            forall|m: Modifier| #[trigger] r.spec_has(m) <==> self.spec_has(m) && other.spec_has(
                m,
            ),
            r@ == self@.intersect(other@),
    {
        proof {
            use_type_invariant(self);
            let x: u32 = self.bits;
            let y: u32 = other.bits;
            assert((x & y) & 0x3fffu32 == (x & y)) by (bit_vector)
                requires
                    x & 0x3fffu32 == x,
            ;
        }
        let r = Modifiers { bits: self.bits & other.bits };
        proof {
            assert forall|m: Modifier| #[trigger] r.spec_has(m) <==> self.spec_has(m)
                && other.spec_has(m) by {
                lemma_defined_bit(m);
                lemma_defined_bit_ops(self.spec_bits(), other.spec_bits(), m.spec_bit());
            }
            assert(r@ =~= self@.intersect(other@));
        }
        r
    }

    /// Difference: the modifiers of `self` that are not in `other`.
    pub fn difference(self, other: Modifiers) -> (r: Modifiers)
        ensures
            r == self.spec_difference(other),
            r.spec_bits() == self.spec_bits() & !other.spec_bits(),
            forall|m: Modifier| #[trigger] r.spec_has(m) <==> self.spec_has(m) && !other.spec_has(
                m,
            ),
            r@ == self@.difference(other@),
    {
        proof {
            use_type_invariant(self);
            let x: u32 = self.bits;
            let y: u32 = other.bits;
            assert((x & !y) & 0x3fffu32 == (x & !y)) by (bit_vector)
                requires
                    x & 0x3fffu32 == x,
            ;
        }
        let r = Modifiers { bits: self.bits & !other.bits };
        proof {
            assert forall|m: Modifier| #[trigger] r.spec_has(m) <==> self.spec_has(m)
                && !other.spec_has(m) by {
                lemma_defined_bit(m);
                lemma_defined_bit_ops(self.spec_bits(), other.spec_bits(), m.spec_bit());
            }
            assert(r@ =~= self@.difference(other@));
        }
        r
    }

    /// Containment: true iff every bit set in `other` is also set in
    /// `self`; in particular the empty set is contained in every set.
    pub fn contains(self, other: Modifiers) -> (r: bool)
        ensures
            r == self.spec_contains(other),
            r <==> (forall|m: Modifier| #[trigger] other.spec_has(m) ==> self.spec_has(m)),
            r <==> other@.subset_of(self@),
    {
        proof {
            use_type_invariant(other);
            let x: u32 = self.bits;
            let y: u32 = other.bits;
            if x & y == y {
                assert forall|m: Modifier| #[trigger] other.spec_has(m) implies self.spec_has(
                    m,
                ) by {
                    lemma_subset_bit(x, y, m.spec_bit());
                }
            }
            if forall|m: Modifier| #[trigger] other.spec_has(m) ==> self.spec_has(m) {
                assert(other.spec_has(Modifier::Alt) ==> self.spec_has(Modifier::Alt));
                assert(other.spec_has(Modifier::AltGraph) ==> self.spec_has(Modifier::AltGraph));
                assert(other.spec_has(Modifier::CapsLock) ==> self.spec_has(Modifier::CapsLock));
                assert(other.spec_has(Modifier::Control) ==> self.spec_has(Modifier::Control));
                assert(other.spec_has(Modifier::Fn) ==> self.spec_has(Modifier::Fn));
                assert(other.spec_has(Modifier::FnLock) ==> self.spec_has(Modifier::FnLock));
                assert(other.spec_has(Modifier::Meta) ==> self.spec_has(Modifier::Meta));
                assert(other.spec_has(Modifier::NumLock) ==> self.spec_has(Modifier::NumLock));
                assert(other.spec_has(Modifier::ScrollLock) ==> self.spec_has(
                    Modifier::ScrollLock,
                ));
                assert(other.spec_has(Modifier::Shift) ==> self.spec_has(Modifier::Shift));
                assert(other.spec_has(Modifier::Symbol) ==> self.spec_has(Modifier::Symbol));
                assert(other.spec_has(Modifier::SymbolLock) ==> self.spec_has(
                    Modifier::SymbolLock,
                ));
                assert(other.spec_has(Modifier::Hyper) ==> self.spec_has(Modifier::Hyper));
                assert(other.spec_has(Modifier::Super) ==> self.spec_has(Modifier::Super));
                assert(x & y == y) by (bit_vector)
                    requires
                        y & 0x3fffu32 == y,
                        (y & 0x1u32 != 0 ==> x & 0x1u32 != 0),
                        (y & 0x2u32 != 0 ==> x & 0x2u32 != 0),
                        (y & 0x4u32 != 0 ==> x & 0x4u32 != 0),
                        (y & 0x8u32 != 0 ==> x & 0x8u32 != 0),
                        (y & 0x10u32 != 0 ==> x & 0x10u32 != 0),
                        (y & 0x20u32 != 0 ==> x & 0x20u32 != 0),
                        (y & 0x40u32 != 0 ==> x & 0x40u32 != 0),
                        (y & 0x80u32 != 0 ==> x & 0x80u32 != 0),
                        (y & 0x100u32 != 0 ==> x & 0x100u32 != 0),
                        (y & 0x200u32 != 0 ==> x & 0x200u32 != 0),
                        (y & 0x400u32 != 0 ==> x & 0x400u32 != 0),
                        (y & 0x800u32 != 0 ==> x & 0x800u32 != 0),
                        (y & 0x1000u32 != 0 ==> x & 0x1000u32 != 0),
                        (y & 0x2000u32 != 0 ==> x & 0x2000u32 != 0),
                ;
            }
            if forall|m: Modifier| #[trigger] other.spec_has(m) ==> self.spec_has(m) {
                assert forall|m: Modifier| other@.contains(m) implies self@.contains(m) by {
                    assert(other.spec_has(m) ==> self.spec_has(m));
                }
                assert(other@.subset_of(self@));
            }
            if other@.subset_of(self@) {
                assert forall|m: Modifier| #[trigger] other.spec_has(m) implies self.spec_has(
                    m,
                ) by {
                    assert(other@.contains(m));
                }
            }
        }
        self.bits & other.bits == other.bits
    }

    /// True iff no modifier is in the set.
    pub fn is_empty(self) -> (r: bool)
        ensures
            r == self.spec_is_empty(),
            r <==> self@ == Set::<Modifier>::empty(),
    {
        proof {
            use_type_invariant(self);
            let x: u32 = self.bits;
            if x == 0 {
                assert forall|m: Modifier| !self.spec_has(m) by {
                    lemma_and_zero(m.spec_bit());
                }
                assert(self@ =~= Set::<Modifier>::empty());
            } else {
                assert(x & 0x1u32 != 0 || x & 0x2u32 != 0 || x & 0x4u32 != 0 || x & 0x8u32 != 0
                    || x & 0x10u32 != 0 || x & 0x20u32 != 0 || x & 0x40u32 != 0 || x & 0x80u32 != 0
                    || x & 0x100u32 != 0 || x & 0x200u32 != 0 || x & 0x400u32 != 0 || x & 0x800u32
                    != 0 || x & 0x1000u32 != 0 || x & 0x2000u32 != 0) by (bit_vector)
                    requires
                        x & 0x3fffu32 == x,
                        x != 0,
                ;
                if x & 0x1u32 != 0 {
                    assert(self@.contains(Modifier::Alt));
                } else if x & 0x2u32 != 0 {
                    assert(self@.contains(Modifier::AltGraph));
                } else if x & 0x4u32 != 0 {
                    assert(self@.contains(Modifier::CapsLock));
                } else if x & 0x8u32 != 0 {
                    assert(self@.contains(Modifier::Control));
                } else if x & 0x10u32 != 0 {
                    assert(self@.contains(Modifier::Fn));
                } else if x & 0x20u32 != 0 {
                    assert(self@.contains(Modifier::FnLock));
                } else if x & 0x40u32 != 0 {
                    assert(self@.contains(Modifier::Meta));
                } else if x & 0x80u32 != 0 {
                    assert(self@.contains(Modifier::NumLock));
                } else if x & 0x100u32 != 0 {
                    assert(self@.contains(Modifier::ScrollLock));
                } else if x & 0x200u32 != 0 {
                    assert(self@.contains(Modifier::Shift));
                } else if x & 0x400u32 != 0 {
                    assert(self@.contains(Modifier::Symbol));
                } else if x & 0x800u32 != 0 {
                    assert(self@.contains(Modifier::SymbolLock));
                } else if x & 0x1000u32 != 0 {
                    assert(self@.contains(Modifier::Hyper));
                } else {
                    assert(self@.contains(Modifier::Super));
                }
            }
        }
        self.bits == 0
    }

    /// Return `true` if a shift key is pressed.
    pub fn shift(&self) -> (r: bool)
        ensures
            r == self.spec_has(Modifier::Shift),
    {
        let r = self.contains(Modifiers::single(Modifier::Shift));
        proof {
            let x: u32 = self.spec_bits();
            assert((x & 0x200u32 == 0x200u32) == (x & 0x200u32 != 0)) by (bit_vector);
        }
        r
    }

    /// Return `true` if a control key is pressed.
    pub fn ctrl(&self) -> (r: bool)
        ensures
            r == self.spec_has(Modifier::Control),
    {
        let r = self.contains(Modifiers::single(Modifier::Control));
        proof {
            let x: u32 = self.spec_bits();
            assert((x & 0x8u32 == 0x8u32) == (x & 0x8u32 != 0)) by (bit_vector);
        }
        r
    }

    /// Return `true` if an alt key is pressed.
    pub fn alt(&self) -> (r: bool)
        ensures
            r == self.spec_has(Modifier::Alt),
    {
        let r = self.contains(Modifiers::single(Modifier::Alt));
        proof {
            let x: u32 = self.spec_bits();
            assert((x & 0x1u32 == 0x1u32) == (x & 0x1u32 != 0)) by (bit_vector);
        }
        r
    }

    /// Return `true` if a meta key is pressed.
    pub fn meta(&self) -> (r: bool)
        ensures
            r == self.spec_has(Modifier::Meta),
    {
        let r = self.contains(Modifiers::single(Modifier::Meta));
        proof {
            let x: u32 = self.spec_bits();
            assert((x & 0x40u32 == 0x40u32) == (x & 0x40u32 != 0)) by (bit_vector);
        }
        r
    }
}

impl Default for Modifiers {
    /// The default value is the empty set: no modifier pressed.
    fn default() -> (r: Modifiers)
        ensures
            r.spec_bits() == 0,
            r.spec_is_empty(),
    {
        Modifiers::empty()
    }
}

/// Union is commutative: combining two sets in either order gives the
/// same set.
pub proof fn lemma_union_commutative(a: Modifiers, b: Modifiers)
    ensures
        a.spec_union(b) == b.spec_union(a),
{
    let x: u32 = a.spec_bits();
    let y: u32 = b.spec_bits();
    assert((x | y) == (y | x)) by (bit_vector);
}

/// Intersection is commutative: intersecting two sets in either order
/// gives the same set.
pub proof fn lemma_intersection_commutative(a: Modifiers, b: Modifiers)
    ensures
        a.spec_intersection(b) == b.spec_intersection(a),
{
    let x: u32 = a.spec_bits();
    let y: u32 = b.spec_bits();
    assert((x & y) == (y & x)) by (bit_vector);
}

/// Union is inclusive: the union of two sets contains the first of them.
pub proof fn lemma_union_contains(a: Modifiers, b: Modifiers)
    ensures
        a.spec_union(b).spec_contains(a),
{
    let x: u32 = a.spec_bits();
    let y: u32 = b.spec_bits();
    assert((x | y) & x == x) by (bit_vector);
}

/// Two modifier sets are equal exactly when their raw bit patterns are
/// equal, however each was constructed.
pub proof fn lemma_eq_bits(a: Modifiers, b: Modifiers)
    ensures
        (a == b) <==> (a.spec_bits() == b.spec_bits()),
{
    if a.spec_bits() == b.spec_bits() {
        assert(a =~= b);
    }
}

/// Zero is the empty pattern: no bit survives an AND with it.
proof fn lemma_and_zero(b: u32)
    by (bit_vector)
    ensures
        0u32 & b == 0,
{
}

/// Every modifier bit is one of the fourteen defined powers of two.
proof fn lemma_defined_bit(m: Modifier)
    ensures
        m.spec_bit() == 0x1 || m.spec_bit() == 0x2 || m.spec_bit() == 0x4 || m.spec_bit() == 0x8
            || m.spec_bit() == 0x10 || m.spec_bit() == 0x20 || m.spec_bit() == 0x40
            || m.spec_bit() == 0x80 || m.spec_bit() == 0x100 || m.spec_bit() == 0x200
            || m.spec_bit() == 0x400 || m.spec_bit() == 0x800 || m.spec_bit() == 0x1000
            || m.spec_bit() == 0x2000,
        m.spec_bit() & ALL_BITS == m.spec_bit(),
        m.spec_bit() != 0,
{
    let b = m.spec_bit();
    assert(b & 0x3fffu32 == b && b != 0) by (bit_vector)
        requires
            b == 0x1 || b == 0x2 || b == 0x4 || b == 0x8 || b == 0x10 || b == 0x20 || b == 0x40
                || b == 0x80 || b == 0x100 || b == 0x200 || b == 0x400 || b == 0x800 || b == 0x1000
                || b == 0x2000,
    ;
}

/// Distinct modifiers own distinct bits.
proof fn lemma_bit_injective(k: Modifier, m: Modifier)
    requires
        k != m,
    ensures
        k.spec_bit() != m.spec_bit(),
{
    lemma_bit_round_trip(k);
    lemma_bit_round_trip(m);
}

/// The bit of a modifier leads back to the modifier.
proof fn lemma_bit_round_trip(m: Modifier)
    ensures
        modifier_of_bit(m.spec_bit()) == m,
{
}

/// The modifier that owns a defined bit.
spec fn modifier_of_bit(b: u32) -> Modifier {
    if b == ALT {
        Modifier::Alt
    } else if b == ALT_GRAPH {
        Modifier::AltGraph
    } else if b == CAPS_LOCK {
        Modifier::CapsLock
    } else if b == CONTROL {
        Modifier::Control
    } else if b == FN {
        Modifier::Fn
    } else if b == FN_LOCK {
        Modifier::FnLock
    } else if b == META {
        Modifier::Meta
    } else if b == NUM_LOCK {
        Modifier::NumLock
    } else if b == SCROLL_LOCK {
        Modifier::ScrollLock
    } else if b == SHIFT {
        Modifier::Shift
    } else if b == SYMBOL {
        Modifier::Symbol
    } else if b == SYMBOL_LOCK {
        Modifier::SymbolLock
    } else if b == HYPER {
        Modifier::Hyper
    } else {
        Modifier::Super
    }
}

/// Two distinct defined bits share no position.
proof fn lemma_distinct_bits(b1: u32, b2: u32)
    by (bit_vector)
    requires
        b1 != b2,
        b1 == 0x1 || b1 == 0x2 || b1 == 0x4 || b1 == 0x8 || b1 == 0x10 || b1 == 0x20 || b1 == 0x40
            || b1 == 0x80 || b1 == 0x100 || b1 == 0x200 || b1 == 0x400 || b1 == 0x800 || b1
            == 0x1000 || b1 == 0x2000,
        b2 == 0x1 || b2 == 0x2 || b2 == 0x4 || b2 == 0x8 || b2 == 0x10 || b2 == 0x20 || b2 == 0x40
            || b2 == 0x80 || b2 == 0x100 || b2 == 0x200 || b2 == 0x400 || b2 == 0x800 || b2
            == 0x1000 || b2 == 0x2000,
    ensures
        b1 & b2 == 0,
{
}

/// Bitwise facts about one defined bit `b` against arbitrary patterns.
proof fn lemma_defined_bit_ops(x: u32, y: u32, b: u32)
    by (bit_vector)
    requires
        b == 0x1 || b == 0x2 || b == 0x4 || b == 0x8 || b == 0x10 || b == 0x20 || b == 0x40 || b
            == 0x80 || b == 0x100 || b == 0x200 || b == 0x400 || b == 0x800 || b == 0x1000 || b
            == 0x2000,
    ensures
        ((x | y) & b != 0) == ((x & b != 0) || (y & b != 0)),
        ((x & y) & b != 0) == ((x & b != 0) && (y & b != 0)),
        ((x & !y) & b != 0) == ((x & b != 0) && (y & b == 0)),
        ((x & 0x3fffu32) & b != 0) == (x & b != 0),
{
}

/// A pattern contained in another keeps each of its set bits there.
proof fn lemma_subset_bit(x: u32, y: u32, b: u32)
    by (bit_vector)
    requires
        x & y == y,
        y & b != 0,
    ensures
        x & b != 0,
{
}

} // verus!
