use keyboard_types::InvalidBits;
use keyboard_types::Modifier;
use keyboard_types::Modifiers;
use keyboard_types::ALL_BITS;
use keyboard_types::ALT;
use keyboard_types::ALT_GRAPH;
use keyboard_types::CAPS_LOCK;
use keyboard_types::CONTROL;
use keyboard_types::FN;
use keyboard_types::FN_LOCK;
use keyboard_types::HYPER;
use keyboard_types::META;
use keyboard_types::NUM_LOCK;
use keyboard_types::SCROLL_LOCK;
use keyboard_types::SHIFT;
use keyboard_types::SUPER;
use keyboard_types::SYMBOL;
use keyboard_types::SYMBOL_LOCK;
use std::collections::hash_map::DefaultHasher;
use std::collections::HashMap;
use std::hash::Hash;
use std::hash::Hasher;

fn hash_of(m: &Modifiers) -> u64 {
    let mut h = DefaultHasher::new();
    m.hash(&mut h);
    h.finish()
}

#[test]
fn from_bits_round_trips_every_valid_pattern() {
    let mut raw: u32 = 0;
    while raw <= ALL_BITS {
        let set = Modifiers::from_bits(raw).unwrap();
        assert_eq!(set.bits(), raw);
        raw += 1;
    }
}

#[test]
fn from_bits_rejects_undefined_bits() {
    assert_eq!(Modifiers::from_bits(0x4000), Err(InvalidBits));
    assert_eq!(Modifiers::from_bits(0x8000_0000), Err(InvalidBits));
    assert_eq!(Modifiers::from_bits(0x4000 | SHIFT), Err(InvalidBits));
    assert_eq!(Modifiers::from_bits(u32::MAX), Err(InvalidBits));
}

#[test]
fn from_bits_truncate_clears_undefined_bits() {
    assert_eq!(Modifiers::from_bits_truncate(u32::MAX).bits(), ALL_BITS);
    assert_eq!(Modifiers::from_bits_truncate(0x4000).bits(), 0);
    assert_eq!(Modifiers::from_bits_truncate(0x4208).bits(), 0x208);
    assert_eq!(Modifiers::from_bits_truncate(SHIFT).bits(), SHIFT);
    assert_eq!(Modifiers::from_bits_truncate(0).bits(), 0);
}

#[test]
fn union_and_intersection_commute() {
    let samples = [
        Modifiers::empty(),
        Modifiers::single(Modifier::Shift),
        Modifiers::single(Modifier::Control),
        Modifiers::from_bits_truncate(ALT | META | NUM_LOCK),
        Modifiers::from_bits_truncate(ALL_BITS),
        Modifiers::from_bits_truncate(CAPS_LOCK | SCROLL_LOCK | HYPER),
    ];
    for a in samples {
        for b in samples {
            assert_eq!(a.union(b), b.union(a));
            assert_eq!(a.intersection(b), b.intersection(a));
        }
    }
}

#[test]
fn union_contains_both_operands() {
    let samples = [
        Modifiers::empty(),
        Modifiers::single(Modifier::Alt),
        Modifiers::from_bits_truncate(SHIFT | CONTROL),
        Modifiers::from_bits_truncate(FN | FN_LOCK | SYMBOL),
        Modifiers::from_bits_truncate(ALL_BITS),
    ];
    for a in samples {
        for b in samples {
            assert!(a.union(b).contains(a));
            assert!(a.union(b).contains(b));
        }
    }
}

#[test]
fn is_empty_on_empty_and_single() {
    assert!(Modifiers::empty().is_empty());
    assert!(!Modifiers::single(Modifier::Shift).is_empty());
}

#[test]
fn predicates_on_shift_control_union() {
    let u = Modifiers::single(Modifier::Shift).union(Modifiers::single(Modifier::Control));
    assert!(u.shift());
    assert!(u.ctrl());
    assert!(!u.alt());
    assert!(!u.meta());
}

#[test]
fn shift_control_scenario() {
    let a = Modifiers::single(Modifier::Shift);
    let b = Modifiers::single(Modifier::Control);
    let u = a.union(b);
    assert_eq!(u.bits(), 0x208);
    assert!(u.contains(a));
    assert!(!a.contains(b));
    assert_eq!(u.difference(a), b);
}

#[test]
fn equal_patterns_are_equal_and_hash_alike() {
    let a = Modifiers::single(Modifier::Shift).union(Modifiers::single(Modifier::Control));
    let b = Modifiers::from_bits(0x208).unwrap();
    assert_eq!(a, b);
    assert_eq!(hash_of(&a), hash_of(&b));

    let mut shortcuts: HashMap<Modifiers, &str> = HashMap::new();
    shortcuts.insert(a, "copy");
    assert_eq!(shortcuts.get(&b), Some(&"copy"));

    let e1 = Modifiers::empty();
    let e2 = Modifiers::from_bits(0).unwrap();
    assert_eq!(e1, e2);
    assert_eq!(hash_of(&e1), hash_of(&e2));
}

#[test]
fn single_matches_the_bit_table() {
    assert_eq!(Modifiers::single(Modifier::Alt).bits(), ALT);
    assert_eq!(Modifiers::single(Modifier::AltGraph).bits(), ALT_GRAPH);
    assert_eq!(Modifiers::single(Modifier::CapsLock).bits(), CAPS_LOCK);
    assert_eq!(Modifiers::single(Modifier::Control).bits(), CONTROL);
    assert_eq!(Modifiers::single(Modifier::Fn).bits(), FN);
    assert_eq!(Modifiers::single(Modifier::FnLock).bits(), FN_LOCK);
    assert_eq!(Modifiers::single(Modifier::Meta).bits(), META);
    assert_eq!(Modifiers::single(Modifier::NumLock).bits(), NUM_LOCK);
    assert_eq!(Modifiers::single(Modifier::ScrollLock).bits(), SCROLL_LOCK);
    assert_eq!(Modifiers::single(Modifier::Shift).bits(), SHIFT);
    assert_eq!(Modifiers::single(Modifier::Symbol).bits(), SYMBOL);
    assert_eq!(Modifiers::single(Modifier::SymbolLock).bits(), SYMBOL_LOCK);
    assert_eq!(Modifiers::single(Modifier::Hyper).bits(), HYPER);
    assert_eq!(Modifiers::single(Modifier::Super).bits(), SUPER);
    assert_eq!(ALL_BITS, 0x3fff);
}

#[test]
fn each_predicate_sees_only_its_own_key() {
    let shift = Modifiers::single(Modifier::Shift);
    assert!(shift.shift() && !shift.ctrl() && !shift.alt() && !shift.meta());
    let ctrl = Modifiers::single(Modifier::Control);
    assert!(ctrl.ctrl() && !ctrl.shift() && !ctrl.alt() && !ctrl.meta());
    let alt = Modifiers::single(Modifier::Alt);
    assert!(alt.alt() && !alt.shift() && !alt.ctrl() && !alt.meta());
    let meta = Modifiers::single(Modifier::Meta);
    assert!(meta.meta() && !meta.shift() && !meta.ctrl() && !meta.alt());
    assert!(!Modifiers::empty().shift());
}

#[test]
fn contains_with_empty_and_other_modifiers() {
    let e = Modifiers::empty();
    let caps = Modifiers::single(Modifier::CapsLock);
    let all = Modifiers::from_bits_truncate(ALL_BITS);
    assert!(e.contains(e));
    assert!(caps.contains(e));
    assert!(all.contains(caps));
    assert!(!e.contains(caps));
    assert!(all.contains(Modifiers::single(Modifier::SymbolLock)));
}

#[test]
fn set_algebra_exact_values() {
    let a = Modifiers::from_bits_truncate(SHIFT | CONTROL | ALT);
    let b = Modifiers::from_bits_truncate(CONTROL | META);
    assert_eq!(a.union(b).bits(), SHIFT | CONTROL | ALT | META);
    assert_eq!(a.intersection(b).bits(), CONTROL);
    assert_eq!(a.difference(b).bits(), SHIFT | ALT);
    assert_eq!(b.difference(a).bits(), META);
}

#[test]
fn default_is_the_empty_set() {
    let d = Modifiers::default();
    assert_eq!(d, Modifiers::empty());
    assert!(d.is_empty());
    assert_eq!(d.bits(), 0);
}

#[test]
fn ordering_follows_the_bit_pattern() {
    let alt = Modifiers::single(Modifier::Alt);
    let caps = Modifiers::single(Modifier::CapsLock);
    let shift = Modifiers::single(Modifier::Shift);
    assert!(alt < caps);
    assert!(caps < shift);
    assert!(alt <= alt);
    let mut v = vec![shift, alt, caps];
    v.sort();
    assert_eq!(v, vec![alt, caps, shift]);
}
