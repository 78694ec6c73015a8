use pcb::common::{Context, Interner};
use pcb::handle::Type;
use pcb::ty;
use pcb::Ctxt;

#[test]
fn registry_hands_out_indices_in_insertion_order() {
    let mut registry: Context<&str> = Context::new();
    assert_eq!(registry.len(), 0);
    assert_eq!(registry.push("a"), 0);
    assert_eq!(registry.push("b"), 1);
    assert_eq!(registry.push("c"), 2);
    assert_eq!(registry.len(), 3);
    assert_eq!(registry.get(0), Some(&"a"));
    assert_eq!(registry.get(2), Some(&"c"));
    assert_eq!(registry.get(3), None);
}

#[test]
fn registry_keeps_items_in_place_when_it_grows() {
    let mut registry: Context<u64> = Context::new();
    let first = registry.push(10);
    for i in 0..1000u64 {
        registry.push(i);
    }
    assert_eq!(registry.get(first), Some(&10));
    assert_eq!(registry.len(), 1001);
}

#[test]
fn registry_items_can_be_changed_in_place() {
    let mut registry: Context<u64> = Context::new();
    registry.push(1);
    registry.push(2);
    *registry.get_mut(1) = 20;
    assert_eq!(registry.get(0), Some(&1));
    assert_eq!(registry.get(1), Some(&20));
    assert_eq!(registry.len(), 2);
}

#[test]
fn registry_cursor_walks_in_order_and_restarts() {
    let mut registry: Context<u8> = Context::new();
    registry.push(7);
    registry.push(8);
    let mut cursor = registry.iter();
    assert_eq!(cursor.next(), Some(&7));
    assert_eq!(cursor.next(), Some(&8));
    assert_eq!(cursor.next(), None);
    assert_eq!(cursor.next(), None);
    let mut again = registry.iter();
    assert_eq!(again.next(), Some(&7));
}

#[test]
fn registry_cursor_of_empty_registry_is_exhausted() {
    let registry: Context<u8> = Context::new();
    let mut cursor = registry.iter();
    assert_eq!(cursor.next(), None);
}

#[test]
fn interner_gives_one_identity_per_descriptor() {
    let mut interner = Interner::new();
    let a = interner.get(ty::Type::Integer(32));
    let b = interner.get(ty::Type::Integer(32));
    let c = interner.get(ty::Type::Integer(64));
    let d = interner.get(ty::Type::Bool);
    let e = interner.get(ty::Type::Integer(32));
    assert_eq!(a, 0);
    assert_eq!(b, 0);
    assert_eq!(c, 1);
    assert_eq!(d, 2);
    assert_eq!(e, 0);
    assert_eq!(interner.len(), 3);
    assert_eq!(interner.lookup(0), Some(ty::Type::Integer(32)));
    assert_eq!(interner.lookup(1), Some(ty::Type::Integer(64)));
    assert_eq!(interner.lookup(2), Some(ty::Type::Bool));
    assert_eq!(interner.lookup(3), None);
}

#[test]
fn interner_tells_widest_integer_from_bool() {
    let mut interner = Interner::new();
    let widest = interner.get(ty::Type::Integer(u32::MAX));
    let zero = interner.get(ty::Type::Integer(0));
    let boolean = interner.get(ty::Type::Bool);
    assert_ne!(widest, zero);
    assert_ne!(widest, boolean);
    assert_ne!(zero, boolean);
    assert_eq!(interner.get(ty::Type::Integer(u32::MAX)), widest);
    assert_eq!(interner.get(ty::Type::Integer(0)), zero);
    assert_eq!(interner.get(ty::Type::Bool), boolean);
}

#[test]
fn type_interning_is_idempotent() {
    let mut ctxt = Ctxt::new(false);
    let first = Type::integer(&mut ctxt, 32);
    let second = Type::integer(&mut ctxt, 32);
    let other = Type::integer(&mut ctxt, 64);
    assert_eq!(first, second);
    assert_ne!(first, other);
    assert_eq!(ctxt.type_int(64), other);
    assert_eq!(ctxt.get_type(ty::Type::Integer(32)), first);
    assert_eq!(ctxt.descriptor(first), Some(ty::Type::Integer(32)));
    assert_eq!(ctxt.descriptor(other), Some(ty::Type::Integer(64)));
    assert_eq!(ctxt.descriptor(Type { index: 2 }), None);
}

#[test]
fn int_size_is_the_width() {
    assert_eq!(ty::Type::Integer(32).int_size(), 32);
    assert_eq!(ty::Type::Integer(0).int_size(), 0);
    assert_eq!(ty::Type::Integer(7).bit_width(), 7);
    assert_eq!(ty::Type::Bool.bit_width(), 1);
}

#[test]
fn context_keeps_its_flag() {
    assert!(Ctxt::new(true).optimize());
    assert!(!Ctxt::new(false).optimize());
    assert_eq!(Ctxt::new(true).function_count(), 0);
}
