use sel4_bookkeeping::vm_attributes::{
    VMAttributes, DEFAULT, EXECUTE_NEVER, NONE, PAGE_CACHEABLE, PARITY_ENABLED,
};

#[test]
fn attribute_values() {
    assert_eq!(NONE, 0);
    assert_eq!(PAGE_CACHEABLE, 1);
    assert_eq!(PARITY_ENABLED, 2);
    assert_eq!(DEFAULT, 3);
    assert_eq!(EXECUTE_NEVER, 4);
    assert_eq!(VMAttributes::none(), VMAttributes(0));
    assert_eq!(VMAttributes::page_cacheable(), VMAttributes(1));
    assert_eq!(VMAttributes::parity_enabled(), VMAttributes(2));
    assert_eq!(VMAttributes::execute_never(), VMAttributes(4));
    assert_eq!(VMAttributes::default(), VMAttributes(3));
}

#[test]
fn has_tests_for_a_common_attribute() {
    let default = VMAttributes::default();
    assert!(default.has(VMAttributes::page_cacheable()));
    assert!(default.has(VMAttributes::parity_enabled()));
    assert!(!default.has(VMAttributes::execute_never()));
    assert!(!default.has(VMAttributes::none()));
    assert!(!VMAttributes::none().has(VMAttributes::none()));
    assert!(!VMAttributes::none().has(default));
    assert!(VMAttributes(6).has(VMAttributes(4)));
    assert!(VMAttributes(6).has(VMAttributes(3)));
    assert!(!VMAttributes(6).has(VMAttributes(9)));
    assert!(VMAttributes(u64::MAX).has(VMAttributes(1 << 63)));
}

#[test]
fn operators_work_on_the_bits() {
    let a = VMAttributes::page_cacheable() | VMAttributes::execute_never();
    assert_eq!(a, VMAttributes(5));
    assert_eq!(a & VMAttributes::default(), VMAttributes(1));
    assert_eq!(!a, VMAttributes(!5u64));
    assert_eq!(!VMAttributes::none(), VMAttributes(u64::MAX));
    let mut b = a;
    b |= VMAttributes::parity_enabled();
    assert_eq!(b, VMAttributes(7));
    b &= VMAttributes(6);
    assert_eq!(b, VMAttributes(6));
    assert!((a | b).has(VMAttributes(1)));
    assert_eq!((a | b).has(VMAttributes(1)), a.has(VMAttributes(1)) || b.has(VMAttributes(1)));
}

#[test]
fn inner_value_round_trips() {
    let mut a = VMAttributes::from_inner(12);
    assert_eq!(a.into_inner(), 12);
    assert_eq!(*a.inner(), 12);
    *a.inner_mut() = 3;
    assert_eq!(a, VMAttributes::default());
    assert_eq!(VMAttributes::from_inner(a.into_inner()), a);
}
