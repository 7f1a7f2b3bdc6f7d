use cdb::DispatchFlags;

#[test]
fn test_dispatch_flags_operations() {
    let flags = DispatchFlags::WITH_SNAPSHOT() | DispatchFlags::CANCEL_ON_ERROR();
    assert_eq!(flags.value(), 0x5); // 0x4 | 0x1

    assert!(flags.contains(DispatchFlags::WITH_SNAPSHOT()));
    assert!(flags.contains(DispatchFlags::CANCEL_ON_ERROR()));
    assert!(!flags.contains(DispatchFlags::NEED_TWO_PHASE()));
}

#[test]
fn test_dispatch_flags_custom_values() {
    let custom_flags = DispatchFlags::new(0xFF);
    assert_eq!(custom_flags.value(), 0xFF);

    // Test contains with custom flags
    let combined = DispatchFlags::WITH_SNAPSHOT() | custom_flags;
    assert!(combined.contains(DispatchFlags::WITH_SNAPSHOT()));
    assert!(combined.contains(custom_flags));
}

#[test]
fn test_dispatch_flags_union() {
    let flags1 = DispatchFlags::WITH_SNAPSHOT();
    let flags2 = DispatchFlags::CANCEL_ON_ERROR();
    let combined = flags1.union(flags2);

    assert_eq!(combined.value(), 0x5); // 0x4 | 0x1
    assert!(combined.contains(flags1));
    assert!(combined.contains(flags2));
}

#[test]
fn test_dispatch_flags_bitor_assign() {
    let mut flags = DispatchFlags::WITH_SNAPSHOT();
    flags |= DispatchFlags::CANCEL_ON_ERROR();

    assert!(flags.contains(DispatchFlags::WITH_SNAPSHOT()));
    assert!(flags.contains(DispatchFlags::CANCEL_ON_ERROR()));
    assert_eq!(flags.value(), 0x5);
}

#[test]
fn test_dispatch_flags_from_conversions() {
    let value: i32 = 0x7; // All first 3 flags
    let flags = DispatchFlags::from(value);

    assert_eq!(flags.value(), 0x7);
    assert!(flags.contains(DispatchFlags::CANCEL_ON_ERROR()));
    assert!(flags.contains(DispatchFlags::NEED_TWO_PHASE()));
    assert!(flags.contains(DispatchFlags::WITH_SNAPSHOT()));

    let back_to_i32: i32 = flags.into();
    assert_eq!(back_to_i32, 0x7);
}

#[test]
fn test_dispatch_flags_constants() {
    assert_eq!(DispatchFlags::NONE().value(), 0x0);
    assert_eq!(DispatchFlags::CANCEL_ON_ERROR().value(), 0x1);
    assert_eq!(DispatchFlags::NEED_TWO_PHASE().value(), 0x2);
    assert_eq!(DispatchFlags::WITH_SNAPSHOT().value(), 0x4);
}

#[test]
fn union_is_the_least_set_with_both_operands() {
    let a = DispatchFlags::new(0x12);
    let b = DispatchFlags::new(0x05);
    let both = a.union(b);
    assert_eq!(both.value(), 0x17);
    assert!(both.contains(a) && both.contains(b));
    assert!(both.contains(DispatchFlags::new(0x10)));
    assert!(!both.contains(DispatchFlags::new(0x08)));
    assert!(DispatchFlags::new(0x37).contains(both));
    assert!(!DispatchFlags::new(0x07).contains(both));
}

#[test]
fn union_does_not_depend_on_order_grouping_or_repetition() {
    let a = DispatchFlags::new(0x1);
    let b = DispatchFlags::new(0x6);
    let c = DispatchFlags::new(-8);
    assert_eq!(a | b, b | a);
    assert_eq!((a | b) | c, a | (b | c));
    assert_eq!((a | b | c).value(), -1);
    assert_eq!(c | c, c);
    assert_eq!(c | DispatchFlags::NONE(), c);
}

#[test]
fn containment_orders_flags() {
    let small = DispatchFlags::new(0x4);
    let large = DispatchFlags::new(0x6);
    assert!(large.contains(large));
    assert!(large.contains(small) && !small.contains(large));
    assert!(small.contains(DispatchFlags::NONE()));
    assert!(!DispatchFlags::NONE().contains(small));
    // The sign bit is a flag like any other
    assert!(DispatchFlags::new(i32::MIN).contains(DispatchFlags::new(i32::MIN)));
    assert!(!DispatchFlags::new(i32::MAX).contains(DispatchFlags::new(i32::MIN)));
}

#[test]
fn named_flags_do_not_overlap() {
    let named = [
        DispatchFlags::CANCEL_ON_ERROR(),
        DispatchFlags::NEED_TWO_PHASE(),
        DispatchFlags::WITH_SNAPSHOT(),
    ];
    for (i, a) in named.iter().enumerate() {
        for (j, b) in named.iter().enumerate() {
            assert_eq!(a.contains(*b), i == j);
        }
    }
}

#[test]
fn flags_and_integers_convert_both_ways() {
    for value in [0, 1, -1, i32::MAX, i32::MIN] {
        assert_eq!(i32::from(DispatchFlags::from(value)), value);
        assert_eq!(DispatchFlags::from(value), DispatchFlags::new(value));
    }
}
