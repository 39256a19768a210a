use objc2::collections::Collections;
use objc2::collections::Key;
use objc2::collections::Operation;

#[test]
fn test_key_equality_uses_mask() {
    let mut a = Key::new(0b0101);
    let b = Key::new(0b0100);
    assert!(!a.is_equal(&b));
    a.set_equal_to_mask(0b0100);
    assert!(a.is_equal(&b));
    a.set_equal_to_mask(0b0010);
    assert!(!a.is_equal(&b));
}

#[test]
fn test_key_hash_and_validate() {
    let mut k = Key::new(7);
    assert_eq!(k.hash_(), 0);
    k.set_hash(1234);
    assert_eq!(k.hash_(), 1234);
    assert_eq!(k.validate(), (7, 1234));
}

#[test]
fn test_add_with_empty_mask_duplicates() {
    // With an empty equality mask no key matches anything, not even itself,
    // so adding the same key twice stores it twice.
    let ops = vec![Operation::Add(1), Operation::Add(1)];
    let c = Collections::run(&ops);
    assert_eq!(c.count(), (2, 2));
    assert_eq!(c.member(1), None);
}

#[test]
fn test_mask_lookup_and_remove() {
    let ops = vec![
        Operation::Add(1),
        Operation::Add(2),
        Operation::SetEqualToMask(1, 0xff),
    ];
    let mut c = Collections::run(&ops);
    // Key 1 now matches any member with a non-zero index; the first stored
    // member with such an index is key 1 itself.
    assert_eq!(c.member(1), Some(1));
    assert_eq!(c.object_for_key(1), Some(1));

    c.apply(&Operation::Remove(1));
    assert_eq!(c.count(), (1, 1));
    // The remaining member is key 2, which key 1's mask still matches.
    assert_eq!(c.member(1), Some(2));
}

#[test]
fn test_add_is_kept_out_by_matching_member() {
    let ops = vec![
        Operation::SetEqualToMask(3, 0xff),
        Operation::Add(3),
        Operation::Add(3),
    ];
    let c = Collections::run(&ops);
    // The second insertion finds the first one (3 matches itself through the
    // mask) and is kept out.
    assert_eq!(c.count(), (1, 1));
}

#[test]
fn test_zero_index_key_never_matches() {
    // Index 0 has no bit in common with any mask, so key 0 is unfindable and
    // unremovable even by itself.
    let ops = vec![
        Operation::SetEqualToMask(0, 0xff),
        Operation::Add(0),
        Operation::Remove(0),
    ];
    let c = Collections::run(&ops);
    assert_eq!(c.count(), (1, 1));
    assert_eq!(c.member(0), None);
}

#[test]
fn test_observers_change_nothing() {
    let ops = vec![
        Operation::Add(5),
        Operation::Count,
        Operation::Get(5),
        Operation::Enumerate,
        Operation::SetHash(5, 42),
    ];
    let c = Collections::run(&ops);
    // Counting, lookups, enumeration and hash rewrites leave the members
    // alone.
    assert_eq!(c.count(), (1, 1));
}

#[test]
fn test_run_equals_stepwise_apply() {
    let ops = vec![
        Operation::SetEqualToMask(9, 0x08),
        Operation::Add(9),
        Operation::Add(12),
        Operation::Remove(9),
        Operation::Add(9),
    ];
    let ran = Collections::run(&ops);

    let mut stepped = Collections::new();
    for op in &ops {
        stepped.apply(op);
    }
    assert_eq!(ran.count(), stepped.count());
    assert_eq!(ran.member(9), stepped.member(9));
    assert_eq!(ran.object_for_key(9), stepped.object_for_key(9));
}
