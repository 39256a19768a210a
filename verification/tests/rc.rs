use objc2::rc::transfer::handle_may_transfer;
use objc2::rc::transfer::pool_may_transfer;
use objc2::rc::transfer::weak_may_transfer;
use objc2::rc::AutoreleasePool;
use objc2::rc::Id;
use objc2::rc::Ownership;
use objc2::rc::PointeeCapabilities;
use objc2::rc::Runtime;
use objc2::rc::WeakId;

fn retain_count(rt: &Runtime, ptr: usize) -> u64 {
    rt.retain_count(ptr)
}

#[test]
fn test_autorelease() {
    let mut rt = Runtime::new();
    let raw = rt.alloc_object();
    let obj = Id::new(raw, Ownership::Shared, &mut rt).unwrap();

    let cloned = obj.clone(&mut rt);

    let pool = AutoreleasePool::new(&mut rt);
    let _r = obj.autorelease(&pool, &mut rt);
    assert_eq!(retain_count(&rt, cloned.as_ptr()), 2);
    pool.drain(&mut rt);

    // make sure that the autoreleased value has been released
    assert_eq!(retain_count(&rt, cloned.as_ptr()), 1);
}

#[test]
fn test_clone() {
    let mut rt = Runtime::new();
    let raw = rt.alloc_object();
    let obj = Id::new(raw, Ownership::Owned, &mut rt).unwrap();
    assert_eq!(retain_count(&rt, obj.as_ptr()), 1);

    let obj = obj.downgrade(&mut rt);
    assert_eq!(retain_count(&rt, obj.as_ptr()), 1);

    let cloned = obj.clone(&mut rt);
    assert_eq!(retain_count(&rt, cloned.as_ptr()), 2);
    assert_eq!(retain_count(&rt, obj.as_ptr()), 2);

    obj.release(&mut rt);
    assert_eq!(retain_count(&rt, cloned.as_ptr()), 1);
}

#[test]
fn test_adopt_then_drop_trace() {
    // Adopting a +1 pointer and destroying the handle: exactly one release,
    // zero retains.
    let mut rt = Runtime::new();
    let raw = rt.alloc_object();
    assert_eq!(rt.retain_calls(), 0);
    assert_eq!(rt.release_calls(), 0);

    let obj = Id::new(raw, Ownership::Owned, &mut rt).unwrap();
    assert_eq!(rt.retain_calls(), 0);
    assert_eq!(rt.release_calls(), 0);

    obj.release(&mut rt);
    assert_eq!(rt.retain_calls(), 0);
    assert_eq!(rt.release_calls(), 1);
    assert_eq!(retain_count(&rt, raw), 0);
}

#[test]
fn test_null_pointers_make_no_calls() {
    let mut rt = Runtime::new();
    assert!(Id::new(0, Ownership::Owned, &mut rt).is_none());
    assert!(Id::new(0, Ownership::Shared, &mut rt).is_none());
    assert!(Id::retain(0, Ownership::Shared, &mut rt).is_none());
    assert!(Id::retain_autoreleased(0, Ownership::Shared, &mut rt).is_none());
    assert_eq!(rt.retain_calls(), 0);
    assert_eq!(rt.release_calls(), 0);
    assert_eq!(rt.autorelease_calls(), 0);
}

#[test]
fn test_downgrade_keeps_count() {
    let mut rt = Runtime::new();
    let raw = rt.alloc_object();
    let obj = Id::new(raw, Ownership::Owned, &mut rt).unwrap();

    let before = retain_count(&rt, raw);
    let obj = obj.downgrade(&mut rt);
    let after = retain_count(&rt, raw);
    assert_eq!(before, after);
    assert_eq!(rt.retain_calls(), 0);
    assert_eq!(rt.release_calls(), 0);
    assert_eq!(obj.ownership(), Ownership::Shared);
    obj.release(&mut rt);
}

#[test]
fn test_from_shared_round_trip() {
    let mut rt = Runtime::new();
    let raw = rt.alloc_object();
    let obj = Id::new(raw, Ownership::Shared, &mut rt).unwrap();

    let owned = Id::from_shared(obj, &mut rt);
    assert_eq!(owned.ownership(), Ownership::Owned);
    assert_eq!(retain_count(&rt, raw), 1);
    assert_eq!(rt.retain_calls(), 0);
    assert_eq!(rt.release_calls(), 0);

    let shared = owned.downgrade(&mut rt);
    assert_eq!(retain_count(&rt, raw), 1);
    shared.release(&mut rt);
    assert_eq!(retain_count(&rt, raw), 0);
}

#[test]
fn test_retain_observed_pointer() {
    let mut rt = Runtime::new();
    let raw = rt.alloc_object();
    let keeper = Id::new(raw, Ownership::Shared, &mut rt).unwrap();

    // Retaining an observed (borrowed) pointer credits a new retain.
    let second = Id::retain(raw, Ownership::Shared, &mut rt).unwrap();
    assert_eq!(retain_count(&rt, raw), 2);
    assert_eq!(rt.retain_calls(), 1);

    let third = Id::retain_autoreleased(raw, Ownership::Shared, &mut rt).unwrap();
    assert_eq!(retain_count(&rt, raw), 3);
    assert_eq!(rt.retain_calls(), 2);

    second.release(&mut rt);
    third.release(&mut rt);
    keeper.release(&mut rt);
    assert_eq!(retain_count(&rt, raw), 0);
    assert_eq!(rt.release_calls(), 3);
}

#[test]
fn test_ownership_scenario_trace() {
    // Create an object, wrap it exclusively, downgrade, clone, then drop both
    // shared handles: one retain from the clone, two releases in total.
    let mut rt = Runtime::new();
    let raw = rt.alloc_object();
    assert_eq!(retain_count(&rt, raw), 1);

    let h1 = Id::new(raw, Ownership::Owned, &mut rt).unwrap();
    assert_eq!(retain_count(&rt, raw), 1);

    let h2 = h1.downgrade(&mut rt);
    assert_eq!(retain_count(&rt, raw), 1);
    assert_eq!(rt.retain_calls(), 0);

    let h3 = h2.clone(&mut rt);
    assert_eq!(retain_count(&rt, raw), 2);
    assert_eq!(rt.retain_calls(), 1);

    h2.release(&mut rt);
    assert_eq!(retain_count(&rt, raw), 1);

    h3.release(&mut rt);
    assert_eq!(retain_count(&rt, raw), 0);
    assert_eq!(rt.retain_calls(), 1);
    assert_eq!(rt.release_calls(), 2);
    assert_eq!(rt.autorelease_calls(), 0);
}

#[test]
fn test_nested_pools_release_inside_out() {
    let mut rt = Runtime::new();
    let raw_x = rt.alloc_object();
    let raw_y = rt.alloc_object();
    let x = Id::new(raw_x, Ownership::Shared, &mut rt).unwrap();
    let y = Id::new(raw_y, Ownership::Shared, &mut rt).unwrap();
    let x_keeper = x.clone(&mut rt);
    let y_keeper = y.clone(&mut rt);
    assert_eq!(retain_count(&rt, raw_x), 2);
    assert_eq!(retain_count(&rt, raw_y), 2);

    let outer = AutoreleasePool::new(&mut rt);
    let rx = x.autorelease(&outer, &mut rt);
    assert_eq!(rx.as_ptr(&rt), raw_x);

    let inner = AutoreleasePool::new(&mut rt);
    let ry = y.autorelease(&inner, &mut rt);
    assert_eq!(ry.as_ptr(&rt), raw_y);

    // The inner deposit is released when the inner pool drains, strictly
    // before the outer pool drains; the outer deposit stays usable.
    inner.drain(&mut rt);
    assert_eq!(retain_count(&rt, raw_y), 1);
    assert_eq!(retain_count(&rt, raw_x), 2);
    assert_eq!(rx.as_ptr(&rt), raw_x);

    outer.drain(&mut rt);
    assert_eq!(retain_count(&rt, raw_x), 1);
    assert_eq!(rt.autorelease_calls(), 2);
    assert_eq!(rt.release_calls(), 2);

    x_keeper.release(&mut rt);
    y_keeper.release(&mut rt);
}

#[test]
fn test_weak_load_before_and_after_drop() {
    let mut rt = Runtime::new();
    let raw = rt.alloc_object();
    let obj = Id::new(raw, Ownership::Shared, &mut rt).unwrap();
    let weak = WeakId::new(&obj);

    // Loaded while the object is live: a retained handle, count goes up by 1.
    let loaded = weak.load(&mut rt).unwrap();
    assert_eq!(retain_count(&rt, raw), 2);
    assert_eq!(rt.retain_calls(), 1);
    loaded.release(&mut rt);
    assert_eq!(retain_count(&rt, raw), 1);

    // Loaded after the last owning handle is gone: absence, no call made.
    obj.release(&mut rt);
    let retains_before = rt.retain_calls();
    assert!(weak.load(&mut rt).is_none());
    assert_eq!(rt.retain_calls(), retains_before);
}

#[test]
fn test_weak_survives_autorelease_extension() {
    let mut rt = Runtime::new();
    let raw = rt.alloc_object();
    let obj = Id::new(raw, Ownership::Shared, &mut rt).unwrap();
    let weak = WeakId::new(&obj);

    // The only handle goes into a pool: the deferred release keeps the object
    // alive, so a load still succeeds until the pool drains.
    let pool = AutoreleasePool::new(&mut rt);
    let _r = obj.autorelease(&pool, &mut rt);
    let loaded = weak.load(&mut rt).unwrap();
    assert_eq!(retain_count(&rt, raw), 2);
    loaded.release(&mut rt);

    pool.drain(&mut rt);
    assert!(weak.load(&mut rt).is_none());
}

#[test]
fn test_pool_depth_tracking() {
    let mut rt = Runtime::new();
    assert_eq!(rt.pool_depth(), 0);
    let outer = AutoreleasePool::new(&mut rt);
    assert_eq!(rt.pool_depth(), 1);
    assert_eq!(outer.depth(), 0);
    let inner = AutoreleasePool::new(&mut rt);
    assert_eq!(rt.pool_depth(), 2);
    assert_eq!(inner.depth(), 1);
    inner.drain(&mut rt);
    assert_eq!(rt.pool_depth(), 1);
    outer.drain(&mut rt);
    assert_eq!(rt.pool_depth(), 0);
}

#[test]
fn test_empty_pool_drains_nothing() {
    let mut rt = Runtime::new();
    let pool = AutoreleasePool::new(&mut rt);
    pool.drain(&mut rt);
    assert_eq!(rt.release_calls(), 0);
    assert_eq!(rt.autorelease_calls(), 0);
}

#[test]
fn test_as_ptr_is_stable() {
    let mut rt = Runtime::new();
    let raw = rt.alloc_object();
    let obj = Id::new(raw, Ownership::Owned, &mut rt).unwrap();
    assert_eq!(obj.as_ptr(), raw);
    assert_ne!(obj.as_ptr(), 0);
    let obj = obj.downgrade(&mut rt);
    assert_eq!(obj.as_ptr(), raw);
    obj.release(&mut rt);
}

#[test]
fn test_thread_transfer_rules() {
    let both = PointeeCapabilities {
        movable: true,
        concurrently_observable: true,
    };
    let move_only = PointeeCapabilities {
        movable: true,
        concurrently_observable: false,
    };
    let neither = PointeeCapabilities {
        movable: false,
        concurrently_observable: false,
    };
    assert!(handle_may_transfer(Ownership::Owned, move_only));
    assert!(!handle_may_transfer(Ownership::Shared, move_only));
    assert!(handle_may_transfer(Ownership::Shared, both));
    assert!(!handle_may_transfer(Ownership::Owned, neither));
    assert!(weak_may_transfer(both));
    assert!(!weak_may_transfer(move_only));
    assert!(!pool_may_transfer());
}
