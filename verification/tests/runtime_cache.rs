//! Tests of the cache-cell model: at-most-once resolution under racing
//! first calls, all observing the same address.

use dylink_core::cache::{race_first_calls, CacheCell};

#[test]
fn racing_first_calls_resolve_exactly_once() {
    let (observed, attempts) = race_first_calls(5, 42);
    assert_eq!(attempts, 1);
    assert_eq!(observed.len(), 5);
    for a in observed {
        assert_eq!(a, 42);
    }
}

#[test]
fn no_calls_no_resolution() {
    let (observed, attempts) = race_first_calls(0, 7);
    assert_eq!(attempts, 0);
    assert!(observed.is_empty());
}

#[test]
fn a_published_address_is_never_overwritten() {
    let mut cell = CacheCell::new();
    let (a1, r1) = cell.call(10);
    assert_eq!((a1, r1), (10, true));
    // A later call never resolves again, even if the resolver would now
    // hand back something else.
    let (a2, r2) = cell.call(99);
    assert_eq!((a2, r2), (10, false));
}

#[test]
fn single_first_call_observes_its_own_resolution() {
    let (observed, attempts) = race_first_calls(1, 1234);
    assert_eq!(attempts, 1);
    assert_eq!(observed, vec![1234]);
}
