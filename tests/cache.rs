use gdcf_dbcache::cache::{Augment, GdcfFuture, Operation, Refresh, Repeat};

#[test]
fn pending_operation_has_no_cached_result() {
    let op: Operation<u32, String> = Operation::pending(None);
    assert!(!op.has_result_cached());
    assert_eq!(op.into_cached(), None);
}

#[test]
fn cache_satisfied_operation_hands_out_its_value() {
    let op: Operation<u32, String> = Operation::from_cache(5, None);
    assert!(op.has_result_cached());
    assert_eq!(op.into_cached(), Some(5));
}

#[test]
fn resolving_makes_the_result_available() {
    let mut op: Operation<u32, String> = Operation::pending(Some("ext".to_string()));
    op.resolve(8);
    assert!(op.has_result_cached());
    assert_eq!(op.cached_extension(), Some(&"ext".to_string()));
    assert_eq!(op.into_cached(), Some(8));
}

#[test]
fn extension_is_independent_of_the_result() {
    let op: Operation<u32, String> = Operation::pending(Some("meta".to_string()));
    assert!(!op.has_result_cached());
    assert_eq!(op.cached_extension(), Some(&"meta".to_string()));
}

#[test]
fn chain_with_unsatisfied_middle_is_not_cached() {
    let outer: Operation<u32, ()> = Operation::from_cache(1, None);
    let middle: Operation<u32, ()> = Operation::pending(None);
    let inner: Operation<u32, ()> = Operation::from_cache(3, None);
    let chain = Augment { base: outer, extra: Augment { base: middle, extra: inner } };
    assert!(!chain.has_result_cached());
    assert_eq!(chain.into_cached(), None);
}

#[test]
fn chain_fully_satisfied_yields_all_values() {
    let chain = Augment {
        base: Operation::<u32, ()>::from_cache(1, None),
        extra: Augment { base: Operation::<u32, ()>::from_cache(2, None), extra: Operation::<u32, ()>::from_cache(3, None) },
    };
    assert!(chain.has_result_cached());
    assert_eq!(chain.into_cached(), Some((1, (2, 3))));
}

#[test]
fn refresh_and_repeat_delegate_to_inner() {
    let r = Refresh { inner: Operation::<u32, ()>::pending(None) };
    assert!(!r.has_result_cached());
    assert_eq!(r.into_cached(), None);
    let p = Repeat { inner: Operation::<u32, ()>::from_cache(4, None) };
    assert!(p.has_result_cached());
    assert_eq!(p.into_cached(), Some(4));
}
