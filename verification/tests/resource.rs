use runtime::resource::{reclaim_outcome, upgrade_outcome};
use runtime::{ResourceHandle, Site};

fn site(line: u32) -> Site {
    Site { file: "tests/resource.rs", line, column: 1 }
}

#[test]
fn deref_yields_inner() {
    let (h, _usages) = ResourceHandle::new(42u32);
    assert_eq!(*h, 42);
}

#[test]
fn try_unwrap_succeeds_when_unique() {
    let (h, mut usages) = ResourceHandle::new(String::from("alone"));
    let got = h.try_unwrap(&mut usages, None).expect("only handle");
    assert_eq!(got, "alone");
}

#[test]
fn try_unwrap_fails_when_cloned() {
    let (h, mut usages) = ResourceHandle::new(7u32);
    let clone = h.clone_at(&mut usages, site(1));
    assert!(h.try_unwrap(&mut usages, Some(&clone)).is_err(), "clone still alive");
    assert_eq!(*clone, 7);
    drop(clone);
}

#[test]
fn try_unwrap_succeeds_after_clones_dropped() {
    let (h, mut usages) = ResourceHandle::new(7u32);
    let c1 = h.clone_at(&mut usages, site(1));
    let c2 = h.clone_at(&mut usages, site(2));
    c1.release(&mut usages);
    c2.release(&mut usages);
    assert_eq!(h.try_unwrap(&mut usages, None).ok(), Some(7));
}

#[test]
fn try_unwrap_needs_no_release_to_succeed() {
    let (h, mut usages) = ResourceHandle::new(7u32);
    drop(h.clone_at(&mut usages, site(1)));
    assert_eq!(h.try_unwrap(&mut usages, None), Ok(7));
}

#[test]
fn weak_handle_upgrade_works_while_owned() {
    let (h, mut usages) = ResourceHandle::new(123_u64);
    let weak = h.clone_at(&mut usages, site(1)).into_weak(&mut usages);
    let upgraded = weak.upgrade(&mut usages, site(2), Some(&h)).expect("original still alive");
    assert_eq!(*upgraded, 123);
    assert_eq!(usages.outstanding(), vec![site(2)]);
    assert_eq!(h.try_unwrap(&mut usages, Some(&upgraded)), Err(vec![site(2)]));
    assert_eq!(upgraded.try_unwrap(&mut usages, None), Ok(123));
}

#[test]
fn weak_handle_upgrade_fails_after_drop() {
    let (h, mut usages) = ResourceHandle::new(0u8);
    let weak = h.clone_at(&mut usages, site(1)).into_weak(&mut usages);
    h.release(&mut usages);
    assert!(weak.upgrade(&mut usages, site(2), None).is_none());
    assert!(usages.outstanding().is_empty());
}

#[test]
fn shared_reads_observe_same_value() {
    let (h1, mut usages) = ResourceHandle::new(vec![1, 2, 3]);
    let h2 = h1.clone_at(&mut usages, site(1));
    assert_eq!(&*h1, &*h2);
}

#[test]
fn failure_reports_every_outstanding_clone() {
    let (h, mut usages) = ResourceHandle::new("r");
    let c1 = h.clone_at(&mut usages, site(10));
    let c2 = h.clone_at(&mut usages, site(20));
    let c3 = c2.clone_at(&mut usages, site(30));
    c2.release(&mut usages);
    let mut lines: Vec<u32> = match h.try_unwrap(&mut usages, None) {
        Ok(_) => panic!("clones still alive"),
        Err(sites) => sites.iter().map(|s| s.line).collect(),
    };
    lines.sort();
    assert_eq!(lines, vec![10, 30]);
    assert_eq!(c3.try_unwrap(&mut usages, None), Err(vec![site(10)]));
    assert_eq!(c1.try_unwrap(&mut usages, None), Ok("r"));
}

#[test]
fn two_clones_of_one_place_are_both_reported() {
    let (h, mut usages) = ResourceHandle::new(());
    let _a = h.clone_at(&mut usages, site(5));
    let _b = h.clone_at(&mut usages, site(5));
    assert_eq!(h.try_unwrap(&mut usages, None), Err(vec![site(5), site(5)]));
}

#[test]
fn weak_handles_keep_nothing_alive() {
    let (h, mut usages) = ResourceHandle::new(1u8);
    let weak = h.into_weak(&mut usages);
    assert!(weak.upgrade(&mut usages, site(1), None).is_none());
    assert!(weak.clone().upgrade(&mut usages, site(1), None).is_none());
}

#[test]
fn clone_of_a_weak_handle_upgrades_to_the_same_resource() {
    let (h, mut usages) = ResourceHandle::new(5u8);
    let weak = h.clone_at(&mut usages, site(1)).into_weak(&mut usages);
    let upgraded = weak.clone().upgrade(&mut usages, site(2), None).unwrap();
    assert!(std::ptr::eq(&*upgraded, &*h));
}

#[test]
fn reclaim_outcome_follows_the_unwrapping() {
    let (h, mut usages) = ResourceHandle::new(1u8);
    let _clone = h.clone_at(&mut usages, site(3));
    assert_eq!(reclaim_outcome(Some(1u8), &usages), Ok(1));
    assert_eq!(reclaim_outcome(None::<u8>, &usages), Err(vec![site(3)]));
}

#[test]
fn upgrade_without_an_owner_leaves_no_record() {
    let (h, mut usages) = ResourceHandle::new(1u8);
    let _clone = h.clone_at(&mut usages, site(3));
    assert!(upgrade_outcome::<u8>(None, &mut usages, site(4)).is_none());
    assert_eq!(usages.outstanding(), vec![site(3)]);
}

#[test]
fn upgrade_succeeds_as_long_as_any_handle_lives() {
    let (h, mut usages) = ResourceHandle::new(1u8);
    let weak = h.clone_at(&mut usages, site(1)).into_weak(&mut usages);
    let clone = h.clone_at(&mut usages, site(2));
    h.release(&mut usages);
    let upgraded = weak.upgrade(&mut usages, site(3), Some(&clone)).unwrap();
    clone.release(&mut usages);
    let again = weak.upgrade(&mut usages, site(4), Some(&upgraded)).unwrap();
    upgraded.release(&mut usages);
    again.release(&mut usages);
    assert!(weak.upgrade(&mut usages, site(5), None).is_none());
    assert!(usages.outstanding().is_empty());
}
