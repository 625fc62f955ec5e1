use saffrodex::ids::ThreadId;
use saffrodex::retention::AncestorTurnRetention;

const ROOT: ThreadId = ThreadId { value: 1 };
const PARENT: ThreadId = ThreadId { value: 2 };

#[test]
fn sibling_turns_retain_shared_ancestors_until_both_finish() {
    let mut retention = AncestorTurnRetention::new();

    let first = retention
        .retain(&vec![ROOT, PARENT])
        .expect("first child should retain ancestors");
    let second = retention
        .retain(&vec![ROOT, PARENT])
        .expect("second child should retain ancestors");

    retention.release(first);
    assert!(retention.is_retained(ROOT));
    assert!(retention.is_retained(PARENT));

    retention.release(second);
    assert!(!retention.is_retained(ROOT));
    assert!(!retention.is_retained(PARENT));
}

#[test]
fn nested_turns_release_only_their_own_ancestor_chain() {
    let mut retention = AncestorTurnRetention::new();

    let child = retention
        .retain(&vec![ROOT])
        .expect("child should retain root");
    let grandchild = retention
        .retain(&vec![ROOT, PARENT])
        .expect("grandchild should retain both ancestors");

    retention.release(child);
    assert!(retention.is_retained(ROOT));
    assert!(retention.is_retained(PARENT));

    retention.release(grandchild);
    assert!(!retention.is_retained(ROOT));
    assert!(!retention.is_retained(PARENT));
}

#[test]
fn duplicate_ancestor_ids_count_as_one_lease() {
    let mut retention = AncestorTurnRetention::new();

    let guard = retention
        .retain(&vec![ROOT, ROOT])
        .expect("ancestor should be retained");
    retention.release(guard);

    assert!(!retention.is_retained(ROOT));
}

#[test]
fn no_ancestors_need_no_lease() {
    let mut retention = AncestorTurnRetention::new();
    assert!(retention.retain(&vec![]).is_none());
    assert!(!retention.is_retained(ROOT));
}

#[test]
fn leases_are_released_in_any_order() {
    let mut retention = AncestorTurnRetention::new();
    let a = retention.retain(&vec![ROOT]).unwrap();
    let b = retention.retain(&vec![PARENT, ROOT]).unwrap();
    let c = retention.retain(&vec![PARENT]).unwrap();
    retention.release(b);
    assert!(retention.is_retained(ROOT));
    assert!(retention.is_retained(PARENT));
    retention.release(c);
    assert!(!retention.is_retained(PARENT));
    retention.release(a);
    assert!(!retention.is_retained(ROOT));
}

#[test]
fn thread_ids_are_written_and_read_as_five_groups() {
    let text = "018f0000-0000-7000-8000-000000000001";
    let id = ThreadId::from_text(text).expect("thread id");
    assert_eq!(id.value, 0x018f0000_0000_7000_8000_000000000001);
    assert_eq!(id.to_text(), text);
    assert_eq!(ThreadId::from_text("018F0000-0000-7000-8000-000000000001"), Some(id));
    assert_eq!(ThreadId { value: u128::MAX }.to_text(), "ffffffff-ffff-ffff-ffff-ffffffffffff");
    assert_eq!(ThreadId::from_text("018f0000-0000-7000-8000-00000000000g"), None);
    assert_eq!(ThreadId::from_text("018f00000000-7000-8000-0000000000001-"), None);
    assert_eq!(ThreadId::from_text(""), None);
    let (less, greater) = (ThreadId { value: 9 }, ThreadId { value: 10 << 64 });
    assert!(less.to_text() < greater.to_text());
}
