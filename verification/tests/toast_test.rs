use vong::toast::{ToastQueue, ToastSeverity};

#[test]
fn push_increments_id() {
    let mut q = ToastQueue::new();
    let id0 = q.push("msg 0", ToastSeverity::Info);
    let id1 = q.push("msg 1", ToastSeverity::Warn);
    let id2 = q.push("msg 2", ToastSeverity::Error);
    assert!(id1 > id0);
    assert!(id2 > id1);
}

#[test]
fn snapshot_contains_pushed_entries() {
    let mut q = ToastQueue::new();
    q.push("Đã sao chép tóm tắt", ToastSeverity::Info);
    q.push("Tải mô hình thất bại", ToastSeverity::Error);
    let snap = q.snapshot();
    assert_eq!(snap.len(), 2);
    assert_eq!(snap[0].severity, ToastSeverity::Info);
    assert_eq!(snap[1].severity, ToastSeverity::Error);
}

#[test]
fn prune_expired_removes_old_entries() {
    let mut q = ToastQueue::new();
    // An entry that expired at epoch millisecond 1.
    q.push_expiring_at("expired", ToastSeverity::Info, 1);
    q.push("still alive", ToastSeverity::Info);
    q.prune_expired();
    let snap = q.snapshot();
    assert_eq!(snap.len(), 1);
    assert_eq!(snap[0].message, "still alive");
}

#[test]
fn dismiss_by_id_removes_correct_entry() {
    let mut q = ToastQueue::new();
    let id_a = q.push("toast A", ToastSeverity::Info);
    let _id_b = q.push("toast B", ToastSeverity::Warn);
    q.dismiss(id_a);
    let snap = q.snapshot();
    assert_eq!(snap.len(), 1);
    assert_eq!(snap[0].message, "toast B");
}

#[test]
fn severity_as_str_matches_expected_tokens() {
    assert_eq!(ToastSeverity::Info.as_str(), "info");
    assert_eq!(ToastSeverity::Warn.as_str(), "warn");
    assert_eq!(ToastSeverity::Error.as_str(), "error");
}

#[test]
fn message_truncated_to_200_chars() {
    let mut q = ToastQueue::new();
    let long_msg = "x".repeat(300);
    let id = q.push(&long_msg, ToastSeverity::Error);
    let snap = q.snapshot();
    let entry = snap.iter().find(|e| e.id == id).unwrap();
    assert!(entry.message.chars().count() <= 200);
}

#[test]
fn long_message_keeps_197_chars_and_ellipsis() {
    let mut q = ToastQueue::new();
    let msg: String = (0..250).map(|i| if i % 2 == 0 { 'ă' } else { 'b' }).collect();
    q.push(&msg, ToastSeverity::Warn);
    let snap = q.snapshot();
    let expected: String = msg.chars().take(197).chain(std::iter::once('…')).collect();
    assert_eq!(snap[0].message, expected);
    q.push(&"y".repeat(200), ToastSeverity::Info);
    assert_eq!(q.snapshot()[1].message, "y".repeat(200));
}

#[test]
fn prune_at_keeps_only_future_expiries_and_clear_empties() {
    let mut q = ToastQueue::new();
    q.push_expiring_at("a", ToastSeverity::Info, 100);
    q.push_expiring_at("b", ToastSeverity::Info, 101);
    q.push_expiring_at("c", ToastSeverity::Info, 99);
    q.prune_expired_at(100);
    let snap = q.snapshot();
    assert_eq!(snap.len(), 1);
    assert_eq!(snap[0].message, "b");
    q.clear();
    assert!(q.snapshot().is_empty());
}

#[test]
fn successive_push_ids_increase() {
    let mut q = ToastQueue::new();
    let a = q.push("một", ToastSeverity::Info);
    q.dismiss(a);
    let b = q.push("hai", ToastSeverity::Warn);
    q.prune_expired_at(0);
    let c = q.push("ba", ToastSeverity::Error);
    assert!(a < b && b < c);
    assert_eq!((a, b, c), (0, 1, 2));
}
