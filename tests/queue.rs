use flick::queue::{format_eta, status_to_text, Direction, Fraction, TransferQueue, TransferStatus};

fn make_queue_with_task() -> (TransferQueue, usize) {
    let mut q = TransferQueue::new();
    let id = q.enqueue(
        Direction::Upload,
        "/local/file.txt".to_string(),
        "/remote/file.txt".to_string(),
        "file.txt".to_string(),
        1024,
    );
    (q, id)
}

fn value(p: Fraction) -> f64 {
    p.done as f64 / p.total as f64
}

#[test]
fn test_enqueue_returns_incremental_ids() {
    let mut q = TransferQueue::new();
    let id0 = q.enqueue(Direction::Upload, "a".into(), "r".into(), "a".into(), 0);
    let id1 = q.enqueue(Direction::Download, "b".into(), "r".into(), "b".into(), 0);
    assert_eq!(id0, 0);
    assert_eq!(id1, 1);
}

#[test]
fn test_enqueue_sets_pending() {
    let (q, _) = make_queue_with_task();
    let snap = q.snapshot();
    assert_eq!(snap[0].status, TransferStatus::Pending);
    assert_eq!(value(snap[0].progress), 0.0);
}

#[test]
fn test_next_pending() {
    let (q, id) = make_queue_with_task();
    let task = q.next_pending().unwrap();
    assert_eq!(task.id, id);
}

#[test]
fn test_update_progress() {
    let (mut q, id) = make_queue_with_task();
    q.update_progress(id, Fraction::new(1, 2));
    let snap = q.snapshot();
    assert_eq!(value(snap[0].progress), 0.5);
    assert_eq!(snap[0].status, TransferStatus::InProgress);
}

#[test]
fn test_mark_completed() {
    let (mut q, id) = make_queue_with_task();
    q.mark_completed(id);
    let snap = q.snapshot();
    assert_eq!(snap[0].status, TransferStatus::Completed);
    assert_eq!(value(snap[0].progress), 1.0);
}

#[test]
fn test_mark_failed() {
    let (mut q, id) = make_queue_with_task();
    q.mark_failed(id, "timeout".to_string());
    let snap = q.snapshot();
    assert_eq!(snap[0].status, TransferStatus::Failed("timeout".to_string()));
}

#[test]
fn test_clear_completed() {
    let mut q = TransferQueue::new();
    let id0 = q.enqueue(Direction::Upload, "a".into(), "r".into(), "a".into(), 0);
    let _id1 = q.enqueue(Direction::Upload, "b".into(), "r".into(), "b".into(), 0);
    q.mark_completed(id0);
    q.clear_completed();
    let snap = q.snapshot();
    assert_eq!(snap.len(), 1);
    assert_eq!(snap[0].status, TransferStatus::Pending);
}

#[test]
fn clear_completed_leaves_second_task_unchanged() {
    let mut q = TransferQueue::new();
    let a = q.enqueue(Direction::Upload, "a".into(), "ra".into(), "a".into(), 10);
    let b = q.enqueue(Direction::Download, "b".into(), "rb".into(), "b".into(), 20);
    assert_eq!((a, b), (0, 1));
    let before = q.get_task(b).unwrap();
    q.mark_completed(a);
    q.clear_completed();
    let snap = q.snapshot();
    assert_eq!(snap.len(), 1);
    assert_eq!(snap[0].id, 1);
    assert_eq!(snap[0].local_path, before.local_path);
    assert_eq!(snap[0].remote_path, "rb");
    assert_eq!(snap[0].size, 20);
    assert_eq!(snap[0].direction, Direction::Download);
    assert_eq!(snap[0].status, TransferStatus::Pending);
    assert!(q.get_task(a).is_none());
}

#[test]
fn retry_only_failed_tasks() {
    let (mut q, id) = make_queue_with_task();
    assert!(!q.retry(id));
    q.update_progress(id, Fraction::new(3, 4));
    assert!(!q.retry(id));
    assert!(q.get_task(id).unwrap().started_at.is_some());
    q.mark_failed(id, "boom".into());
    assert!(q.retry(id));
    let t = q.get_task(id).unwrap();
    assert_eq!(t.status, TransferStatus::Pending);
    assert_eq!(value(t.progress), 0.0);
    assert!(t.started_at.is_none());
    assert!(!q.retry(id));
    assert!(!q.retry(99));
    q.mark_completed(id);
    assert!(!q.retry(id));
}

#[test]
fn update_progress_keeps_first_start_time_and_ignores_unknown_id() {
    let (mut q, id) = make_queue_with_task();
    q.update_progress(id, Fraction::new(1, 4));
    let first = q.get_task(id).unwrap().started_at;
    q.update_progress(id, Fraction::new(2, 4));
    assert_eq!(q.get_task(id).unwrap().started_at, first);
    q.update_progress(7, Fraction::new(1, 1));
    assert_eq!(value(q.get_task(id).unwrap().progress), 0.5);
    q.mark_failed(id, "x".into());
    assert_eq!(value(q.get_task(id).unwrap().progress), 0.5);
}

#[test]
fn next_pending_skips_started_tasks() {
    let mut q = TransferQueue::new();
    assert!(q.next_pending().is_none());
    let a = q.enqueue(Direction::Upload, "a".into(), "r".into(), "a".into(), 0);
    let b = q.enqueue(Direction::Upload, "b".into(), "r".into(), "b".into(), 0);
    q.update_progress(a, Fraction::zero());
    assert_eq!(q.next_pending().unwrap().id, b);
}

#[test]
fn status_texts() {
    assert_eq!(status_to_text(&TransferStatus::Pending), ("pending", String::new()));
    assert_eq!(status_to_text(&TransferStatus::InProgress), ("progress", String::new()));
    assert_eq!(status_to_text(&TransferStatus::Completed), ("done", String::new()));
    assert_eq!(status_to_text(&TransferStatus::Failed("e".into())), ("failed", "e".to_string()));
}

#[test]
fn eta_texts() {
    assert_eq!(format_eta(0), "0s");
    assert_eq!(format_eta(59), "59s");
    assert_eq!(format_eta(60), "1:00");
    assert_eq!(format_eta(125), "2:05");
    assert_eq!(format_eta(3599), "59:59");
    assert_eq!(format_eta(3600), "1:00:00");
    assert_eq!(format_eta(3725), "1:02:05");
}
