use flick::queue::Fraction;
use flick::transport::{after_command, after_native, progress_reports, ChunkProgress, ProgressFloor, TransportError};

#[test]
fn command_success_ends_the_copy() {
    assert_eq!(after_command(Ok(())), None);
}

#[test]
fn native_transport_rescues_failed_command_transport() {
    let e = after_command(Err("scp: not found".into())).unwrap();
    assert_eq!(e, "scp: not found");
    assert!(after_native(e, Ok(())).is_ok());
}

#[test]
fn both_failures_are_reported() {
    let e = after_command(Err("scp exited 1".into())).unwrap();
    let err: TransportError = after_native(e, Err("sftp refused".into())).unwrap_err();
    let m = err.message();
    assert!(m.contains("scp exited 1"));
    assert!(m.contains("sftp refused"));
    assert_eq!(m, "SCP 和 SFTP 均失败。SCP 错误: scp exited 1: sftp refused");
}

fn value(p: Fraction) -> f64 {
    p.done as f64 / p.total as f64
}

#[test]
fn chunk_reports_rise_to_exactly_one() {
    let (mut p, first) = ChunkProgress::start(20000);
    let mut seen = vec![value(first)];
    for n in [8192u64, 8192, 3616] {
        seen.push(value(p.on_chunk(n).unwrap()));
    }
    seen.push(value(p.finish()));
    assert!(seen.windows(2).all(|w| w[0] <= w[1]));
    assert_eq!(seen[0], 0.0);
    assert_eq!(seen[3], 1.0);
    assert_eq!(*seen.last().unwrap(), 1.0);
    assert_eq!(seen[1], 8192.0 / 20000.0);
}

#[test]
fn unknown_size_gives_only_boundary_reports() {
    let (mut p, first) = ChunkProgress::start(0);
    assert_eq!(value(first), 0.0);
    assert!(p.on_chunk(100).is_none());
    assert_eq!(value(p.finish()), 1.0);
}

#[test]
fn growing_file_is_capped_at_one() {
    let (mut p, _) = ChunkProgress::start(10);
    assert_eq!(value(p.on_chunk(15).unwrap()), 1.0);
}

#[test]
fn progress_floor_holds_back_lower_reports() {
    let mut floor = ProgressFloor::new();
    assert_eq!(floor.report(Fraction::new(0, 1)), Some(Fraction::new(0, 1)));
    assert_eq!(floor.report(Fraction::new(1, 10)), Some(Fraction::new(1, 10)));
    assert_eq!(floor.report(Fraction::new(0, 1)), None);
    assert_eq!(floor.report(Fraction::new(8192, 100000)), None);
    assert_eq!(floor.report(Fraction::new(1, 5)), Some(Fraction::new(1, 5)));
    assert_eq!(floor.report(Fraction::new(2, 10)), Some(Fraction::new(2, 10)));
    assert_eq!(floor.finish(), Fraction::new(1, 1));
    assert_eq!(floor.report(Fraction::new(9, 10)), None);
}

#[test]
fn scripted_chunk_reports() {
    let r = progress_reports(20000, &vec![8192, 8192, 3616]);
    let v: Vec<f64> = r.iter().map(|f| value(*f)).collect();
    assert_eq!(v, vec![0.0, 0.4096, 0.8192, 1.0, 1.0]);
    assert_eq!(progress_reports(0, &vec![5, 5]), vec![Fraction::new(0, 1), Fraction::new(1, 1)]);
    assert_eq!(progress_reports(10, &vec![]), vec![Fraction::new(0, 1), Fraction::new(1, 1)]);
}
