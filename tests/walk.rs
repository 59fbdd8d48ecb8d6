use flick::queue::{Direction, Fraction};
use flick::walk::{join_path, ChildEntry, DirWalk, WalkEvent, WalkStep};

fn child(name: &str, is_dir: bool) -> ChildEntry {
    ChildEntry { name: name.into(), is_dir }
}

#[test]
fn upload_creates_remote_root_before_any_copy() {
    let mut w = DirWalk::new(Direction::Upload, "/l/root".into(), "/r/root".into());
    let mut steps = Vec::new();
    loop {
        let s = w.next_step();
        let ev = match &s {
            WalkStep::Finished => break,
            WalkStep::List(p) if p == "/l/root" => WalkEvent::Listed(vec![child("a.txt", false), child("sub", true)]),
            WalkStep::List(_) => WalkEvent::Listed(vec![child("b.txt", false)]),
            _ => WalkEvent::Succeeded,
        };
        steps.push(s);
        w.advance(ev);
    }
    assert_eq!(
        steps,
        vec![
            WalkStep::MakeDir("/r/root".into()),
            WalkStep::List("/l/root".into()),
            WalkStep::CopyFile { from: "/l/root/a.txt".into(), to: "/r/root/a.txt".into() },
            WalkStep::Report(Fraction::new(1, 2)),
            WalkStep::MakeDir("/r/root/sub".into()),
            WalkStep::List("/l/root/sub".into()),
            WalkStep::CopyFile { from: "/l/root/sub/b.txt".into(), to: "/r/root/sub/b.txt".into() },
            WalkStep::Report(Fraction::new(1, 1)),
            WalkStep::Report(Fraction::new(2, 2)),
        ]
    );
    assert_eq!(w.outcome(), Some(Ok(())));
}

#[test]
fn download_creates_local_root_and_stops_on_failure() {
    let mut w = DirWalk::new(Direction::Download, "/l".into(), "/r/".into());
    assert_eq!(w.next_step(), WalkStep::MakeDir("/l".into()));
    w.advance(WalkEvent::Succeeded);
    assert_eq!(w.next_step(), WalkStep::List("/r/".into()));
    w.advance(WalkEvent::Listed(vec![child("f", false), child("g", false)]));
    assert_eq!(w.next_step(), WalkStep::CopyFile { from: "/r/f".into(), to: "/l/f".into() });
    w.advance(WalkEvent::Failed("disk full".into()));
    assert_eq!(w.next_step(), WalkStep::Finished);
    assert_eq!(w.outcome(), Some(Err("disk full".to_string())));
}

#[test]
fn empty_directory_finishes_after_listing() {
    let mut w = DirWalk::new(Direction::Upload, "/l".into(), "/r".into());
    w.advance(WalkEvent::Succeeded);
    w.advance(WalkEvent::Listed(vec![]));
    assert_eq!(w.next_step(), WalkStep::Finished);
    assert_eq!(w.outcome(), Some(Ok(())));
}

#[test]
fn failed_mkdir_copies_nothing() {
    let mut w = DirWalk::new(Direction::Upload, "/l".into(), "/r".into());
    w.advance(WalkEvent::Failed("permission denied".into()));
    assert_eq!(w.next_step(), WalkStep::Finished);
    assert_eq!(w.outcome(), Some(Err("permission denied".to_string())));
}

#[test]
fn join_path_has_one_separator() {
    assert_eq!(join_path("/a", "b"), "/a/b");
    assert_eq!(join_path("/a/", "b"), "/a/b");
    assert_eq!(join_path("", "b"), "/b");
}
