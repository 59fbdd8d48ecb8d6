use vstd::prelude::*;
use vstd::string::*;

use crate::queue::{Direction, Fraction};

verus! {

/// One entry of a directory being copied.
#[derive(Debug, Clone)]
pub struct ChildEntry {
    pub name: String,
    pub is_dir: bool,
}

impl View for ChildEntry {
    type V = (Seq<char>, bool);

    open spec fn view(&self) -> (Seq<char>, bool) {
        (self.name@, self.is_dir)
    }
}

/// What the driver observed after performing the last requested step.
#[derive(Debug)]
pub enum WalkEvent {
    Succeeded,
    Failed(String),
    Listed(Vec<ChildEntry>),
}

pub enum WalkEventView {
    Succeeded,
    Failed(Seq<char>),
    Listed(Seq<(Seq<char>, bool)>),
}

impl View for WalkEvent {
    type V = WalkEventView;

    open spec fn view(&self) -> WalkEventView {
        match self {
            WalkEvent::Succeeded => WalkEventView::Succeeded,
            WalkEvent::Failed(m) => WalkEventView::Failed(m@),
            WalkEvent::Listed(cs) => WalkEventView::Listed(cs@.map_values(|c: ChildEntry| c@)),
        }
    }
}

/// What the driver must do next.
#[derive(Debug, PartialEq, Eq)]
pub enum WalkStep {
    /// Create this directory, parents included, on the receiving side.
    MakeDir(String),
    /// List this directory on the sending side.
    List(String),
    /// Copy one file with the file-level transfer policy.
    CopyFile { from: String, to: String },
    /// Hand this fraction to the progress sink.
    Report(Fraction),
    /// Nothing is left to do: see `DirWalk::outcome`.
    Finished,
}

#[derive(Debug, Clone, Copy, PartialEq, Eq, Structural)]
pub enum WalkPhase {
    MakeDir,
    List,
    Copy,
    Report,
    Done,
    Failed,
}

/// A directory being walked, as plain values.
pub struct FrameView {
    pub local: Seq<char>,
    pub remote: Seq<char>,
    pub children: Seq<(Seq<char>, bool)>,
    pub next: int,
}

/// The walk as plain values.
pub struct WalkView {
    pub stack: Seq<FrameView>,
    pub phase: WalkPhase,
    pub error: Seq<char>,
    /// The directories created so far, in order.
    pub made: Seq<Seq<char>>,
}

/// `dir/name`, with no doubled separator.
pub open spec fn join_spec(dir: Seq<char>, name: Seq<char>) -> Seq<char> {
    if dir.len() > 0 && dir.last() == '/' {
        dir + name
    } else {
        dir + seq!['/'] + name
    }
}

/// The side that is read.
pub open spec fn source(d: Direction, f: FrameView) -> Seq<char> {
    match d {
        Direction::Upload => f.local,
        Direction::Download => f.remote,
    }
}

/// The side that is written.
pub open spec fn target(d: Direction, f: FrameView) -> Seq<char> {
    match d {
        Direction::Upload => f.remote,
        Direction::Download => f.local,
    }
}

/// The walk of `local` and `remote` before anything was done.
pub open spec fn start_view(local: Seq<char>, remote: Seq<char>) -> WalkView {
    WalkView {
        stack: seq![FrameView { local, remote, children: Seq::empty(), next: 0 }],
        phase: WalkPhase::MakeDir,
        error: Seq::empty(),
        made: Seq::empty(),
    }
}

pub open spec fn top(s: WalkView) -> FrameView {
    s.stack.last()
}

pub open spec fn with_top(s: WalkView, f: FrameView) -> WalkView {
    WalkView { stack: s.stack.update(s.stack.len() - 1, f), ..s }
}

/// Moves on to the child at the top frame's `next`: a directory is entered,
/// a file is copied.
pub open spec fn enter_child(s: WalkView) -> WalkView {
    let f = top(s);
    let c = f.children[f.next];
    if c.1 {
        WalkView {
            stack: s.stack.push(
                FrameView {
                    local: join_spec(f.local, c.0),
                    remote: join_spec(f.remote, c.0),
                    children: Seq::empty(),
                    next: 0,
                },
            ),
            phase: WalkPhase::MakeDir,
            ..s
        }
    } else {
        WalkView { phase: WalkPhase::Copy, ..s }
    }
}

/// The top frame is done: the walk ends, or its parent reports the child done.
pub open spec fn leave_frame(s: WalkView) -> WalkView {
    let rest = s.stack.drop_last();
    if rest.len() == 0 {
        WalkView { stack: rest, phase: WalkPhase::Done, ..s }
    } else {
        WalkView { stack: rest, phase: WalkPhase::Report, ..s }
    }
}

pub open spec fn walk_message(ev: WalkEventView) -> Seq<char> {
    match ev {
        WalkEventView::Failed(m) => m,
        _ => "意外的结果"@,
    }
}

pub open spec fn failed_with(s: WalkView, ev: WalkEventView) -> WalkView {
    WalkView { phase: WalkPhase::Failed, error: walk_message(ev), ..s }
}

/// The walk after `ev` was observed.
pub open spec fn walk_next(d: Direction, s: WalkView, ev: WalkEventView) -> WalkView {
    let ok = ev is Succeeded;
    match s.phase {
        WalkPhase::MakeDir => if ok {
            WalkView { phase: WalkPhase::List, made: s.made.push(target(d, top(s))), ..s }
        } else {
            failed_with(s, ev)
        },
        WalkPhase::List => match ev {
            WalkEventView::Listed(cs) => {
                let s2 = with_top(s, FrameView { children: cs, next: 0, ..top(s) });
                if cs.len() == 0 {
                    leave_frame(s2)
                } else {
                    enter_child(s2)
                }
            },
            _ => failed_with(s, ev),
        },
        WalkPhase::Copy => if ok {
            WalkView { phase: WalkPhase::Report, ..s }
        } else {
            failed_with(s, ev)
        },
        WalkPhase::Report => {
            let f = top(s);
            let s2 = with_top(s, FrameView { next: f.next + 1, ..f });
            if f.next + 1 < f.children.len() {
                enter_child(s2)
            } else {
                leave_frame(s2)
            }
        },
        WalkPhase::Done => s,
        WalkPhase::Failed => s,
    }
}

/// The step that the driver is asked to perform.
pub open spec fn walk_step_matches(d: Direction, s: WalkView, r: WalkStep) -> bool {
    let f = top(s);
    match s.phase {
        WalkPhase::MakeDir => r is MakeDir && r->MakeDir_0@ == target(d, f),
        WalkPhase::List => r is List && r->List_0@ == source(d, f),
        WalkPhase::Copy => r is CopyFile && r->from@ == join_spec(source(d, f), f.children[f.next].0)
            && r->to@ == join_spec(target(d, f), f.children[f.next].0),
        WalkPhase::Report => r == WalkStep::Report(
            Fraction { done: (f.next + 1) as u64, total: f.children.len() as u64 },
        ),
        WalkPhase::Done => r is Finished,
        WalkPhase::Failed => r is Finished,
    }
}

/// The states that a walk can be in.
pub open spec fn walk_wf(d: Direction, s: WalkView) -> bool {
    &&& (s.phase != WalkPhase::Done && s.phase != WalkPhase::Failed) ==> s.stack.len() > 0
    &&& (s.phase == WalkPhase::Copy || s.phase == WalkPhase::Report) ==> 0 <= top(s).next < top(
        s,
    ).children.len()
    &&& s.phase == WalkPhase::Copy ==> !top(s).children[top(s).next].1
    &&& forall|k: int|
        0 <= k < s.stack.len() - 1 ==> 0 <= #[trigger] s.stack[k].next < s.stack[k].children.len()
    &&& s.phase != WalkPhase::Failed ==> forall|k: int|
        0 <= k < s.stack.len() && !(k == s.stack.len() - 1 && s.phase == WalkPhase::MakeDir)
            ==> s.made.contains(target(d, #[trigger] s.stack[k]))
}

/// Walking the directory changes it as `walk_next` says and keeps it well formed.
pub proof fn lemma_walk_next_wf(d: Direction, s: WalkView, ev: WalkEventView)
    requires
        walk_wf(d, s),
    ensures
        walk_wf(d, walk_next(d, s, ev)),
{
    let n = walk_next(d, s, ev);
    match s.phase {
        WalkPhase::MakeDir => {
            if ev is Succeeded {
                assert forall|k: int| 0 <= k < n.stack.len() implies n.made.contains(
                    target(d, #[trigger] n.stack[k]),
                ) by {
                    if k < s.stack.len() - 1 {
                        assert(s.made.contains(target(d, s.stack[k])));
                        let i = choose|i: int| 0 <= i < s.made.len() && s.made[i] == target(d, s.stack[k]);
                        assert(n.made[i] == target(d, n.stack[k]));
                    } else {
                        assert(n.made[n.made.len() - 1] == target(d, n.stack[k]));
                    }
                }
            }
        },
        WalkPhase::List => {
            if let WalkEventView::Listed(cs) = ev {
                let s2 = with_top(s, FrameView { children: cs, next: 0, ..top(s) });
                assert forall|k: int| 0 <= k < s2.stack.len() implies target(d, #[trigger] s2.stack[k])
                    == target(d, s.stack[k]) by {}
            }
        },
        WalkPhase::Report => {
            let f = top(s);
            let s2 = with_top(s, FrameView { next: f.next + 1, ..f });
            assert forall|k: int| 0 <= k < s2.stack.len() implies target(d, #[trigger] s2.stack[k])
                == target(d, s.stack[k]) by {}
        },
        _ => {},
    }
}

/// A walk never asks to copy a file into a directory before it asked to
/// create that directory and the driver reported it created: the target of
/// every `CopyFile` step is a child of a directory in `made`, and `made`
/// grows only by the directory of an acknowledged `MakeDir` step.  A fresh
/// walk has created nothing and first asks to create the root.
pub proof fn lemma_make_dir_precedes_copy(d: Direction, s: WalkView, ev: WalkEventView, r: WalkStep)
    requires
        walk_wf(d, s),
        walk_step_matches(d, s, r),
    ensures
        r is CopyFile ==> s.made.contains(target(d, top(s))) && r->to@ == join_spec(
            target(d, top(s)),
            top(s).children[top(s).next].0,
        ),
        walk_next(d, s, ev).made == if s.phase == WalkPhase::MakeDir && ev is Succeeded {
            s.made.push(target(d, top(s)))
        } else {
            s.made
        },
        s.phase == WalkPhase::MakeDir ==> r is MakeDir && r->MakeDir_0@ == target(d, top(s)),
{
    if r is CopyFile {
        assert(s.made.contains(target(d, s.stack[s.stack.len() - 1])));
    }
}

/// A fresh walk has created nothing and first asks to create its root.
pub proof fn lemma_walk_starts_with_make_dir(d: Direction, local: Seq<char>, remote: Seq<char>, r: WalkStep)
    requires
        walk_step_matches(d, start_view(local, remote), r),
    ensures
        walk_wf(d, start_view(local, remote)),
        start_view(local, remote).made.len() == 0,
        r is MakeDir,
        r->MakeDir_0@ == match d {
            Direction::Upload => remote,
            Direction::Download => local,
        },
{
}

/// A directory frame of a walk.
struct Frame {
    local: String,
    remote: String,
    children: Vec<ChildEntry>,
    next: usize,
}

impl Frame {
    closed spec fn fv(&self) -> FrameView {
        FrameView {
            local: self.local@,
            remote: self.remote@,
            children: self.children@.map_values(|c: ChildEntry| c@),
            next: self.next as int,
        }
    }
}

/// `dir/name`, with no doubled separator.
pub fn join_path(dir: &str, name: &str) -> (r: String)
    ensures
        r@ == join_spec(dir@, name@),
{
    let n = dir.unicode_len();
    let mut r = String::from_str(dir);
    if n > 0 && dir.get_char(n - 1) == '/' {
        r.append(name);
    } else {
        r.append("/");
        r.append(name);
        proof {
            reveal_strlit("/");
        }
    }
    r
}

/// Copies a directory tree, depth first: each directory is created on the
/// receiving side before it is listed on the sending side, its files are
/// copied and its sub-directories walked in listing order, and after each
/// child the share of children done at that level is reported.
pub struct DirWalk {
    direction: Direction,
    stack: Vec<Frame>,
    phase: WalkPhase,
    error: String,
    made: Ghost<Seq<Seq<char>>>,
}

impl DirWalk {
    pub closed spec fn view_spec(&self) -> WalkView {
        WalkView {
            stack: self.stack@.map_values(|f: Frame| f.fv()),
            phase: self.phase,
            error: self.error@,
            made: self.made@,
        }
    }

    pub closed spec fn direction_spec(&self) -> Direction {
        self.direction
    }

    pub open spec fn wf(&self) -> bool {
        walk_wf(self.direction_spec(), self.view_spec())
    }

    /// A walk that copies `local` to `remote` (upload) or `remote` to `local` (download).
    pub fn new(direction: Direction, local: String, remote: String) -> (r: DirWalk)
        ensures
            r.wf(),
            r.direction_spec() == direction,
            r.view_spec() == start_view(local@, remote@),
    {
        let mut stack: Vec<Frame> = Vec::new();
        stack.push(Frame { local, remote, children: Vec::new(), next: 0 });
        let r = DirWalk { direction, stack, phase: WalkPhase::MakeDir, error: String::new(), made: Ghost(Seq::empty()) };
        proof {
            assert(r.stack@[0].fv().children =~= Seq::<(Seq<char>, bool)>::empty());
            assert(r.view_spec().stack =~= start_view(local@, remote@).stack);
        }
        r
    }

    /// What the driver must do next.
    pub fn next_step(&self) -> (r: WalkStep)
        requires
            self.wf(),
        ensures
            walk_step_matches(self.direction_spec(), self.view_spec(), r),
            r is CopyFile ==> self.view_spec().made.contains(target(self.direction_spec(), top(self.view_spec()))),
    {
        if let WalkPhase::Done = self.phase {
            return WalkStep::Finished;
        }
        if let WalkPhase::Failed = self.phase {
            return WalkStep::Finished;
        }
        let k = self.stack.len() - 1;
        let f = &self.stack[k];
        assert(f.fv() == top(self.view_spec()));
        assert(f.fv().children.len() == f.children@.len());
        let (src, dst) = match self.direction {
            Direction::Upload => (&f.local, &f.remote),
            Direction::Download => (&f.remote, &f.local),
        };
        match self.phase {
            WalkPhase::MakeDir => WalkStep::MakeDir(dst.clone()),
            WalkPhase::List => WalkStep::List(src.clone()),
            WalkPhase::Copy => {
                assert(self.view_spec().made.contains(
                    target(self.direction, self.view_spec().stack[self.view_spec().stack.len() - 1]),
                ));
                let c = &f.children[f.next];
                WalkStep::CopyFile {
                    from: join_path(src.as_str(), c.name.as_str()),
                    to: join_path(dst.as_str(), c.name.as_str()),
                }
            },
            WalkPhase::Report => {
                let len = f.children.len();
                assert(f.next < len);
                WalkStep::Report(Fraction::new((f.next + 1) as u64, len as u64))
            },
            _ => WalkStep::Finished,
        }
    }
    /// How the walk ended, once it has: `Ok` when every file was copied, or the
    /// first failure.
    pub fn outcome(&self) -> (r: Option<Result<(), String>>)
        ensures
            self.view_spec().phase == WalkPhase::Done ==> r == Some(Ok::<(), String>(())),
            self.view_spec().phase == WalkPhase::Failed ==> r is Some && r->0 is Err && r->0->Err_0@
                == self.view_spec().error,
            self.view_spec().phase != WalkPhase::Done && self.view_spec().phase != WalkPhase::Failed
                ==> r is None,
    {
        match self.phase {
            WalkPhase::Done => Some(Ok(())),
            WalkPhase::Failed => Some(Err(self.error.clone())),
            _ => None,
        }
    }

    fn enter_child(&mut self)
        requires
            old(self).view_spec().stack.len() > 0,
            0 <= top(old(self).view_spec()).next < top(old(self).view_spec()).children.len(),
        ensures
            final(self).view_spec() == enter_child(old(self).view_spec()),
            final(self).direction == old(self).direction,
    {
        let k = self.stack.len() - 1;
        assert(self.stack@[k as int].fv() == top(self.view_spec()));
        let i = self.stack[k].next;
        let is_dir = self.stack[k].children[i].is_dir;
        if is_dir {
            let local = join_path(self.stack[k].local.as_str(), self.stack[k].children[i].name.as_str());
            let remote = join_path(self.stack[k].remote.as_str(), self.stack[k].children[i].name.as_str());
            let ghost before = self.view_spec();
            let fr = Frame { local, remote, children: Vec::new(), next: 0 };
            proof {
                assert(fr.fv().children =~= Seq::<(Seq<char>, bool)>::empty());
            }
            self.stack.push(fr);
            self.phase = WalkPhase::MakeDir;
            proof {
                assert(self.view_spec().stack =~= enter_child(before).stack);
            }
        } else {
            self.phase = WalkPhase::Copy;
        }
    }

    fn leave_frame(&mut self)
        requires
            old(self).view_spec().stack.len() > 0,
        ensures
            final(self).view_spec() == leave_frame(old(self).view_spec()),
            final(self).direction == old(self).direction,
    {
        let ghost before = self.view_spec();
        self.stack.pop();
        if self.stack.len() == 0 {
            self.phase = WalkPhase::Done;
        } else {
            self.phase = WalkPhase::Report;
        }
        proof {
            assert(self.view_spec().stack =~= before.stack.drop_last());
        }
    }

    /// Records what the driver observed and moves the walk on.
    pub fn advance(&mut self, ev: WalkEvent)
        requires
            old(self).wf(),
        ensures
            final(self).wf(),
            final(self).direction_spec() == old(self).direction_spec(),
            final(self).view_spec() == walk_next(old(self).direction_spec(), old(self).view_spec(), ev@),
    {
        let ghost before = self.view_spec();
        let ghost d = self.direction;
        proof {
            lemma_walk_next_wf(d, before, ev@);
        }
        let ok = match &ev {
            WalkEvent::Succeeded => true,
            _ => false,
        };
        match self.phase {
            WalkPhase::MakeDir => {
                if ok {
                    let k = self.stack.len() - 1;
                    assert(self.stack@[k as int].fv() == top(before));
                    let ghost t = target(d, top(before));
                    self.made = Ghost(self.made@.push(t));
                    self.phase = WalkPhase::List;
                } else {
                    self.fail(ev);
                }
            },
            WalkPhase::List => {
                match ev {
                    WalkEvent::Listed(cs) => {
                        let k = self.stack.len() - 1;
                        let ghost cv = cs@.map_values(|c: ChildEntry| c@);
                        let empty = cs.len() == 0;
                        self.stack[k].children = cs;
                        self.stack[k].next = 0;
                        proof {
                            let s2 = with_top(before, FrameView { children: cv, next: 0, ..top(before) });
                            assert(self.view_spec().stack =~= s2.stack);
                        }
                        if empty {
                            self.leave_frame();
                        } else {
                            self.enter_child();
                        }
                    },
                    _ => {
                        self.fail(ev);
                    },
                }
            },
            WalkPhase::Copy => {
                if ok {
                    self.phase = WalkPhase::Report;
                } else {
                    self.fail(ev);
                }
            },
            WalkPhase::Report => {
                let k = self.stack.len() - 1;
                assert(self.stack@[k as int].fv() == top(before));
                let len = self.stack[k].children.len();
                let nx = self.stack[k].next + 1;
                self.stack[k].next = nx;
                proof {
                    let f = top(before);
                    let s2 = with_top(before, FrameView { next: f.next + 1, ..f });
                    assert(self.view_spec().stack =~= s2.stack);
                }
                if nx < len {
                    self.enter_child();
                } else {
                    self.leave_frame();
                }
            },
            WalkPhase::Done => {},
            WalkPhase::Failed => {},
        }
    }

    fn fail(&mut self, ev: WalkEvent)
        ensures
            final(self).view_spec() == failed_with(old(self).view_spec(), ev@),
            final(self).direction == old(self).direction,
    {
        let msg = match ev {
            WalkEvent::Failed(m) => m,
            _ => String::from_str("意外的结果"),
        };
        self.error = msg;
        self.phase = WalkPhase::Failed;
    }
}

} // verus!
