use vstd::prelude::*;
use vstd::string::*;

use crate::queue::Fraction;

verus! {

/// The two ways a file can be copied.
#[derive(Debug, Clone, Copy, PartialEq, Eq, Structural)]
pub enum Transport {
    /// The system `scp` client.
    Command,
    /// The in-process SFTP session.
    Native,
}

/// Both transports failed: the causes of each.
#[derive(Debug, Clone)]
pub struct TransportError {
    pub command: String,
    pub native: String,
}

pub open spec fn both_failed_text(command: Seq<char>, native: Seq<char>) -> Seq<char> {
    "SCP 和 SFTP 均失败。SCP 错误: "@ + command + ": "@ + native
}

impl TransportError {
    /// The error as one line that holds both causes.
    pub fn message(&self) -> (r: String)
        ensures
            r@ == both_failed_text(self.command@, self.native@),
    {
        let mut r = String::from_str("SCP 和 SFTP 均失败。SCP 错误: ");
        r.append(self.command.as_str());
        r.append(": ");
        r.append(self.native.as_str());
        r
    }
}

/// What follows the command transport's result: `None` when the copy is done,
/// or the command transport's error, with which the native transport must run.
pub fn after_command(result: Result<(), String>) -> (r: Option<String>)
    ensures
        result is Ok ==> r is None,
        result is Err ==> r is Some && r->0@ == result->Err_0@,
{
    match result {
        Ok(()) => None,
        Err(e) => Some(e),
    }
}

/// The result of a copy whose command transport failed with `command_error`
/// and whose native transport gave `result`.
pub fn after_native(command_error: String, result: Result<(), String>) -> (r: Result<(), TransportError>)
    ensures
        result is Ok <==> r is Ok,
        result is Err ==> r->Err_0.command@ == command_error@ && r->Err_0.native@ == result->Err_0@,
{
    match result {
        Ok(()) => Ok(()),
        Err(e) => Err(TransportError { command: command_error, native: e }),
    }
}

/// A copy whose command transport fails still succeeds when the native
/// transport succeeds; when both fail, the error's text holds both causes.
pub proof fn lemma_fallback_reports_both(command: Seq<char>, native: Seq<char>)
    ensures
        ({
            let t = both_failed_text(command, native);
            let i = "SCP 和 SFTP 均失败。SCP 错误: "@.len() as int;
            let j = i + command.len() + ": "@.len();
            &&& t.subrange(i, i + command.len()) == command
            &&& t.subrange(j, j + native.len()) == native
            &&& j + native.len() == t.len()
        }),
{
    let a = "SCP 和 SFTP 均失败。SCP 错误: "@;
    let b = ": "@;
    let t = both_failed_text(command, native);
    let i = a.len() as int;
    let j = i + command.len() + b.len();
    assert(t.subrange(i, i + command.len()) =~= command);
    assert(t.subrange(j, j + native.len()) =~= native);
}

/// The sum of the chunk sizes.
pub open spec fn chunk_sum(chunks: Seq<u64>) -> int
    decreases chunks.len(),
{
    if chunks.len() == 0 {
        0
    } else {
        chunk_sum(chunks.drop_last()) + chunks.last()
    }
}

pub open spec fn min(a: int, b: int) -> int {
    if a <= b {
        a
    } else {
        b
    }
}

/// The fraction reported after the first `k` chunks of a file of `total` bytes.
pub open spec fn chunk_report(total: u64, chunks: Seq<u64>, k: int) -> Fraction {
    Fraction { done: min(chunk_sum(chunks.take(k)), total as int) as u64, total }
}

/// Progress of one file copied chunk by chunk.
pub struct ChunkProgress {
    total: u64,
    transferred: u64,
}

impl ChunkProgress {
    pub closed spec fn total_spec(&self) -> u64 {
        self.total
    }

    pub closed spec fn transferred_spec(&self) -> u64 {
        self.transferred
    }

    /// The copy of a file of `total` bytes (0 when unknown) starts, and its
    /// first report, zero, is due.
    pub fn start(total: u64) -> (r: (ChunkProgress, Fraction))
        ensures
            r.0.total_spec() == total,
            r.0.transferred_spec() == 0,
            r.1 == Fraction::zero_spec(),
    {
        (ChunkProgress { total, transferred: 0 }, Fraction::zero())
    }

    /// `n` more bytes were written; the report due, if the size is known, is the
    /// share of bytes written so far, at most one.
    pub fn on_chunk(&mut self, n: u64) -> (r: Option<Fraction>)
        ensures
            final(self).total_spec() == old(self).total_spec(),
            final(self).transferred_spec() == min(
                old(self).transferred_spec() + n,
                u64::MAX as int,
            ),
            old(self).total_spec() == 0 ==> r is None,
            old(self).total_spec() > 0 ==> r == Some(
                Fraction {
                    done: min(final(self).transferred_spec() as int, old(self).total_spec() as int) as u64,
                    total: old(self).total_spec(),
                },
            ),
            r is Some ==> r->0.wf(),
    {
        if n > u64::MAX - self.transferred {
            self.transferred = u64::MAX;
        } else {
            self.transferred = self.transferred + n;
        }
        if self.total == 0 {
            None
        } else if self.transferred <= self.total {
            Some(Fraction::new(self.transferred, self.total))
        } else {
            Some(Fraction::new(self.total, self.total))
        }
    }

    /// The copy completed: the last report is one.
    pub fn finish(&self) -> (r: Fraction)
        ensures
            r.wf(),
            r.is_whole(),
            r == (Fraction { done: 1, total: 1 }),
    {
        Fraction::one()
    }
}

/// For chunks that add up to the declared size, the reports never go down
/// and the last one is exactly one.  The bytes that `ChunkProgress::on_chunk`
/// counts after `k` chunks are their sum, so the report it gives after each
/// chunk is `chunk_report` of the chunks so far.
pub proof fn lemma_chunk_reports_rise_to_one(total: u64, chunks: Seq<u64>)
    requires
        total > 0,
        chunk_sum(chunks) == total,
    ensures
        forall|k: int|
            0 <= k < chunks.len() ==> min(chunk_sum(#[trigger] chunks.take(k)) + chunks[k], u64::MAX as int)
                == chunk_sum(chunks.take(k + 1)),

        forall|a: int, b: int|
            0 <= a <= b <= chunks.len() ==> #[trigger] chunk_report(total, chunks, a).le(
                #[trigger] chunk_report(total, chunks, b),
            ),
        chunk_report(total, chunks, chunks.len() as int).is_whole(),
{
    assert forall|a: int, b: int| 0 <= a <= b <= chunks.len() implies #[trigger] chunk_report(
        total,
        chunks,
        a,
    ).le(#[trigger] chunk_report(total, chunks, b)) by {
        lemma_sum_monotone(chunks, a, b);
        let x = min(chunk_sum(chunks.take(a)), total as int);
        let y = min(chunk_sum(chunks.take(b)), total as int);
        assert(x <= y);
        lemma_sum_nonneg(chunks.take(a));
        assert(x * (total as int) <= y * (total as int)) by (nonlinear_arith)
            requires
                x <= y,
                total > 0,
        ;
    }
    assert(chunks.take(chunks.len() as int) == chunks);
    assert forall|k: int| 0 <= k < chunks.len() implies min(
        chunk_sum(#[trigger] chunks.take(k)) + chunks[k],
        u64::MAX as int,
    ) == chunk_sum(chunks.take(k + 1)) by {
        assert(chunks.take(k + 1).drop_last() == chunks.take(k));
        assert(chunks.take(k + 1).last() == chunks[k]);
        lemma_sum_monotone(chunks, k + 1, chunks.len() as int);
    }
}

proof fn lemma_sum_nonneg(chunks: Seq<u64>)
    ensures
        chunk_sum(chunks) >= 0,
    decreases chunks.len(),
{
    if chunks.len() > 0 {
        lemma_sum_nonneg(chunks.drop_last());
    }
}

proof fn lemma_sum_monotone(chunks: Seq<u64>, a: int, b: int)
    requires
        0 <= a <= b <= chunks.len(),
    ensures
        chunk_sum(chunks.take(a)) <= chunk_sum(chunks.take(b)),
    decreases b - a,
{
    if a < b {
        lemma_sum_monotone(chunks, a, b - 1);
        assert(chunks.take(b).drop_last() == chunks.take(b - 1));
    }
}

/// `a <= b <= c` as rational numbers gives `a <= c`.
pub proof fn lemma_fraction_le_trans(a: Fraction, b: Fraction, c: Fraction)
    requires
        a.wf(),
        b.wf(),
        c.wf(),
        a.le(b),
        b.le(c),
    ensures
        a.le(c),
{
    let (ad, at, bd, bt, cd, ct) = (
        a.done as int,
        a.total as int,
        b.done as int,
        b.total as int,
        c.done as int,
        c.total as int,
    );
    assert(ad * ct <= cd * at) by (nonlinear_arith)
        requires
            ad * bt <= bd * at,
            bd * ct <= cd * bt,
            at > 0,
            bt > 0,
            ct > 0,
            ad >= 0,
            bd >= 0,
            cd >= 0,
    ;
}

/// The progress shown for one task: a report lower than one already shown
/// is held back, so what is shown never goes down, and it ends at one.
pub struct ProgressFloor {
    last: Fraction,
}

impl ProgressFloor {
    /// The highest fraction shown so far.
    pub closed spec fn shown(&self) -> Fraction {
        self.last
    }

    /// Nothing shown but zero.
    pub fn new() -> (r: ProgressFloor)
        ensures
            r.shown() == Fraction::zero_spec(),
            r.shown().wf(),
    {
        ProgressFloor { last: Fraction::zero() }
    }

    /// `f` when it is at least every fraction shown so far, else `None`.
    pub fn report(&mut self, f: Fraction) -> (r: Option<Fraction>)
        requires
            old(self).shown().wf(),
            f.wf(),
        ensures
            final(self).shown().wf(),
            old(self).shown().le(f) ==> r == Some(f) && final(self).shown() == f,
            !old(self).shown().le(f) ==> r is None && final(self).shown() == old(self).shown(),
    {
        let (a, b, c, d) = (self.last.done as u128, f.total as u128, f.done as u128, self.last.total as u128);
        proof {
            assert(a * b <= u128::MAX) by (nonlinear_arith)
                requires
                    a <= u64::MAX,
                    b <= u64::MAX,
            ;
            assert(c * d <= u128::MAX) by (nonlinear_arith)
                requires
                    c <= u64::MAX,
                    d <= u64::MAX,
            ;
        }
        let lhs = a * b;
        let rhs = c * d;
        if lhs <= rhs {
            self.last = f;
            Some(f)
        } else {
            None
        }
    }

    /// The copy is done: one is shown.
    pub fn finish(&mut self) -> (r: Fraction)
        requires
            old(self).shown().wf(),
        ensures
            r == (Fraction { done: 1, total: 1 }),
            old(self).shown().le(r),
            final(self).shown() == r,
    {
        let r = Fraction::one();
        self.last = r;
        r
    }
}

proof fn lemma_min_cap(s: int, n: int)
    requires
        s >= 0,
        n >= 0,
    ensures
        min(min(s, u64::MAX as int) + n, u64::MAX as int) == min(s + n, u64::MAX as int),
{
}

proof fn lemma_reports_ordered(total: u64, chunks: Seq<u64>, r: Seq<Fraction>)
    requires
        total > 0,
        chunk_sum(chunks) == total,
        r.len() == chunks.len() + 2,
        r[0] == Fraction::zero_spec(),
        forall|k: int| 1 <= k <= chunks.len() ==> #[trigger] r[k] == chunk_report(total, chunks, k),
        r[chunks.len() as int + 1] == (Fraction { done: 1, total: 1 }),
        forall|k: int| 0 <= k < r.len() ==> (#[trigger] r[k]).wf(),
    ensures
        forall|a: int, b: int| 0 <= a <= b < r.len() ==> (#[trigger] r[a]).le(#[trigger] r[b]),
{
    lemma_chunk_reports_rise_to_one(total, chunks);
    let n = chunks.len() as int;
    assert forall|a: int, b: int| 0 <= a <= b < r.len() implies (#[trigger] r[a]).le(#[trigger] r[b]) by {
        let x = r[a];
        let y = r[b];
        assert(x.wf() && y.wf());
        if a == b {
        } else if b == n + 1 {
            assert(x.done * 1 <= 1 * x.total) by (nonlinear_arith)
                requires
                    x.done <= x.total,
            ;
        } else if a == 0 {
            assert(0 * y.total <= y.done * 1) by (nonlinear_arith)
                requires
                    y.done >= 0,
            ;
        } else {
            assert(chunk_report(total, chunks, a).le(chunk_report(total, chunks, b)));
        }
    }
}

/// The reports of a copy of `total` bytes written in chunks of the given
/// sizes: zero first, one per chunk when the size is known, then one.  When
/// the chunks add up to the size, the reports never go down.
pub fn progress_reports(total: u64, chunks: &Vec<u64>) -> (r: Vec<Fraction>)
    ensures
        total == 0 ==> r@ == seq![Fraction::zero_spec(), Fraction { done: 1, total: 1 }],
        total > 0 ==> r@.len() == chunks@.len() + 2,
        total > 0 ==> r@[0] == Fraction::zero_spec(),
        total > 0 ==> forall|k: int|
            1 <= k <= chunks@.len() ==> #[trigger] r@[k] == chunk_report(total, chunks@, k),
        r@.last() == (Fraction { done: 1, total: 1 }),
        forall|k: int| 0 <= k < r@.len() ==> (#[trigger] r@[k]).wf(),
        total > 0 && chunk_sum(chunks@) == total ==> forall|a: int, b: int|
            0 <= a <= b < r@.len() ==> (#[trigger] r@[a]).le(#[trigger] r@[b]),
{
    let (mut p, first) = ChunkProgress::start(total);
    let mut out: Vec<Fraction> = Vec::new();
    out.push(first);
    let mut i: usize = 0;
    while i < chunks.len()
        invariant
            i <= chunks@.len(),
            p.total_spec() == total,
            p.transferred_spec() == min(chunk_sum(chunks@.take(i as int)), u64::MAX as int),
            total == 0 ==> out@ == seq![Fraction::zero_spec()],
            total > 0 ==> out@.len() == i + 1,
            out@[0] == Fraction::zero_spec(),
            total > 0 ==> forall|k: int| 1 <= k <= i ==> #[trigger] out@[k] == chunk_report(total, chunks@, k),
            forall|k: int| 0 <= k < out@.len() ==> (#[trigger] out@[k]).wf(),
        decreases chunks@.len() - i,
    {
        proof {
            assert(chunks@.take(i as int + 1).drop_last() == chunks@.take(i as int));
            assert(chunks@.take(i as int + 1).last() == chunks@[i as int]);
            lemma_sum_nonneg(chunks@.take(i as int));
            lemma_min_cap(chunk_sum(chunks@.take(i as int)), chunks@[i as int] as int);
        }
        let r = p.on_chunk(chunks[i]);
        if let Some(f) = r {
            out.push(f);
        }
        proof {
            lemma_sum_nonneg(chunks@.take(i as int + 1));
            if total > 0 {
                assert(min(min(chunk_sum(chunks@.take(i as int + 1)), u64::MAX as int), total as int) == min(
                    chunk_sum(chunks@.take(i as int + 1)),
                    total as int,
                ));
            }
        }
        i = i + 1;
    }
    let ghost before = out@;
    let last = p.finish();
    out.push(last);
    proof {
        assert(out@ == before.push(last));
        assert(out@.last() == last);
        if total == 0 {
            assert(out@ =~= seq![Fraction::zero_spec(), Fraction { done: 1, total: 1 }]);
        }
        assert forall|k: int| 0 <= k < before.len() implies out@[k] == before[k] by {}
        assert(chunks@.take(chunks@.len() as int) == chunks@);
        if total > 0 && chunk_sum(chunks@) == total {
            lemma_reports_ordered(total, chunks@, out@);
        }
    }
    out
}

} // verus!
