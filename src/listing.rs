use vstd::prelude::*;
use vstd::string::*;

use crate::text::{chars_of, is_space, push_char, same_text, space};

verus! {

/// One entry of a remote directory.
#[derive(Debug, Clone)]
pub struct RemoteEntry {
    pub name: String,
    pub is_dir: bool,
    pub size: u64,
    /// `YYYY-MM-DD HH:MM`, or empty when unknown.
    pub modified: String,
}

impl RemoteEntry {
    /// A duplicate of the entry.
    pub fn clone_entry(&self) -> (r: RemoteEntry)
        ensures
            r == *self,
    {
        RemoteEntry { name: self.name.clone(), is_dir: self.is_dir, size: self.size, modified: self.modified.clone() }
    }
}

impl View for RemoteEntry {
    type V = (Seq<char>, bool, u64, Seq<char>);

    open spec fn view(&self) -> (Seq<char>, bool, u64, Seq<char>) {
        (self.name@, self.is_dir, self.size, self.modified@)
    }
}

/// Splitting at `'\n'`: the finished lines and the line still open.
pub open spec fn line_split(s: Seq<char>) -> (Seq<Seq<char>>, Seq<char>)
    decreases s.len(),
{
    if s.len() == 0 {
        (Seq::empty(), Seq::empty())
    } else {
        let (done, cur) = line_split(s.drop_last());
        if s.last() == '\n' {
            (done.push(cur), Seq::empty())
        } else {
            (done, cur.push(s.last()))
        }
    }
}

/// The pieces of `s` between line feeds.
pub open spec fn lines_of(s: Seq<char>) -> Seq<Seq<char>> {
    line_split(s).0.push(line_split(s).1)
}

/// Splitting at white space: the finished words and the word still open.
pub open spec fn word_split(s: Seq<char>) -> (Seq<Seq<char>>, Seq<char>)
    decreases s.len(),
{
    if s.len() == 0 {
        (Seq::empty(), Seq::empty())
    } else {
        let (done, cur) = word_split(s.drop_last());
        if is_space(s.last()) {
            if cur.len() > 0 {
                (done.push(cur), Seq::empty())
            } else {
                (done, Seq::empty())
            }
        } else {
            (done, cur.push(s.last()))
        }
    }
}

/// The maximal runs of non-white-space characters of `s`.
pub open spec fn words_of(s: Seq<char>) -> Seq<Seq<char>> {
    let (done, cur) = word_split(s);
    if cur.len() > 0 {
        done.push(cur)
    } else {
        done
    }
}

/// The words joined with single spaces.
pub open spec fn join_words(ws: Seq<Seq<char>>) -> Seq<char>
    decreases ws.len(),
{
    if ws.len() == 0 {
        Seq::empty()
    } else if ws.len() == 1 {
        ws[0]
    } else {
        join_words(ws.drop_last()) + seq![' '] + ws.last()
    }
}

pub open spec fn is_digit(c: char) -> bool {
    '0' <= c <= '9'
}

/// The number that the decimal digits `s` write.
pub open spec fn digits_value(s: Seq<char>) -> int
    decreases s.len(),
{
    if s.len() == 0 {
        0
    } else {
        digits_value(s.drop_last()) * 10 + (s.last() as int - '0' as int)
    }
}

/// A decimal `u64` as `str::parse` reads it: an optional `+`, then one or
/// more digits, of a value that fits.
pub open spec fn parse_u64_spec(s: Seq<char>) -> Option<u64> {
    let d = unsigned_part(s);
    if d.len() > 0 && all_digits(d) && digits_value(d) <= u64::MAX {
        Some(digits_value(d) as u64)
    } else {
        None
    }
}

/// `s` without a leading `+`.
pub open spec fn unsigned_part(s: Seq<char>) -> Seq<char> {
    if s.len() > 0 && s[0] == '+' {
        s.drop_first()
    } else {
        s
    }
}

pub open spec fn all_digits(d: Seq<char>) -> bool {
    forall|i: int| 0 <= i < d.len() ==> is_digit(#[trigger] d[i])
}

/// The entry that one line of `ls -la --time-style=long-iso` describes:
/// permissions, links, owner, group, size, date, time, then the name, which
/// may hold spaces.  Short lines, the `total` line and `.` and `..` give none.
pub open spec fn entry_of_line(line: Seq<char>) -> Option<(Seq<char>, bool, u64, Seq<char>)> {
    let p = words_of(line);
    if p.len() < 8 || p[0] == "total"@ {
        None
    } else {
        let name = join_words(p.skip(7));
        if name == "."@ || name == ".."@ {
            None
        } else {
            Some(
                (
                    name,
                    p[0][0] == 'd',
                    match parse_u64_spec(p[4]) {
                        Some(v) => v,
                        None => 0,
                    },
                    p[5] + seq![' '] + p[6],
                ),
            )
        }
    }
}

/// The entries that the lines describe, in order.
pub open spec fn entries_of_lines(ls: Seq<Seq<char>>) -> Seq<(Seq<char>, bool, u64, Seq<char>)>
    decreases ls.len(),
{
    if ls.len() == 0 {
        Seq::empty()
    } else {
        let rest = entries_of_lines(ls.drop_last());
        match entry_of_line(ls.last()) {
            Some(e) => rest.push(e),
            None => rest,
        }
    }
}

/// The entries that a long listing describes.
pub open spec fn ls_entries(out: Seq<char>) -> Seq<(Seq<char>, bool, u64, Seq<char>)> {
    entries_of_lines(lines_of(out))
}

/// The words of `cs[start..end]`.
fn words_in(cs: &Vec<char>, start: usize, end: usize) -> (r: Vec<String>)
    requires
        start <= end <= cs@.len(),
    ensures
        r@.map_values(|w: String| w@) == words_of(cs@.subrange(start as int, end as int)),
{
    let mut done: Vec<String> = Vec::new();
    let mut cur = String::new();
    let mut i: usize = start;
    while i < end
        invariant
            start <= i <= end <= cs@.len(),
            (done@.map_values(|w: String| w@), cur@) == word_split(cs@.subrange(start as int, i as int)),
        decreases end - i,
    {
        let c = cs[i];
        proof {
            let s = cs@.subrange(start as int, i as int + 1);
            assert(s.drop_last() == cs@.subrange(start as int, i as int));
            assert(s.last() == c);
        }
        if space(c) {
            if cur.unicode_len() > 0 {
                let ghost d0 = done@.map_values(|w: String| w@);
                let w = cur;
                cur = String::new();
                done.push(w);
                proof {
                    assert(done@.map_values(|w: String| w@) =~= d0.push(w@));
                }
            } else {
                cur = String::new();
            }
        } else {
            push_char(&mut cur, c);
        }
        i = i + 1;
    }
    if cur.unicode_len() > 0 {
        let ghost d0 = done@.map_values(|w: String| w@);
        let ghost cv = cur@;
        done.push(cur);
        proof {
            assert(done@.map_values(|w: String| w@) =~= d0.push(cv));
        }
    }
    done
}

/// Reads a decimal `u64` as `str::parse` does.
pub fn parse_u64(s: &str) -> (r: Option<u64>)
    ensures
        r == parse_u64_spec(s@),
{
    let cs = chars_of(s);
    let n = cs.len();
    let mut i: usize = 0;
    if n > 0 && cs[0] == '+' {
        i = 1;
    }
    let ghost d = cs@.subrange(i as int, n as int);
    proof {
        if n > 0 && cs@[0] == '+' {
            assert(d == s@.drop_first());
        } else {
            assert(d == s@);
        }
    }
    if i == n {
        return None;
    }
    let start = i;
    let mut v: u64 = 0;
    while i < n
        invariant
            start <= i <= n == cs@.len(),
            d == cs@.subrange(start as int, n as int),
            d == unsigned_part(s@),
            cs@ == s@,
            v as int == digits_value(cs@.subrange(start as int, i as int)),
            forall|j: int| start <= j < i ==> is_digit(#[trigger] cs@[j]),
        decreases n - i,
    {
        let c = cs[i];
        proof {
            let p = cs@.subrange(start as int, i as int + 1);
            assert(p.drop_last() == cs@.subrange(start as int, i as int));
        }
        if !('0' <= c && c <= '9') {
            proof {
                assert(!is_digit(d[i - start]));
                assert(!all_digits(d));
            }
            return None;
        }
        let digit = (c as u32 - '0' as u32) as u64;
        if v > (u64::MAX - digit) / 10 {
            proof {
                let p = cs@.subrange(start as int, i as int + 1);
                assert(d.subrange(0, i - start + 1) == p);
                assert forall|j: int| 0 <= j < i - start + 1 implies is_digit(#[trigger] d[j]) by {
                    assert(d[j] == cs@[start + j]);
                }
                lemma_digits_value_grows(d, i - start + 1);
                assert(digits_value(p) == digits_value(p.drop_last()) * 10 + (p.last() as int - '0' as int));
                assert(p.last() == c);
                assert(digit as int == c as int - '0' as int);
                assert(v * 10 + digit > u64::MAX) by (nonlinear_arith)
                    requires
                        v > (u64::MAX - digit) / 10,
                        digit <= 9,
                ;
                assert(digits_value(p) > u64::MAX);
                if all_digits(d) {
                    assert(digits_value(d) > u64::MAX);
                }
            }
            return None;
        }
        v = v * 10 + digit;
        i = i + 1;
    }
    proof {
        assert(cs@.subrange(start as int, n as int) == d);
        assert forall|j: int| 0 <= j < d.len() implies is_digit(#[trigger] d[j]) by {
            assert(d[j] == cs@[start + j]);
        }
    }
    Some(v)
}

/// The value of a run of digits never falls as digits are added.
proof fn lemma_digits_value_grows(d: Seq<char>, k: int)
    requires
        0 <= k <= d.len(),
        forall|j: int| 0 <= j < k ==> is_digit(#[trigger] d[j]),
    ensures
        digits_value(d.subrange(0, k)) <= digits_value(d) || exists|j: int|
            k <= j < d.len() && !is_digit(#[trigger] d[j]),
    decreases d.len() - k,
{
    if k < d.len() {
        if forall|j: int| k <= j < d.len() ==> is_digit(#[trigger] d[j]) {
            lemma_digits_prefix_le(d, k);
        }
    }
    else {
        assert(d.subrange(0, k) == d);
    }
}

proof fn lemma_digits_prefix_le(d: Seq<char>, k: int)
    requires
        0 <= k <= d.len(),
        forall|j: int| 0 <= j < d.len() ==> is_digit(#[trigger] d[j]),
    ensures
        digits_value(d.subrange(0, k)) <= digits_value(d),
    decreases d.len() - k,
{
    if k < d.len() {
        lemma_digits_nonneg(d.drop_last());
        let e = d.drop_last();
        assert forall|j: int| 0 <= j < e.len() implies is_digit(#[trigger] e[j]) by {
            assert(e[j] == d[j]);
        }
        lemma_digits_prefix_le(e, k);
        assert(e.subrange(0, k) == d.subrange(0, k));
        assert(is_digit(d[d.len() - 1]));
    } else {
        assert(d.subrange(0, k) == d);
    }
}

proof fn lemma_digits_nonneg(d: Seq<char>)
    requires
        forall|j: int| 0 <= j < d.len() ==> is_digit(#[trigger] d[j]),
    ensures
        digits_value(d) >= 0,
    decreases d.len(),
{
    if d.len() > 0 {
        let e = d.drop_last();
        assert forall|j: int| 0 <= j < e.len() implies is_digit(#[trigger] e[j]) by {
            assert(e[j] == d[j]);
        }
        lemma_digits_nonneg(e);
        assert(is_digit(d[d.len() - 1]));
    }
}

proof fn lemma_word_split_nonempty(s: Seq<char>)
    ensures
        forall|i: int| 0 <= i < word_split(s).0.len() ==> #[trigger] word_split(s).0[i].len() > 0,
    decreases s.len(),
{
    if s.len() > 0 {
        lemma_word_split_nonempty(s.drop_last());
        let (done, cur) = word_split(s.drop_last());
        assert forall|i: int| 0 <= i < word_split(s).0.len() implies #[trigger] word_split(s).0[i].len()
            > 0 by {
            if i < done.len() {
                assert(word_split(s).0[i] == done[i]);
            }
        }
    }
}

/// Every word holds at least one character.
proof fn lemma_words_nonempty(s: Seq<char>)
    ensures
        forall|i: int| 0 <= i < words_of(s).len() ==> #[trigger] words_of(s)[i].len() > 0,
{
    lemma_word_split_nonempty(s);
}

/// The words of `ws` from `k` on, joined with single spaces.
fn join_from(ws: &Vec<String>, k: usize) -> (r: String)
    requires
        k <= ws@.len(),
    ensures
        r@ == join_words(ws@.map_values(|w: String| w@).skip(k as int)),
{
    let ghost v = ws@.map_values(|w: String| w@);
    let mut out = String::new();
    let mut i: usize = k;
    while i < ws.len()
        invariant
            k <= i <= ws@.len(),
            v == ws@.map_values(|w: String| w@),
            out@ == join_words(v.subrange(k as int, i as int)),
        decreases ws@.len() - i,
    {
        proof {
            let t = v.subrange(k as int, i as int + 1);
            assert(t.drop_last() == v.subrange(k as int, i as int));
            assert(t.last() == ws@[i as int]@);
            if i == k {
                assert(v.subrange(k as int, i as int).len() == 0);
            }
        }
        if i > k {
            out.append(" ");
            proof {
                reveal_strlit(" ");
            }
        }
        out.append(ws[i].as_str());
        i = i + 1;
    }
    proof {
        assert(v.subrange(k as int, ws@.len() as int) == v.skip(k as int));
    }
    out
}

/// The entry that the line `cs[start..end]` describes, if any.
fn entry_in(cs: &Vec<char>, start: usize, end: usize) -> (r: Option<RemoteEntry>)
    requires
        start <= end <= cs@.len(),
    ensures
        match entry_of_line(cs@.subrange(start as int, end as int)) {
            Some(e) => r is Some && r->0@ == e,
            None => r is None,
        },
{
    let ghost line = cs@.subrange(start as int, end as int);
    let p = words_in(cs, start, end);
    let ghost pv = p@.map_values(|w: String| w@);
    proof {
        reveal_strlit("total");
        reveal_strlit(".");
        reveal_strlit("..");
        lemma_words_nonempty(line);
    }
    if p.len() < 8 {
        return None;
    }
    assert(pv[0] == p@[0]@);
    if same_text(p[0].as_str(), "total") {
        return None;
    }
    let name = join_from(&p, 7);
    if same_text(name.as_str(), ".") || same_text(name.as_str(), "..") {
        return None;
    }
    assert(p@[0]@.len() > 0);
    let is_dir = p[0].as_str().get_char(0) == 'd';
    let size = match parse_u64(p[4].as_str()) {
        Some(v) => v,
        None => 0,
    };
    let mut modified = p[5].clone();
    modified.append(" ");
    modified.append(p[6].as_str());
    proof {
        reveal_strlit(" ");
        assert(pv[4] == p@[4]@);
        assert(pv[5] == p@[5]@);
        assert(pv[6] == p@[6]@);
    }
    Some(RemoteEntry { name, is_dir, size, modified })
}

/// The entries that the output of `ls -la --time-style=long-iso` describes,
/// in the order of its lines.
pub fn parse_ls_output(output: &str) -> (r: Vec<RemoteEntry>)
    ensures
        r@.map_values(|e: RemoteEntry| e@) == ls_entries(output@),
{
    let cs = chars_of(output);
    let n = cs.len();
    let mut out: Vec<RemoteEntry> = Vec::new();
    let mut line_start: usize = 0;
    let mut i: usize = 0;
    while i < n
        invariant
            n == cs@.len(),
            cs@ == output@,
            line_start <= i <= n,
            line_split(cs@.take(i as int)).1 == cs@.subrange(line_start as int, i as int),
            out@.map_values(|e: RemoteEntry| e@) == entries_of_lines(line_split(cs@.take(i as int)).0),
        decreases n - i,
    {
        proof {
            let t = cs@.take(i as int + 1);
            assert(t.drop_last() == cs@.take(i as int));
            assert(t.last() == cs@[i as int]);
        }
        if cs[i] == '\n' {
            let ghost before = out@.map_values(|e: RemoteEntry| e@);
            let e = entry_in(&cs, line_start, i);
            proof {
                let done = line_split(cs@.take(i as int)).0;
                let cur = line_split(cs@.take(i as int)).1;
                assert(done.push(cur).drop_last() == done);
                assert(done.push(cur).last() == cur);
            }
            match e {
                Some(en) => {
                    out.push(en);
                    proof {
                        assert(out@.map_values(|e: RemoteEntry| e@) =~= before.push(en@));
                    }
                },
                None => {},
            }
            line_start = i + 1;
            proof {
                assert(cs@.subrange(line_start as int, i as int + 1) =~= Seq::<char>::empty());
            }
        } else {
            proof {
                assert(cs@.subrange(line_start as int, i as int + 1) =~= cs@.subrange(
                    line_start as int,
                    i as int,
                ).push(cs@[i as int]));
            }
        }
        i = i + 1;
    }
    let ghost before = out@.map_values(|e: RemoteEntry| e@);
    let e = entry_in(&cs, line_start, n);
    proof {
        assert(cs@.take(n as int) == cs@);
        let done = line_split(cs@).0;
        let cur = line_split(cs@).1;
        assert(done.push(cur).drop_last() == done);
        assert(done.push(cur).last() == cur);
    }
    match e {
        Some(en) => {
            out.push(en);
            proof {
                assert(out@.map_values(|e: RemoteEntry| e@) =~= before.push(en@));
            }
        },
        None => {},
    }
    out
}

/// `.` or `..`: the entries a listing leaves out.
pub open spec fn is_dot_name(name: Seq<char>) -> bool {
    name == "."@ || name == ".."@
}

/// The entries whose names are not `.` or `..`, in order.
pub open spec fn without_dots(es: Seq<RemoteEntry>) -> Seq<RemoteEntry>
    decreases es.len(),
{
    if es.len() == 0 {
        Seq::empty()
    } else {
        let rest = without_dots(es.drop_last());
        if is_dot_name(es.last().name@) {
            rest
        } else {
            rest.push(es.last())
        }
    }
}

/// Leaves `.` and `..` out of a directory listing; the rest keep their order.
pub fn drop_dot_entries(entries: Vec<RemoteEntry>) -> (r: Vec<RemoteEntry>)
    ensures
        r@ == without_dots(entries@),
{
    proof {
        reveal_strlit(".");
        reveal_strlit("..");
    }
    let mut out: Vec<RemoteEntry> = Vec::new();
    let mut i: usize = 0;
    while i < entries.len()
        invariant
            i <= entries@.len(),
            out@ == without_dots(entries@.take(i as int)),
        decreases entries@.len() - i,
    {
        proof {
            assert(entries@.take(i as int + 1).drop_last() == entries@.take(i as int));
            assert(entries@.take(i as int + 1).last() == entries@[i as int]);
        }
        let e = &entries[i];
        if !(same_text(e.name.as_str(), ".") || same_text(e.name.as_str(), "..")) {
            out.push(e.clone_entry());
        }
        i = i + 1;
    }
    proof {
        assert(entries@.take(entries@.len() as int) == entries@);
    }
    out
}

} // verus!
