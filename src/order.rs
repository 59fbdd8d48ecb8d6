use vstd::prelude::*;

use crate::listing::RemoteEntry;

verus! {

/// What `str::to_lowercase` returns for `s`: it depends on the characters alone.
pub uninterp spec fn lower_of(s: Seq<char>) -> Seq<char>;

/// Relies on str::to_lowercase: the lowercase form of each character, by Unicode's tables.
#[verifier::external_body]
fn lowercase(s: &str) -> (r: String)
    ensures
        r@ == lower_of(s@),
{
    s.to_lowercase()
}

/// `a` comes before `b` in character order, as `str`'s `<` compares.
pub open spec fn text_lt(a: Seq<char>, b: Seq<char>) -> bool
    decreases a.len(),
{
    if a.len() == 0 {
        b.len() > 0
    } else if b.len() == 0 {
        false
    } else if a[0] != b[0] {
        a[0] < b[0]
    } else {
        text_lt(a.drop_first(), b.drop_first())
    }
}

proof fn lemma_text_lt_total(a: Seq<char>, b: Seq<char>)
    ensures
        a != b ==> (text_lt(a, b) || text_lt(b, a)),
        !(text_lt(a, b) && text_lt(b, a)),
        !text_lt(a, a),
    decreases a.len(),
{
    if a.len() > 0 {
        lemma_text_lt_total(a.drop_first(), a.drop_first());
    }
    if a.len() > 0 && b.len() > 0 {
        lemma_text_lt_total(a.drop_first(), b.drop_first());
        if a[0] != b[0] {
            assert(a[0] < b[0] || b[0] < a[0]) by {
                let x = a[0];
                let y = b[0];
                assert(x as int != y as int);
            }
        } else if a != b {
            assert(a.drop_first() != b.drop_first()) by {
                if a.drop_first() == b.drop_first() {
                    assert(a =~= seq![a[0]] + a.drop_first());
                    assert(b =~= seq![b[0]] + b.drop_first());
                }
            }
            assert(text_lt(a, b) == text_lt(a.drop_first(), b.drop_first()));
            assert(text_lt(b, a) == text_lt(b.drop_first(), a.drop_first()));
        }
    } else if a.len() == 0 && b.len() == 0 {
        assert(a =~= b);
    }
}

proof fn lemma_text_lt_trans(a: Seq<char>, b: Seq<char>, c: Seq<char>)
    requires
        text_lt(a, b),
        text_lt(b, c),
    ensures
        text_lt(a, c),
    decreases a.len(),
{
    if a.len() > 0 && b.len() > 0 && c.len() > 0 {
        if a[0] == b[0] && b[0] == c[0] {
            lemma_text_lt_trans(a.drop_first(), b.drop_first(), c.drop_first());
        }
    }
}

/// Entry `i` comes before entry `j` in a listing: directories first, then by
/// key, then in the order given.
pub open spec fn listed_before(dirs: Seq<bool>, keys: Seq<Seq<char>>, i: int, j: int) -> bool {
    if dirs[i] != dirs[j] {
        dirs[i]
    } else if keys[i] != keys[j] {
        text_lt(keys[i], keys[j])
    } else {
        i < j
    }
}

proof fn lemma_before_total(dirs: Seq<bool>, keys: Seq<Seq<char>>, i: int, j: int)
    ensures
        i != j ==> (listed_before(dirs, keys, i, j) || listed_before(dirs, keys, j, i)),
        !(listed_before(dirs, keys, i, j) && listed_before(dirs, keys, j, i)),
{
    lemma_text_lt_total(keys[i], keys[j]);
}

proof fn lemma_before_trans(dirs: Seq<bool>, keys: Seq<Seq<char>>, i: int, j: int, k: int)
    requires
        listed_before(dirs, keys, i, j),
        listed_before(dirs, keys, j, k),
    ensures
        listed_before(dirs, keys, i, k),
{
    lemma_text_lt_total(keys[i], keys[j]);
    lemma_text_lt_total(keys[j], keys[k]);
    lemma_text_lt_total(keys[i], keys[k]);
    if dirs[i] == dirs[j] && dirs[j] == dirs[k] && keys[i] != keys[j] && keys[j] != keys[k] {
        lemma_text_lt_trans(keys[i], keys[j], keys[k]);
    }
}

pub open spec fn dir_flags(entries: Seq<RemoteEntry>) -> Seq<bool> {
    entries.map_values(|e: RemoteEntry| e.is_dir)
}

pub open spec fn key_texts(keys: Seq<String>) -> Seq<Seq<char>> {
    keys.map_values(|k: String| k@)
}

pub open spec fn lower_names(entries: Seq<RemoteEntry>) -> Seq<Seq<char>> {
    entries.map_values(|e: RemoteEntry| lower_of(e.name@))
}

/// `order` lists each of `0..n` once, in listing order.
pub open spec fn listing_order(dirs: Seq<bool>, keys: Seq<Seq<char>>, order: Seq<int>, n: int) -> bool {
    &&& order.len() == n
    &&& forall|k: int| 0 <= k < n ==> 0 <= #[trigger] order[k] < n
    &&& forall|a: int, b: int|
        0 <= a < b < n ==> listed_before(dirs, keys, #[trigger] order[a], #[trigger] order[b])
}

fn text_less(a: &str, b: &str) -> (r: bool)
    ensures
        r == text_lt(a@, b@),
{
    let x = crate::text::chars_of(a);
    let y = crate::text::chars_of(b);
    let mut i: usize = 0;
    assert(x@.skip(0) == x@ && y@.skip(0) == y@);
    while i < x.len() && i < y.len()
        invariant
            i <= x@.len(),
            i <= y@.len(),
            x@ == a@,
            y@ == b@,
            text_lt(a@, b@) == text_lt(x@.skip(i as int), y@.skip(i as int)),
        decreases x@.len() - i,
    {
        if x[i] != y[i] {
            return x[i] < y[i];
        }
        assert(x@.skip(i as int).drop_first() == x@.skip(i as int + 1));
        assert(y@.skip(i as int).drop_first() == y@.skip(i as int + 1));
        i = i + 1;
    }
    i == x.len() && i < y.len()
}

fn before(entries: &Vec<RemoteEntry>, keys: &Vec<String>, i: usize, j: usize) -> (r: bool)
    requires
        i < entries@.len(),
        j < entries@.len(),
        keys@.len() == entries@.len(),
    ensures
        r == listed_before(dir_flags(entries@), key_texts(keys@), i as int, j as int),
{
    if entries[i].is_dir != entries[j].is_dir {
        entries[i].is_dir
    } else if !crate::text::same_text(keys[i].as_str(), keys[j].as_str()) {
        text_less(keys[i].as_str(), keys[j].as_str())
    } else {
        i < j
    }
}

/// The entries in listing order by the given keys: directories first, then
/// by key, entries of equal rank in the order given.
pub fn sort_by_keys(entries: Vec<RemoteEntry>, keys: &Vec<String>) -> (r: Vec<RemoteEntry>)
    requires
        keys@.len() == entries@.len(),
    ensures
        r@.len() == entries@.len(),
        exists|order: Seq<int>|
            #[trigger] listing_order(
                dir_flags(entries@),
                key_texts(keys@),
                order,
                entries@.len() as int,
            ) && forall|k: int| 0 <= k < r@.len() ==> #[trigger] r@[k] == entries@[order[k]],
{
    let ghost dirs = dir_flags(entries@);
    let ghost ks = key_texts(keys@);
    let n = entries.len();
    let mut order: Vec<usize> = Vec::new();
    let mut i: usize = 0;
    while i < n
        invariant
            n == entries@.len(),
            n == keys@.len(),
            dirs == dir_flags(entries@),
            ks == key_texts(keys@),
            i <= n,
            order@.len() == i,
            forall|k: int| 0 <= k < i ==> #[trigger] order@[k] < i,
            forall|a: int, b: int|
                0 <= a < b < i ==> listed_before(dirs, ks, #[trigger] order@[a] as int, #[trigger] order@[b] as int),
        decreases n - i,
    {
        let mut pos: usize = 0;
        while pos < order.len() && before(&entries, keys, order[pos], i)
            invariant
                n == entries@.len(),
                n == keys@.len(),
                dirs == dir_flags(entries@),
                ks == key_texts(keys@),
                i < n,
                order@.len() == i,
                pos <= i,
                forall|k: int| 0 <= k < i ==> #[trigger] order@[k] < i,
                forall|k: int| 0 <= k < pos ==> listed_before(dirs, ks, #[trigger] order@[k] as int, i as int),
            decreases i - pos,
        {
            pos = pos + 1;
        }
        proof {
            if pos < i {
                lemma_before_total(dirs, ks, order@[pos as int] as int, i as int);
                assert forall|k: int| pos <= k < i implies listed_before(dirs, ks, i as int, #[trigger] order@[k] as int) by {
                    if k > pos {
                        lemma_before_trans(dirs, ks, i as int, order@[pos as int] as int, order@[k] as int);
                    }
                }
            }
        }
        let ghost old_order = order@;
        order.insert(pos, i);
        proof {
            assert forall|a: int, b: int| 0 <= a < b < i + 1 implies listed_before(
                dirs,
                ks,
                #[trigger] order@[a] as int,
                #[trigger] order@[b] as int,
            ) by {
                if b < pos {
                    assert(order@[a] == old_order[a] && order@[b] == old_order[b]);
                } else if b == pos {
                    assert(order@[a] == old_order[a]);
                } else if a < pos {
                    assert(order@[a] == old_order[a] && order@[b] == old_order[b - 1]);
                } else if a == pos {
                    assert(order@[b] == old_order[b - 1]);
                } else {
                    assert(order@[a] == old_order[a - 1] && order@[b] == old_order[b - 1]);
                }
            }
            assert forall|k: int| 0 <= k < i + 1 implies #[trigger] order@[k] < i + 1 by {
                if k < pos {
                    assert(order@[k] == old_order[k]);
                } else if k > pos {
                    assert(order@[k] == old_order[k - 1]);
                }
            }
        }
        i = i + 1;
    }
    let mut out: Vec<RemoteEntry> = Vec::new();
    let mut k: usize = 0;
    while k < n
        invariant
            n == entries@.len(),
            order@.len() == n,
            forall|j: int| 0 <= j < n ==> #[trigger] order@[j] < n,
            k <= n,
            out@.len() == k,
            forall|j: int| 0 <= j < k ==> #[trigger] out@[j] == entries@[order@[j] as int],
        decreases n - k,
    {
        out.push(entries[order[k]].clone_entry());
        k = k + 1;
    }
    let ghost ord = order@.map_values(|x: usize| x as int);
    proof {
        assert(listing_order(dirs, ks, ord, n as int));
        assert forall|j: int| 0 <= j < out@.len() implies #[trigger] out@[j] == entries@[ord[j]] by {}
    }
    out
}

/// A remote listing in display order: directories first, then by name
/// without regard to case, entries of equal rank in the order given.
pub fn sort_listing(entries: Vec<RemoteEntry>) -> (r: Vec<RemoteEntry>)
    ensures
        r@.len() == entries@.len(),
        exists|order: Seq<int>|
            #[trigger] listing_order(
                dir_flags(entries@),
                lower_names(entries@),
                order,
                entries@.len() as int,
            ) && forall|k: int| 0 <= k < r@.len() ==> #[trigger] r@[k] == entries@[order[k]],
{
    let mut keys: Vec<String> = Vec::new();
    let mut i: usize = 0;
    while i < entries.len()
        invariant
            i <= entries@.len(),
            key_texts(keys@) == lower_names(entries@.take(i as int)),
        decreases entries@.len() - i,
    {
        let ghost before = keys@;
        let k = lowercase(entries[i].name.as_str());
        keys.push(k);
        proof {
            assert(entries@.take(i as int + 1) == entries@.take(i as int).push(entries@[i as int]));
            assert(keys@ == before.push(k));
            assert(key_texts(keys@) =~= key_texts(before).push(k@));
            assert(lower_names(entries@.take(i as int + 1)) =~= lower_names(entries@.take(i as int)).push(
                lower_of(entries@[i as int].name@),
            ));
        }
        i = i + 1;
    }
    proof {
        assert(entries@.take(entries@.len() as int) == entries@);
    }
    let r = sort_by_keys(entries, &keys);
    r
}

} // verus!
