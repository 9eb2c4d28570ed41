//! Caches of private account events: their keys, and which entries to drop
//! when a cache grows past its limit.
use vstd::prelude::*;

use crate::refs::{
    compare_text, lemma_text_lt_asymmetric, lemma_text_lt_irreflexive, lemma_text_lt_total,
    lemma_text_lt_transitive, text_lt, TextOrder,
};
use crate::text::{
    append_str, ascii_lower, ascii_upper, chars_of, owned, push_char, str_eq, trim_owned, trim_upper,
    trimmed, upper_of,
};

verus! {

/// The cache key of a private order: its order id (upper-cased) when it has
/// one, else its client order id.
pub open spec fn order_key(prefix: Seq<char>, alt_prefix: Seq<char>, id: Option<Seq<char>>, client_id: Option<Seq<char>>) -> Option<Seq<char>> {
    match id {
        Some(i) if i.len() > 0 => Some(prefix + ascii_upper(i)),
        _ => match client_id {
            Some(c) if c.len() > 0 => Some(alt_prefix + c),
            _ => None,
        },
    }
}

pub open spec fn opt_view(o: Option<String>) -> Option<Seq<char>> {
    match o {
        Some(s) => Some(s@),
        None => None,
    }
}

fn keyed(prefix: &str, alt_prefix: &str, id: Option<String>, client_id: Option<String>) -> (out: Option<String>)
    ensures
        opt_view(out) == order_key(prefix@, alt_prefix@, opt_view(id), opt_view(client_id)),
{
    if let Some(i) = id {
        let cs = chars_of(i.as_str());
        if cs.len() > 0 {
            let mut out = owned(prefix);
            append_str(&mut out, upper_of(&cs, 0, cs.len()).as_str());
            assert(cs@.subrange(0, cs@.len() as int) =~= cs@);
            return Some(out);
        }
    }
    if let Some(c) = client_id {
        let cs = chars_of(c.as_str());
        if cs.len() > 0 {
            let mut out = owned(alt_prefix);
            append_str(&mut out, c.as_str());
            return Some(out);
        }
    }
    None
}

/// `ord:<ORD_ID>`, or `cl:<cl_ord_id>` when the order id is missing or empty.
pub fn private_order_cache_key(ord_id: Option<String>, cl_ord_id: Option<String>) -> (out: Option<String>)
    ensures
        opt_view(out) == order_key("ord:"@, "cl:"@, opt_view(ord_id), opt_view(cl_ord_id)),
{
    keyed("ord:", "cl:", ord_id, cl_ord_id)
}

/// `algo:<ALGO_ID>`, or `algo_cl:<algo_cl_ord_id>` when the algo id is
/// missing or empty.
pub fn private_algo_order_cache_key(algo_id: Option<String>, algo_cl_ord_id: Option<String>) -> (out: Option<String>)
    ensures
        opt_view(out) == order_key("algo:"@, "algo_cl:"@, opt_view(algo_id), opt_view(algo_cl_ord_id)),
{
    keyed("algo:", "algo_cl:", algo_id, algo_cl_ord_id)
}

/// The cache key of a position: `INST_ID|pos_side`.
pub fn private_position_cache_key(inst_id: &str, pos_side: &str) -> (out: String)
    ensures
        out@ == ascii_upper(inst_id@) + seq!['|'] + ascii_lower(pos_side@),
{
    let a = chars_of(inst_id);
    let b = chars_of(pos_side);
    let mut out = crate::text::upper_of(&a, 0, a.len());
    push_char(&mut out, '|');
    append_str(&mut out, crate::text::lower_of(&b, 0, b.len()).as_str());
    assert(a@.subrange(0, a@.len() as int) =~= a@);
    assert(b@.subrange(0, b@.len() as int) =~= b@);
    out
}

/// An order's age for pruning: its update time, else its creation time,
/// else 0.
pub fn private_order_cache_timestamp(u_time: Option<i64>, c_time: Option<i64>) -> (t: i64)
    ensures
        t == (match u_time {
            Some(u) => u,
            None => match c_time {
                Some(c) => c,
                None => 0,
            },
        }),
{
    match u_time {
        Some(u) => u,
        None => match c_time {
            Some(c) => c,
            None => 0,
        },
    }
}

/// A confirmed candle worth announcing: instrument (trimmed, upper case),
/// timeframe (trimmed) and timestamp.
pub struct ConfirmedCandle {
    pub inst_id: String,
    pub timeframe: String,
    pub timestamp: i64,
}

/// Whether an entry sorts before another: older first, then by key.
pub open spec fn entry_lt(a: (i64, Seq<char>), b: (i64, Seq<char>)) -> bool {
    a.0 < b.0 || (a.0 == b.0 && text_lt(a.1, b.1))
}

pub open spec fn entries_view(v: Seq<(i64, String)>) -> Seq<(i64, Seq<char>)> {
    v.map_values(|e: (i64, String)| (e.0, e.1@))
}

pub open spec fn keys_distinct(s: Seq<(i64, Seq<char>)>) -> bool {
    forall|i: int, j: int| 0 <= i < j < s.len() ==> (#[trigger] s[i]).1 != (#[trigger] s[j]).1
}

pub open spec fn sorted_entries(s: Seq<(i64, Seq<char>)>) -> bool {
    forall|i: int, j: int| 0 <= i < j < s.len() ==> entry_lt(#[trigger] s[i], #[trigger] s[j])
}

proof fn lemma_entry_lt_transitive(a: (i64, Seq<char>), b: (i64, Seq<char>), c: (i64, Seq<char>))
    requires
        entry_lt(a, b),
        entry_lt(b, c),
    ensures
        entry_lt(a, c),
{
    if a.0 == b.0 && b.0 == c.0 {
        lemma_text_lt_transitive(a.1, b.1, c.1);
    }
}

proof fn lemma_entry_lt_not_both(a: (i64, Seq<char>), b: (i64, Seq<char>))
    requires
        entry_lt(a, b),
    ensures
        !entry_lt(b, a),
        a != b,
{
    if a.0 == b.0 {
        lemma_text_lt_asymmetric(a.1, b.1);
    }
}

/// Whether entry `a` sorts before the entry `(t, key)`.
fn entry_before(a: &(i64, String), t: i64, key: &Vec<char>) -> (b: bool)
    ensures
        b == entry_lt((a.0, a.1@), (t, key@)),
{
    if a.0 < t {
        true
    } else if a.0 > t {
        false
    } else {
        let other = chars_of(a.1.as_str());
        match compare_text(&other, key) {
            TextOrder::Less => true,
            _ => false,
        }
    }
}

/// Inserts an entry before the first entry above it.
fn insert_sorted(sorted: &mut Vec<(i64, String)>, item: (i64, String))
    requires
        sorted_entries(entries_view(old(sorted)@)),
        forall|k: int| 0 <= k < old(sorted)@.len() ==> (#[trigger] old(sorted)@[k]).1@ != item.1@,
    ensures
        sorted_entries(entries_view(final(sorted)@)),
        final(sorted)@.len() == old(sorted)@.len() + 1,
        forall|x: (i64, Seq<char>)| #[trigger] entries_view(final(sorted)@).contains(x) <==> (entries_view(old(sorted)@).contains(x) || x == (item.0, item.1@)),
{
    let ghost pre = entries_view(sorted@);
    let ghost it = (item.0, item.1@);
    let key = chars_of(item.1.as_str());
    let mut i: usize = 0;
    while i < sorted.len() && entry_before(&sorted[i], item.0, &key)
        invariant
            i <= sorted@.len(),
            entries_view(sorted@) == pre,
            sorted_entries(pre),
            key@ == it.1,
            it == (item.0, item.1@),
            forall|k: int| 0 <= k < sorted@.len() ==> (#[trigger] sorted@[k]).1@ != item.1@,
            forall|k: int| 0 <= k < i ==> entry_lt(#[trigger] pre[k], it),
        decreases sorted.len() - i,
    {
        assert(pre[i as int] == (sorted@[i as int].0, sorted@[i as int].1@));
        i = i + 1;
    }
    assert(forall|k: int| i <= k < pre.len() ==> entry_lt(it, #[trigger] pre[k])) by {
        assert forall|k: int| i <= k < pre.len() implies entry_lt(it, #[trigger] pre[k]) by {
            if i < pre.len() {
                let p = pre[i as int];
                assert(p == (sorted@[i as int].0, sorted@[i as int].1@));
                assert(p.1 != it.1);
                assert(!entry_lt(p, it));
                if p.0 == it.0 {
                    lemma_text_lt_total(p.1, it.1);
                }
                if k > i {
                    lemma_entry_lt_transitive(it, p, pre[k]);
                }
            }
        }
    }
    sorted.insert(i, item);
    proof {
        let post = entries_view(sorted@);
        assert(post =~= pre.insert(i as int, it));
        assert forall|a: int, b: int| 0 <= a < b < post.len() implies entry_lt(#[trigger] post[a], #[trigger] post[b]) by {
            if b < i {
            } else if b == i {
            } else if a == i {
                assert(post[b] == pre[b - 1]);
            } else if a < i {
                assert(post[b] == pre[b - 1]);
                lemma_entry_lt_transitive(pre[a], it, pre[b - 1]);
            } else {
                assert(post[a] == pre[a - 1]);
                assert(post[b] == pre[b - 1]);
            }
        }
        assert forall|x: (i64, Seq<char>)| #[trigger] post.contains(x) <==> (pre.contains(x) || x == it) by {
            if pre.contains(x) {
                let k = choose|k: int| 0 <= k < pre.len() && pre[k] == x;
                if k < i {
                    assert(post[k] == x);
                } else {
                    assert(post[k + 1] == x);
                }
            }
            if x == it {
                assert(post[i as int] == x);
            }
            if post.contains(x) {
                let k = choose|k: int| 0 <= k < post.len() && post[k] == x;
                if k < i {
                    assert(pre[k] == x);
                } else if k > i {
                    assert(pre[k - 1] == x);
                }
            }
        }
    }
}

/// Whether some entry carries `key`.
pub open spec fn has_key(all: Seq<(i64, Seq<char>)>, key: Seq<char>) -> bool {
    exists|m: int| 0 <= m < all.len() && (#[trigger] all[m]).1 == key
}

/// Whether the entry carrying `key` sorts before `e`.
pub open spec fn sorts_before(all: Seq<(i64, Seq<char>)>, key: Seq<char>, e: (i64, Seq<char>)) -> bool {
    exists|m: int| 0 <= m < all.len() && (#[trigger] all[m]).1 == key && entry_lt(all[m], e)
}

/// Which keys to drop so that at most `limit` entries stay: the oldest
/// ones, ties broken by key order, oldest first.
pub fn prune_plan(entries: Vec<(i64, String)>, limit: usize) -> (removed: Vec<String>)
    requires
        keys_distinct(entries_view(entries@)),
    ensures
        entries@.len() <= limit ==> removed@.len() == 0,
        entries@.len() > limit ==> removed@.len() == entries@.len() - limit,
        forall|r: int|
            0 <= r < removed@.len() ==> has_key(entries_view(entries@), #[trigger] removed@[r]@),
        forall|a: int, b: int| 0 <= a < b < removed@.len() ==> (#[trigger] removed@[a])@ != (#[trigger] removed@[b])@,
        forall|r: int, k: int|
            0 <= r < removed@.len() && 0 <= k < entries@.len() && !crate::subscriptions::texts_view(
                removed@,
            ).contains(entries_view(entries@)[k].1) ==> sorts_before(
                entries_view(entries@),
                #[trigger] removed@[r]@,
                #[trigger] entries_view(entries@)[k],
            ),
{
    let n = entries.len();
    if n <= limit {
        return Vec::new();
    }
    let ghost all = entries_view(entries@);
    let mut sorted: Vec<(i64, String)> = Vec::new();
    let mut i: usize = 0;
    while i < n
        invariant
            n == entries@.len(),
            i <= n,
            all == entries_view(entries@),
            keys_distinct(all),
            sorted@.len() == i,
            sorted_entries(entries_view(sorted@)),
            forall|x: (i64, Seq<char>)| #[trigger] entries_view(sorted@).contains(x) <==> all.subrange(0, i as int).contains(x),
        decreases n - i,
    {
        let item = (entries[i].0, entries[i].1.clone());
        assert(all[i as int] == (item.0, item.1@));
        assert forall|k: int| 0 <= k < sorted@.len() implies (#[trigger] sorted@[k]).1@ != item.1@ by {
            let x = entries_view(sorted@)[k];
            assert(entries_view(sorted@).contains(x));
            let cur = all.subrange(0, i as int);
            let j = choose|j: int| 0 <= j < cur.len() && cur[j] == x;
            assert(all[j] == x);
        }
        insert_sorted(&mut sorted, item);
        proof {
            let ghost cur = all.subrange(0, i as int);
            let ghost next = all.subrange(0, i as int + 1);
            assert forall|x: (i64, Seq<char>)| #[trigger] entries_view(sorted@).contains(x) <==> next.contains(x) by {
                if next.contains(x) {
                    let j = choose|j: int| 0 <= j < next.len() && next[j] == x;
                    if j < i {
                        assert(cur[j] == x);
                    }
                }
                if cur.contains(x) {
                    let j = choose|j: int| 0 <= j < cur.len() && cur[j] == x;
                    assert(next[j] == x);
                }
                if x == (item.0, item.1@) {
                    assert(next[i as int] == x);
                }
            }
        }
        i = i + 1;
    }
    assert(all.subrange(0, n as int) =~= all);
    let count = n - limit;
    let mut removed: Vec<String> = Vec::new();
    let mut r: usize = 0;
    let ghost s = entries_view(sorted@);
    while r < count
        invariant
            count <= sorted@.len() == n,
            r <= count,
            s == entries_view(sorted@),
            sorted_entries(s),
            removed@.len() == r,
            forall|q: int| 0 <= q < r ==> (#[trigger] removed@[q])@ == s[q].1,
        decreases count - r,
    {
        removed.push(sorted[r].1.clone());
        r = r + 1;
    }
    proof {
        assert forall|x: (i64, Seq<char>)| #[trigger] s.contains(x) <==> all.contains(x) by {
            assert(all.subrange(0, n as int).contains(x) == all.contains(x));
        }
        assert forall|q: int| 0 <= q < removed@.len() implies has_key(all, #[trigger] removed@[q]@) by {
            assert(s.contains(s[q]));
            let k = choose|k: int| 0 <= k < all.len() && all[k] == s[q];
            assert(all[k].1 == removed@[q]@);
        }
        assert forall|a: int, b: int| 0 <= a < b < removed@.len() implies (#[trigger] removed@[a])@ != (#[trigger] removed@[b])@ by {
            lemma_entry_lt_not_both(s[a], s[b]);
            assert(s.contains(s[a]));
            assert(s.contains(s[b]));
            let ja = choose|j: int| 0 <= j < all.len() && all[j] == s[a];
            let jb = choose|j: int| 0 <= j < all.len() && all[j] == s[b];
            if ja < jb {
                assert(all[ja].1 != all[jb].1);
            } else if jb < ja {
                assert(all[jb].1 != all[ja].1);
            }
        }
        let rv = crate::subscriptions::texts_view(removed@);
        assert forall|q: int, k: int|
            0 <= q < removed@.len() && 0 <= k < entries@.len() && !rv.contains(all[k].1) implies sorts_before(
                all,
                #[trigger] removed@[q]@,
                #[trigger] all[k],
            ) by {
            let e = all[k];
            assert(all.contains(e));
            assert(s.contains(e));
            let j = choose|j: int| 0 <= j < s.len() && s[j] == e;
            if j < count {
                assert(rv[j] == e.1);
            }
            assert(entry_lt(s[q], s[j]));
            assert(s.contains(s[q]));
            let m = choose|m: int| 0 <= m < all.len() && all[m] == s[q];
            assert(all[m].1 == removed@[q]@);
        }
    }
    removed
}


/// A confirmed candle is announced when `confirm` is `"1"` and the trimmed
/// instrument (upper-cased), the trimmed timeframe and a positive timestamp
/// are all present.
pub fn confirmed_candle_event(confirm: Option<&str>, inst_id: &str, timeframe: &str, timestamp: i64) -> (out: Option<
    ConfirmedCandle,
>)
    ensures
        match out {
            Some(e) => confirm matches Some(c) && c@ == "1"@ && e.inst_id@ == ascii_upper(trimmed(inst_id@))
                && e.inst_id@.len() > 0 && e.timeframe@ == trimmed(timeframe@) && e.timeframe@.len() > 0
                && e.timestamp == timestamp && timestamp > 0,
            None => !(confirm matches Some(c) && c@ == "1"@) || ascii_upper(trimmed(inst_id@)).len() == 0
                || trimmed(timeframe@).len() == 0 || timestamp <= 0,
        },
{
    let confirmed = match confirm {
        Some(c) => str_eq(c, "1"),
        None => false,
    };
    if !confirmed {
        return None;
    }
    let inst = trim_upper(inst_id);
    let tf = trim_owned(timeframe);
    if chars_of(inst.as_str()).len() == 0 || chars_of(tf.as_str()).len() == 0 || timestamp <= 0 {
        return None;
    }
    Some(ConfirmedCandle { inst_id: inst, timeframe: tf, timestamp })
}

} // verus!
