//! Historical market series: keeping one entry per timestamp in time order,
//! and thinning long series for reports.
use vstd::prelude::*;

verus! {

/// One instrument's candles for a timeframe, as handed to the backtest.
pub struct HistoricalCandleSeries<C> {
    pub symbol: String,
    pub inst_type: String,
    pub timeframe: String,
    pub candles: Vec<C>,
}

/// The entry kept per timestamp when entries are added in order: a later
/// entry replaces an earlier one with the same timestamp.
pub open spec fn by_timestamp<C>(s: Seq<(i64, C)>) -> Map<i64, C>
    decreases s.len(),
{
    if s.len() == 0 {
        Map::empty()
    } else {
        by_timestamp(s.drop_last()).insert(s.last().0, s.last().1)
    }
}

/// Whether timestamps strictly increase along the sequence.
pub open spec fn strictly_increasing<C>(s: Seq<(i64, C)>) -> bool {
    forall|i: int, j: int| 0 <= i < j < s.len() ==> (#[trigger] s[i]).0 < (#[trigger] s[j]).0
}

proof fn lemma_sorted_lookup<C>(s: Seq<(i64, C)>, t: i64)
    requires
        strictly_increasing(s),
    ensures
        by_timestamp(s).contains_key(t) <==> exists|i: int| 0 <= i < s.len() && (#[trigger] s[i]).0 == t,
        forall|i: int| 0 <= i < s.len() && (#[trigger] s[i]).0 == t ==> by_timestamp(s)[t] == s[i].1,
    decreases s.len(),
{
    if s.len() > 0 {
        let init = s.drop_last();
        lemma_sorted_lookup(init, t);
        assert forall|i: int| 0 <= i < s.len() && (#[trigger] s[i]).0 == t implies by_timestamp(s)[t]
            == s[i].1 by {
            if i < s.len() - 1 {
                assert(init[i] == s[i]);
                assert(s[i].0 < s[s.len() - 1].0);
            }
        }
        if by_timestamp(s).contains_key(t) && s.last().0 != t {
            let i = choose|i: int| 0 <= i < init.len() && (#[trigger] init[i]).0 == t;
            assert(s[i] == init[i]);
        }
        if exists|i: int| 0 <= i < s.len() && (#[trigger] s[i]).0 == t {
            let i = choose|i: int| 0 <= i < s.len() && (#[trigger] s[i]).0 == t;
            if i < s.len() - 1 {
                assert(init[i] == s[i]);
            }
        }
    }
}

/// A strictly increasing sequence stands for `target` when they agree on
/// which timestamps are present and on every entry.
proof fn lemma_sorted_is<C>(s: Seq<(i64, C)>, target: Map<i64, C>)
    requires
        strictly_increasing(s),
        forall|t: i64|
            #[trigger] target.contains_key(t) <==> exists|i: int| 0 <= i < s.len() && (#[trigger] s[i]).0 == t,
        forall|i: int| 0 <= i < s.len() ==> target[(#[trigger] s[i]).0] == s[i].1,
    ensures
        by_timestamp(s) == target,
{
    assert forall|t: i64| #[trigger] by_timestamp(s).contains_key(t) <==> target.contains_key(t) by {
        lemma_sorted_lookup(s, t);
    }
    assert forall|t: i64| by_timestamp(s).contains_key(t) implies by_timestamp(s)[t] == target[t] by {
        lemma_sorted_lookup(s, t);
        let i = choose|i: int| 0 <= i < s.len() && (#[trigger] s[i]).0 == t;
    }
    assert(by_timestamp(s) =~= target);
}

/// Puts one entry into a time-ordered list, replacing an entry with the
/// same timestamp.
fn insert_by_timestamp<C>(out: &mut Vec<(i64, C)>, item: (i64, C))
    requires
        strictly_increasing(old(out)@),
    ensures
        strictly_increasing(final(out)@),
        by_timestamp(final(out)@) == by_timestamp(old(out)@).insert(item.0, item.1),
{
    let ghost pre = out@;
    let t = item.0;
    let mut i: usize = 0;
    while i < out.len() && out[i].0 < t
        invariant
            i <= out@.len(),
            out@ == pre,
            strictly_increasing(pre),
            forall|k: int| 0 <= k < i ==> (#[trigger] pre[k]).0 < t,
        decreases out.len() - i,
    {
        i = i + 1;
    }
    let ghost target = by_timestamp(pre).insert(item.0, item.1);
    if i < out.len() && out[i].0 == t {
        out.set(i, item);
        proof {
            assert forall|a: int, b: int| 0 <= a < b < out@.len() implies (#[trigger] out@[a]).0 < (
            #[trigger] out@[b]).0 by {
                assert(pre[a].0 < pre[b].0);
            }
            assert forall|x: i64| #[trigger] target.contains_key(x) <==> exists|k: int|
                0 <= k < out@.len() && (#[trigger] out@[k]).0 == x by {
                lemma_sorted_lookup(pre, x);
                if by_timestamp(pre).contains_key(x) {
                    let k = choose|k: int| 0 <= k < pre.len() && (#[trigger] pre[k]).0 == x;
                    assert(out@[k].0 == x);
                }
                if x == t {
                    assert(out@[i as int].0 == x);
                }
                if exists|k: int| 0 <= k < out@.len() && (#[trigger] out@[k]).0 == x {
                    let k = choose|k: int| 0 <= k < out@.len() && (#[trigger] out@[k]).0 == x;
                    assert(pre[k].0 == x);
                }
            }
            assert forall|k: int| 0 <= k < out@.len() implies target[(#[trigger] out@[k]).0] == out@[k].1 by {
                lemma_sorted_lookup(pre, out@[k].0);
                if k != i {
                    assert(pre[k] == out@[k]);
                    if k < i {
                        assert(pre[k].0 < pre[i as int].0);
                    } else {
                        assert(pre[i as int].0 < pre[k].0);
                    }
                }
            }
            lemma_sorted_is(out@, target);
        }
    } else {
        out.insert(i, item);
        proof {
            assert forall|k: int| i <= k < pre.len() implies t < (#[trigger] pre[k]).0 by {
                if k > i {
                    assert(pre[i as int].0 < pre[k].0);
                }
            }
            assert forall|a: int, b: int| 0 <= a < b < out@.len() implies (#[trigger] out@[a]).0 < (
            #[trigger] out@[b]).0 by {
                if b < i {
                    assert(pre[a].0 < pre[b].0);
                } else if b == i {
                    assert(pre[a].0 < t);
                } else if a == i {
                    assert(t < pre[b - 1].0);
                } else if a < i {
                    assert(pre[a].0 < t);
                    assert(t < pre[b - 1].0);
                } else {
                    assert(pre[a - 1].0 < pre[b - 1].0);
                }
            }
            assert forall|x: i64| #[trigger] target.contains_key(x) <==> exists|k: int|
                0 <= k < out@.len() && (#[trigger] out@[k]).0 == x by {
                lemma_sorted_lookup(pre, x);
                if by_timestamp(pre).contains_key(x) {
                    let k = choose|k: int| 0 <= k < pre.len() && (#[trigger] pre[k]).0 == x;
                    if k < i {
                        assert(out@[k].0 == x);
                    } else {
                        assert(out@[k + 1].0 == x);
                    }
                }
                if x == t {
                    assert(out@[i as int].0 == x);
                }
                if exists|k: int| 0 <= k < out@.len() && (#[trigger] out@[k]).0 == x {
                    let k = choose|k: int| 0 <= k < out@.len() && (#[trigger] out@[k]).0 == x;
                    if k < i {
                        assert(pre[k].0 == x);
                    } else if k > i {
                        assert(pre[k - 1].0 == x);
                    }
                }
            }
            assert forall|k: int| 0 <= k < out@.len() implies target[(#[trigger] out@[k]).0] == out@[k].1 by {
                if k < i {
                    lemma_sorted_lookup(pre, out@[k].0);
                    assert(pre[k] == out@[k]);
                } else if k > i {
                    lemma_sorted_lookup(pre, out@[k].0);
                    assert(pre[k - 1] == out@[k]);
                }
            }
            lemma_sorted_is(out@, target);
        }
    }
}

/// Orders entries by timestamp, keeping for each timestamp the entry that
/// came last.
pub fn candles_by_timestamp<C>(items: Vec<(i64, C)>) -> (out: Vec<(i64, C)>)
    ensures
        strictly_increasing(out@),
        by_timestamp(out@) == by_timestamp(items@),
{
    let mut out: Vec<(i64, C)> = Vec::new();
    let mut rest = items;
    let n = rest.len();
    let ghost all = rest@;
    let mut taken: usize = 0;
    // Take items from the back, so put them back in order into `pending`.
    let mut pending: Vec<(i64, C)> = Vec::new();
    while rest.len() > 0
        invariant
            pending@ + rest@.reverse() == all.reverse(),
        decreases rest.len(),
    {
        let ghost before_rest = rest@;
        let ghost before_pending = pending@;
        let item = rest.pop().unwrap();
        pending.push(item);
        assert(before_rest.reverse() =~= seq![item] + rest@.reverse());
        assert(pending@ + rest@.reverse() =~= before_pending + before_rest.reverse());
    }
    assert(pending@ =~= all.reverse());
    assert(by_timestamp(out@) =~= by_timestamp(all.subrange(0, 0)));
    while pending.len() > 0
        invariant
            taken <= all.len(),
            all.len() == n,
            pending@.len() == all.len() - taken,
            pending@ == all.subrange(taken as int, all.len() as int).reverse(),
            strictly_increasing(out@),
            by_timestamp(out@) == by_timestamp(all.subrange(0, taken as int)),
        decreases pending.len(),
    {
        let ghost before = pending@;
        let item = pending.pop().unwrap();
        assert(item == all[taken as int]);
        insert_by_timestamp(&mut out, item);
        assert(all.subrange(0, taken as int + 1).drop_last() =~= all.subrange(0, taken as int));
        taken = taken + 1;
        assert(pending@ =~= all.subrange(taken as int, all.len() as int).reverse());
    }
    assert(all.subrange(0, taken as int) =~= all);
    out
}

/// The sampling stride that keeps at most `max_points` points (no limit
/// when `max_points` is zero).
pub open spec fn stride(len: nat, max_points: nat) -> nat {
    if len <= max_points || max_points == 0 {
        1
    } else {
        ((len + max_points - 1) / max_points as int) as nat
    }
}

pub fn sample_step(len: usize, max_points: usize) -> (step: usize)
    ensures
        step == stride(len as nat, max_points as nat),
        step >= 1,
{
    if len <= max_points || max_points == 0 {
        1
    } else {
        let q = len / max_points;
        let step = if len % max_points == 0 {
            q
        } else {
            assert(max_points != 1);
            assert(q < len) by (nonlinear_arith)
                requires
                    max_points >= 2,
                    len > 0,
                    q == len / max_points,
            ;
            q + 1
        };
        assert(step == (len + max_points - 1) / max_points as int) by (nonlinear_arith)
            requires
                max_points > 0,
                q == len / max_points,
                len % max_points == 0 ==> step == q,
                len % max_points != 0 ==> step == q + 1,
        ;
        assert(step >= 1) by (nonlinear_arith)
            requires
                max_points > 0,
                len > max_points,
                q == len / max_points,
                step >= q,
        ;
        step
    }
}

/// The indices kept when thinning `len` points with stride `step`: every
/// `step`-th index from 0, and the last index.
pub open spec fn sampled(len: nat, step: nat) -> Seq<nat> {
    let s = if step == 0 {
        1
    } else {
        step
    };
    let every = Seq::new(((len + s - 1) / s as int) as nat, |k: int| (k * s) as nat);
    if len == 0 {
        Seq::empty()
    } else if every.last() == (len - 1) as nat {
        every
    } else {
        every.push((len - 1) as nat)
    }
}

pub fn sample_indices(len: usize, step: usize) -> (out: Vec<usize>)
    ensures
        out@.map_values(|i: usize| i as nat) == sampled(len as nat, step as nat),
{
    if len == 0 {
        let out: Vec<usize> = Vec::new();
        assert(out@.map_values(|i: usize| i as nat) =~= sampled(len as nat, step as nat));
        return out;
    }
    let s: usize = if step == 0 {
        1
    } else {
        step
    };
    let ghost count = ((len + s - 1) / s as int) as nat;
    let ghost every = Seq::new(count, |k: int| (k * s) as nat);
    let mut out: Vec<usize> = Vec::new();
    let mut i: usize = 0;
    let mut k: usize = 0;
    proof {
        lemma_stride_more(len as nat, s as nat, 0);
        assert(count <= len) by (nonlinear_arith)
            requires
                s >= 1,
                len >= 1,
                count == (len + s - 1) / s as int,
        ;
    }
    loop
        invariant_except_break
            s >= 1,
            count == ((len + s - 1) / s as int) as nat,
            every == Seq::new(count, |k: int| (k * s) as nat),
            i == k * s,
            i < len,
            k < count,
            count <= len,
            out@.len() == k,
            forall|m: int| 0 <= m < k ==> (#[trigger] out@[m]) as nat == every[m],
        ensures
            out@.len() == count,
            forall|m: int| 0 <= m < count ==> (#[trigger] out@[m]) as nat == every[m],
        decreases len - i,
    {
        out.push(i);
        assert(out@[k as int] as nat == every[k as int]);
        if len - i <= s {
            proof {
                lemma_stride_count(len as nat, s as nat, k as nat);
            }
            break ;
        }
        i = i + s;
        k = k + 1;
        proof {
            assert(i == k * s) by (nonlinear_arith)
                requires
                    i == (k - 1) * s + s,
            ;
            lemma_stride_more(len as nat, s as nat, k as nat);
        }
    }
    let ghost before_last = out@;
    assert(out@.map_values(|i: usize| i as nat) =~= every);
    if out[out.len() - 1] != len - 1 {
        out.push(len - 1);
        assert(out@.map_values(|i: usize| i as nat) =~= every.push((len - 1) as nat));
    }
    out
}

proof fn lemma_stride_more(len: nat, s: nat, k: nat)
    requires
        s >= 1,
        k * s < len,
    ensures
        k < (len + s - 1) / s as int,
{
    assert(k < (len + s - 1) / s as int) by (nonlinear_arith)
        requires
            s >= 1,
            k * s < len,
    ;
}

proof fn lemma_stride_count(len: nat, s: nat, k: nat)
    requires
        s >= 1,
        k * s < len,
        len - k * s <= s,
    ensures
        k + 1 == (len + s - 1) / s as int,
{
    assert(k + 1 == (len + s - 1) / s as int) by (nonlinear_arith)
        requires
            s >= 1,
            k * s < len,
            len - k * s <= s,
    ;
}

} // verus!

verus! {

/// Series of timestamped entries per instrument and second key (a
/// timeframe for candles, an instrument type for funding rates). Keys are
/// held normalised; each series is in strictly increasing time order.
pub struct TimedSeriesStore<C> {
    entries: Vec<(String, String, Vec<(i64, C)>)>,
}

pub open spec fn key_pairs<C>(entries: Seq<(String, String, Vec<(i64, C)>)>) -> Seq<(Seq<char>, Seq<char>)> {
    entries.map_values(|e: (String, String, Vec<(i64, C)>)| (e.0@, e.1@))
}

/// Whether `i` is the first position holding the key pair `k`.
pub open spec fn is_first(keys: Seq<(Seq<char>, Seq<char>)>, k: (Seq<char>, Seq<char>), i: int) -> bool {
    0 <= i < keys.len() && keys[i] == k && forall|j: int| 0 <= j < i ==> #[trigger] keys[j] != k
}

/// The first position holding the key pair `k`.
pub open spec fn first_slot(keys: Seq<(Seq<char>, Seq<char>)>, k: (Seq<char>, Seq<char>)) -> Option<int> {
    if exists|i: int| is_first(keys, k, i) {
        Some(choose|i: int| is_first(keys, k, i))
    } else {
        None
    }
}

proof fn lemma_first_exists(keys: Seq<(Seq<char>, Seq<char>)>, k: (Seq<char>, Seq<char>), w: int)
    requires
        0 <= w < keys.len(),
        keys[w] == k,
    ensures
        exists|i: int| is_first(keys, k, i),
    decreases w,
{
    if exists|j: int| 0 <= j < w && keys[j] == k {
        let j = choose|j: int| 0 <= j < w && keys[j] == k;
        lemma_first_exists(keys, k, j);
    } else {
        assert(is_first(keys, k, w));
    }
}

proof fn lemma_first_slot(keys: Seq<(Seq<char>, Seq<char>)>, k: (Seq<char>, Seq<char>))
    ensures
        match first_slot(keys, k) {
            Some(i) => is_first(keys, k, i),
            None => forall|j: int| 0 <= j < keys.len() ==> #[trigger] keys[j] != k,
        },
        forall|i: int| #[trigger] is_first(keys, k, i) ==> first_slot(keys, k) == Some(i),
{
    assert forall|j: int| 0 <= j < keys.len() && #[trigger] keys[j] == k implies exists|i: int| is_first(keys, k, i) by {
        lemma_first_exists(keys, k, j);
    }
    assert forall|i: int| #[trigger] is_first(keys, k, i) implies first_slot(keys, k) == Some(i) by {
        let c = choose|c: int| is_first(keys, k, c);
        if c < i {
            assert(keys[c] == k);
        } else if i < c {
            assert(keys[i] == k);
        }
    }
}

/// Adding a key pair at the end leaves the first positions of the other
/// pairs unchanged.
proof fn lemma_first_slot_push(keys: Seq<(Seq<char>, Seq<char>)>, z: (Seq<char>, Seq<char>), k: (Seq<char>, Seq<char>))
    requires
        k != z,
    ensures
        first_slot(keys.push(z), k) == first_slot(keys, k),
{
    let post = keys.push(z);
    lemma_first_slot(keys, k);
    lemma_first_slot(post, k);
    match first_slot(keys, k) {
        Some(i) => {
            assert(is_first(post, k, i)) by {
                assert forall|j: int| 0 <= j < i implies #[trigger] post[j] != k by {
                    assert(post[j] == keys[j]);
                }
            }
        },
        None => {
            if let Some(i) = first_slot(post, k) {
                assert(post[i] == k);
                if i < keys.len() {
                    assert(keys[i] == post[i]);
                }
            }
        },
    }
}

impl<C> TimedSeriesStore<C> {
    /// The series stored under the (normalised) keys; empty when none is.
    pub closed spec fn series(&self, a: Seq<char>, b: Seq<char>) -> Seq<(i64, C)> {
        match first_slot(key_pairs(self.entries@), (a, b)) {
            Some(i) => self.entries@[i].2@,
            None => Seq::empty(),
        }
    }

    pub closed spec fn wf(&self) -> bool {
        forall|i: int| 0 <= i < self.entries@.len() ==> strictly_increasing(#[trigger] self.entries@[i].2@)
    }

    /// Whether anything was ever merged under the keys.
    pub closed spec fn present(&self, a: Seq<char>, b: Seq<char>) -> bool {
        first_slot(key_pairs(self.entries@), (a, b)) is Some
    }

    /// Whether anything was ever merged under the keys.
    pub fn contains(&self, a: &str, b: &str) -> (r: bool)
        ensures
            r == self.present(a@, b@),
    {
        self.slot(a, b).is_some()
    }

    /// Nothing stored.
    pub fn new() -> (s: TimedSeriesStore<C>)
        ensures
            s.wf(),
            forall|a: Seq<char>, b: Seq<char>| #[trigger] s.series(a, b) == Seq::<(i64, C)>::empty(),
            forall|a: Seq<char>, b: Seq<char>| !#[trigger] s.present(a, b),
    {
        let s = TimedSeriesStore { entries: Vec::new() };
        assert forall|a: Seq<char>, b: Seq<char>| #[trigger] s.series(a, b) == Seq::<(i64, C)>::empty() by {
            lemma_first_slot(key_pairs(s.entries@), (a, b));
        }
        assert forall|a: Seq<char>, b: Seq<char>| !#[trigger] s.present(a, b) by {
            lemma_first_slot(key_pairs(s.entries@), (a, b));
        }
        s
    }

    fn slot(&self, a: &str, b: &str) -> (r: Option<usize>)
        ensures
            match r {
                Some(i) => first_slot(key_pairs(self.entries@), (a@, b@)) == Some(i as int),
                None => first_slot(key_pairs(self.entries@), (a@, b@)) is None,
            },
    {
        let ghost keys = key_pairs(self.entries@);
        proof {
            lemma_first_slot(keys, (a@, b@));
        }
        let mut i: usize = 0;
        while i < self.entries.len()
            invariant
                i <= self.entries@.len(),
                keys == key_pairs(self.entries@),
                forall|j: int| 0 <= j < i ==> #[trigger] keys[j] != (a@, b@),
            decreases self.entries.len() - i,
        {
            if crate::text::str_eq(self.entries[i].0.as_str(), a) && crate::text::str_eq(
                self.entries[i].1.as_str(),
                b,
            ) {
                assert(is_first(keys, (a@, b@), i as int));
                return Some(i);
            }
            assert(keys[i as int] != (a@, b@));
            i = i + 1;
        }
        None
    }

    /// Merges entries into the series under the keys: a later entry
    /// replaces an earlier one with the same timestamp.
    pub fn merge(&mut self, a: &str, b: &str, items: Vec<(i64, C)>)
        requires
            old(self).wf(),
        ensures
            final(self).wf(),
            strictly_increasing(final(self).series(a@, b@)),
            by_timestamp(final(self).series(a@, b@)) == by_timestamp(old(self).series(a@, b@) + items@),
            forall|x: Seq<char>, y: Seq<char>|
                !(x == a@ && y == b@) ==> #[trigger] final(self).series(x, y) == old(self).series(x, y),
            final(self).present(a@, b@),
            forall|x: Seq<char>, y: Seq<char>|
                !(x == a@ && y == b@) ==> #[trigger] final(self).present(x, y) == old(self).present(x, y),
    {
        let ghost pre = self.entries@;
        let ghost keys = key_pairs(pre);
        match self.slot(a, b) {
            Some(i) => {
                proof {
                    lemma_first_slot(keys, (a@, b@));
                }
                let (ka, kb, mut current) = self.entries.remove(i);
                let ghost before = current@;
                let mut items = items;
                current.append(&mut items);
                let merged = candles_by_timestamp(current);
                self.entries.insert(i, (ka, kb, merged));
                proof {
                    assert(key_pairs(self.entries@) =~= keys);
                    assert forall|j: int| 0 <= j < self.entries@.len() implies strictly_increasing(#[trigger] self.entries@[j].2@) by {
                        if j != i {
                            assert(self.entries@[j] == pre[j]);
                        }
                    }
                    assert forall|x: Seq<char>, y: Seq<char>|
                        !(x == a@ && y == b@) implies #[trigger] self.series(x, y) == old(self).series(x, y) by {
                        lemma_first_slot(keys, (x, y));
                        if let Some(w) = first_slot(keys, (x, y)) {
                            assert(w != i);
                            assert(self.entries@[w] == pre[w]);
                        }
                    }
                    assert forall|x: Seq<char>, y: Seq<char>|
                        !(x == a@ && y == b@) implies #[trigger] self.present(x, y) == old(self).present(x, y) by {
                    }
                }
            },
            None => {
                let merged = candles_by_timestamp(items);
                self.entries.push((crate::text::owned(a), crate::text::owned(b), merged));
                proof {
                    let n = pre.len() as int;
                    assert(key_pairs(self.entries@) =~= keys.push((a@, b@)));
                    assert forall|x: Seq<char>, y: Seq<char>|
                        !(x == a@ && y == b@) implies #[trigger] self.series(x, y) == old(self).series(x, y) by {
                        lemma_first_slot_push(keys, (a@, b@), (x, y));
                        lemma_first_slot(keys, (x, y));
                        if let Some(w) = first_slot(keys, (x, y)) {
                            assert(self.entries@[w] == pre[w]);
                        }
                    }
                    assert forall|x: Seq<char>, y: Seq<char>|
                        !(x == a@ && y == b@) implies #[trigger] self.present(x, y) == old(self).present(x, y) by {
                        lemma_first_slot_push(keys, (a@, b@), (x, y));
                    }
                    lemma_first_slot(keys, (a@, b@));
                    assert(is_first(keys.push((a@, b@)), (a@, b@), n)) by {
                        assert forall|j: int| 0 <= j < n implies #[trigger] keys.push((a@, b@))[j] != (a@, b@) by {
                            assert(keys.push((a@, b@))[j] == keys[j]);
                        }
                    }
                    lemma_first_slot(keys.push((a@, b@)), (a@, b@));
                    assert(old(self).series(a@, b@) + items@ =~= items@);
                    assert forall|j: int| 0 <= j < self.entries@.len() implies strictly_increasing(#[trigger] self.entries@[j].2@) by {
                        if j < n {
                            assert(self.entries@[j] == pre[j]);
                        }
                    }
                }
            },
        }
    }

    /// The series under the keys (empty when none is stored).
    pub fn series_of(&self, a: &str, b: &str) -> (out: &[(i64, C)])
        requires
            self.wf(),
        ensures
            out@ == self.series(a@, b@),
            strictly_increasing(out@),
    {
        proof {
            lemma_first_slot(key_pairs(self.entries@), (a@, b@));
        }
        match self.slot(a, b) {
            Some(i) => self.entries[i].2.as_slice(),
            None => &[],
        }
    }
}

/// The first entry strictly after `after` and at or before `until`.
pub fn next_between<C>(series: &[(i64, C)], after_ts: i64, until_ts: i64) -> (r: Option<usize>)
    ensures
        match r {
            Some(i) => i < series@.len() && after_ts < series@[i as int].0 <= until_ts && forall|k: int|
                0 <= k < i ==> !(after_ts < #[trigger] series@[k].0 <= until_ts),
            None => forall|k: int| 0 <= k < series@.len() ==> !(after_ts < #[trigger] series@[k].0 <= until_ts),
        },
{
    let mut i: usize = 0;
    while i < series.len()
        invariant
            i <= series@.len(),
            forall|k: int| 0 <= k < i ==> !(after_ts < #[trigger] series@[k].0 <= until_ts),
        decreases series.len() - i,
    {
        if after_ts < series[i].0 && series[i].0 <= until_ts {
            return Some(i);
        }
        i = i + 1;
    }
    None
}

/// The last entry of the leading run at or before `timestamp` (what
/// `take_while(..).last()` picks).
pub fn last_at_or_before<C>(series: &[(i64, C)], timestamp: i64) -> (r: Option<usize>)
    ensures
        match r {
            Some(i) => i < series@.len() && forall|k: int| 0 <= k <= i ==> #[trigger] series@[k].0 <= timestamp,
            None => true,
        },
        match r {
            Some(i) => i + 1 == series@.len() || series@[i + 1].0 > timestamp,
            None => series@.len() == 0 || series@[0].0 > timestamp,
        },
{
    let mut i: usize = 0;
    while i < series.len() && series[i].0 <= timestamp
        invariant
            i <= series@.len(),
            forall|k: int| 0 <= k < i ==> #[trigger] series@[k].0 <= timestamp,
        decreases series.len() - i,
    {
        i = i + 1;
    }
    if i == 0 {
        None
    } else {
        Some(i - 1)
    }
}

/// The positions of entries strictly after `after` and at or before
/// `until`, in order; none when `until` is not after `after`.
pub fn between<C>(series: &[(i64, C)], after_ts: i64, until_ts: i64) -> (r: Vec<usize>)
    ensures
        until_ts <= after_ts ==> r@.len() == 0,
        until_ts > after_ts ==> crate::storage::index_view(r@) == crate::storage::positions(
            series@.len(),
            |k: int| after_ts < series@[k].0 <= until_ts,
        ),
{
    let mut r: Vec<usize> = Vec::new();
    if until_ts <= after_ts {
        return r;
    }
    let ghost p = |k: int| after_ts < series@[k].0 <= until_ts;
    let mut i: usize = 0;
    assert(crate::storage::index_view(r@) =~= crate::storage::positions(0, p));
    while i < series.len()
        invariant
            i <= series@.len(),
            p == (|k: int| after_ts < series@[k].0 <= until_ts),
            crate::storage::index_view(r@) == crate::storage::positions(i as nat, p),
        decreases series.len() - i,
    {
        let ghost before = crate::storage::index_view(r@);
        if after_ts < series[i].0 && series[i].0 <= until_ts {
            r.push(i);
            assert(crate::storage::index_view(r@) =~= before.push(i as nat));
        }
        i = i + 1;
    }
    r
}

} // verus!

verus! {

/// Candle series per (symbol, timeframe) and funding-rate series per
/// (symbol, instrument type), merged by timestamp. Symbols and instrument
/// types are kept trimmed and upper-cased, timeframes trimmed and
/// lower-cased.
pub struct HistoricalMarketData<C, F> {
    series: TimedSeriesStore<C>,
    funding: TimedSeriesStore<F>,
}

pub open spec fn symbol_key(s: Seq<char>) -> Seq<char> {
    crate::text::ascii_upper(crate::text::trimmed(s))
}

pub open spec fn timeframe_key(s: Seq<char>) -> Seq<char> {
    crate::text::ascii_lower(crate::text::trimmed(s))
}

/// The candles of all series with the symbol and timeframe of `s` and `t`
/// (after normalisation), one series after another.
pub open spec fn merged_candles<C>(
    series: Seq<HistoricalCandleSeries<(i64, C)>>,
    s: Seq<char>,
    t: Seq<char>,
) -> Seq<(i64, C)>
    decreases series.len(),
{
    if series.len() == 0 {
        Seq::empty()
    } else {
        let last = series.last();
        let before = merged_candles(series.drop_last(), s, t);
        if symbol_key(last.symbol@) == symbol_key(s) && timeframe_key(last.timeframe@) == timeframe_key(t) {
            before + last.candles@
        } else {
            before
        }
    }
}

/// Entries with the same per-timestamp outcome keep it when the same
/// entries are added to both.
proof fn lemma_by_timestamp_append<C>(a: Seq<(i64, C)>, b: Seq<(i64, C)>, c: Seq<(i64, C)>)
    requires
        by_timestamp(a) == by_timestamp(b),
    ensures
        by_timestamp(a + c) == by_timestamp(b + c),
    decreases c.len(),
{
    if c.len() == 0 {
        assert(a + c =~= a);
        assert(b + c =~= b);
    } else {
        lemma_by_timestamp_append(a, b, c.drop_last());
        assert((a + c).drop_last() =~= a + c.drop_last());
        assert((b + c).drop_last() =~= b + c.drop_last());
    }
}

impl<C, F> HistoricalMarketData<C, F> {
    pub closed spec fn wf(&self) -> bool {
        self.series.wf() && self.funding.wf()
    }

    /// The candles of a symbol and timeframe.
    pub closed spec fn candles(&self, symbol: Seq<char>, timeframe: Seq<char>) -> Seq<(i64, C)> {
        self.series.series(symbol_key(symbol), timeframe_key(timeframe))
    }

    /// Whether funding rates were ever added for a symbol and instrument
    /// type (possibly none).
    pub closed spec fn funding_loaded(&self, symbol: Seq<char>, inst_type: Seq<char>) -> bool {
        self.funding.present(symbol_key(symbol), symbol_key(inst_type))
    }

    /// The funding rates of a symbol and instrument type.
    pub closed spec fn rates(&self, symbol: Seq<char>, inst_type: Seq<char>) -> Seq<(i64, F)> {
        self.funding.series(symbol_key(symbol), symbol_key(inst_type))
    }

    /// No data.
    pub fn empty() -> (m: HistoricalMarketData<C, F>)
        ensures
            m.wf(),
            forall|s: Seq<char>, t: Seq<char>| #[trigger] m.candles(s, t) == Seq::<(i64, C)>::empty(),
            forall|s: Seq<char>, t: Seq<char>| #[trigger] m.rates(s, t) == Seq::<(i64, F)>::empty(),
            forall|s: Seq<char>, t: Seq<char>| !#[trigger] m.funding_loaded(s, t),
    {
        HistoricalMarketData { series: TimedSeriesStore::new(), funding: TimedSeriesStore::new() }
    }

    /// Market data holding every given series, inserted in order: series
    /// with the same symbol and timeframe are merged, a later candle
    /// replacing an earlier one with the same timestamp.
    pub fn new(series: Vec<HistoricalCandleSeries<(i64, C)>>) -> (m: HistoricalMarketData<C, F>)
        ensures
            m.wf(),
            forall|s: Seq<char>, t: Seq<char>|
                #![trigger m.candles(s, t)]
                strictly_increasing(m.candles(s, t)) && by_timestamp(m.candles(s, t)) == by_timestamp(
                    merged_candles(series@, s, t),
                ),
            forall|s: Seq<char>, t: Seq<char>| #[trigger] m.rates(s, t) == Seq::<(i64, F)>::empty(),
            forall|s: Seq<char>, t: Seq<char>| !#[trigger] m.funding_loaded(s, t),
    {
        let ghost all = series@;
        let mut rest = series;
        let mut m = Self::empty();
        let mut k: usize = 0;
        assert(all.len() == rest.len());
        proof {
            assert forall|s: Seq<char>, t: Seq<char>| #![trigger m.candles(s, t)]
                strictly_increasing(m.candles(s, t)) && by_timestamp(m.candles(s, t)) == by_timestamp(
                    merged_candles(all.subrange(0, 0), s, t),
                ) by {
                assert(m.candles(s, t) =~= merged_candles(all.subrange(0, 0), s, t));
            }
        }
        while rest.len() > 0
            invariant
                k <= all.len(),
                all.len() <= usize::MAX,
                rest@ == all.subrange(k as int, all.len() as int),
                m.wf(),
                forall|s: Seq<char>, t: Seq<char>|
                    #![trigger m.candles(s, t)]
                    strictly_increasing(m.candles(s, t)) && by_timestamp(m.candles(s, t)) == by_timestamp(
                        merged_candles(all.subrange(0, k as int), s, t),
                    ),
                forall|s: Seq<char>, t: Seq<char>| #[trigger] m.rates(s, t) == Seq::<(i64, F)>::empty(),
                forall|s: Seq<char>, t: Seq<char>| !#[trigger] m.funding_loaded(s, t),
            decreases rest.len(),
        {
            assert(k < all.len());
            let item = rest.remove(0);
            let ghost prev = m;
            let ghost items = item.candles@;
            let ghost key_s = item.symbol@;
            let ghost key_t = item.timeframe@;
            assert(item == all[k as int]);
            m.insert(item);
            proof {
                let done = all.subrange(0, k as int + 1);
                assert(done.drop_last() =~= all.subrange(0, k as int));
                assert forall|s: Seq<char>, t: Seq<char>| #![trigger m.candles(s, t)]
                    strictly_increasing(m.candles(s, t)) && by_timestamp(m.candles(s, t)) == by_timestamp(
                        merged_candles(done, s, t),
                    ) by {
                    if symbol_key(s) == symbol_key(key_s) && timeframe_key(t) == timeframe_key(key_t) {
                        assert(m.candles(s, t) == m.candles(key_s, key_t));
                        assert(prev.candles(s, t) == prev.candles(key_s, key_t));
                        lemma_by_timestamp_append(
                            prev.candles(s, t),
                            merged_candles(all.subrange(0, k as int), s, t),
                            items,
                        );
                    } else {
                        assert(m.candles(s, t) == prev.candles(s, t));
                    }
                }
            }
            k = k + 1;
            assert(rest@ =~= all.subrange(k as int, all.len() as int));
        }
        assert(all.subrange(0, k as int) =~= all);
        m
    }

    /// Adds the timestamped candles of a series; a candle replaces an
    /// earlier one with the same timestamp.
    pub fn insert(&mut self, item: HistoricalCandleSeries<(i64, C)>)
        requires
            old(self).wf(),
        ensures
            final(self).wf(),
            strictly_increasing(final(self).candles(item.symbol@, item.timeframe@)),
            by_timestamp(final(self).candles(item.symbol@, item.timeframe@)) == by_timestamp(
                old(self).candles(item.symbol@, item.timeframe@) + item.candles@,
            ),
            forall|s: Seq<char>, t: Seq<char>|
                !(symbol_key(s) == symbol_key(item.symbol@) && timeframe_key(t) == timeframe_key(
                    item.timeframe@,
                )) ==> #[trigger] final(self).candles(s, t) == old(self).candles(s, t),
            forall|s: Seq<char>, t: Seq<char>| #[trigger] final(self).rates(s, t) == old(self).rates(s, t),
            forall|s: Seq<char>, t: Seq<char>| #[trigger] final(self).funding_loaded(s, t) == old(self).funding_loaded(s, t),
    {
        let a = crate::orders::norm_symbol(item.symbol.as_str());
        let b = crate::orders::norm_timeframe(item.timeframe.as_str());
        self.series.merge(a.as_str(), b.as_str(), item.candles);
    }

    /// Adds funding rates of a symbol and instrument type; a rate replaces
    /// an earlier one with the same funding time.
    pub fn insert_funding(&mut self, symbol: &str, inst_type: &str, rates: Vec<(i64, F)>)
        requires
            old(self).wf(),
        ensures
            final(self).wf(),
            strictly_increasing(final(self).rates(symbol@, inst_type@)),
            by_timestamp(final(self).rates(symbol@, inst_type@)) == by_timestamp(
                old(self).rates(symbol@, inst_type@) + rates@,
            ),
            forall|s: Seq<char>, t: Seq<char>|
                !(symbol_key(s) == symbol_key(symbol@) && symbol_key(t) == symbol_key(inst_type@))
                    ==> #[trigger] final(self).rates(s, t) == old(self).rates(s, t),
            final(self).funding_loaded(symbol@, inst_type@),
            forall|s: Seq<char>, t: Seq<char>|
                !(symbol_key(s) == symbol_key(symbol@) && symbol_key(t) == symbol_key(inst_type@))
                    ==> #[trigger] final(self).funding_loaded(s, t) == old(self).funding_loaded(s, t),
            forall|s: Seq<char>, t: Seq<char>| #[trigger] final(self).candles(s, t) == old(self).candles(s, t),
    {
        let a = crate::orders::norm_symbol(symbol);
        let b = crate::orders::norm_inst_type(inst_type);
        self.funding.merge(a.as_str(), b.as_str(), rates);
    }

    /// The candles of a symbol and timeframe, in time order.
    pub fn candle_series(&self, symbol: &str, timeframe: &str) -> (out: &[(i64, C)])
        requires
            self.wf(),
        ensures
            out@ == self.candles(symbol@, timeframe@),
            strictly_increasing(out@),
    {
        let a = crate::orders::norm_symbol(symbol);
        let b = crate::orders::norm_timeframe(timeframe);
        self.series.series_of(a.as_str(), b.as_str())
    }

    /// The funding rates of a symbol and instrument type, in time order.
    pub fn funding_series(&self, symbol: &str, inst_type: &str) -> (out: &[(i64, F)])
        requires
            self.wf(),
        ensures
            out@ == self.rates(symbol@, inst_type@),
            strictly_increasing(out@),
    {
        let a = crate::orders::norm_symbol(symbol);
        let b = crate::orders::norm_inst_type(inst_type);
        self.funding.series_of(a.as_str(), b.as_str())
    }

    /// Whether candles are loaded for a symbol and timeframe.
    pub fn has_candle_series(&self, symbol: &str, timeframe: &str) -> (b: bool)
        requires
            self.wf(),
        ensures
            b == (self.candles(symbol@, timeframe@).len() > 0),
    {
        self.candle_series(symbol, timeframe).len() > 0
    }

    /// Whether funding rates were added for a symbol and instrument type.
    pub fn has_funding_series(&self, symbol: &str, inst_type: &str) -> (b: bool)
        ensures
            b == self.funding_loaded(symbol@, inst_type@),
    {
        let a = crate::orders::norm_symbol(symbol);
        let t = crate::orders::norm_inst_type(inst_type);
        self.funding.contains(a.as_str(), t.as_str())
    }
}

} // verus!

verus! {

/// Whether a funding point can be used, its rate aside: a positive funding
/// time, and a symbol and instrument type that are not blank.
pub open spec fn funding_point_usable(funding_time: i64, symbol: Seq<char>, inst_type: Seq<char>) -> bool {
    funding_time > 0 && crate::text::trimmed(symbol).len() > 0 && crate::text::trimmed(inst_type).len() > 0
}

/// The positions of the usable funding points (funding time, symbol,
/// instrument type), in order.
pub fn usable_funding_points(points: &[(i64, &str, &str)]) -> (out: Vec<usize>)
    ensures
        crate::storage::index_view(out@) == crate::storage::positions(
            points@.len(),
            |k: int| funding_point_usable(points@[k].0, points@[k].1@, points@[k].2@),
        ),
{
    let ghost p = |k: int| funding_point_usable(points@[k].0, points@[k].1@, points@[k].2@);
    let mut out: Vec<usize> = Vec::new();
    let mut i: usize = 0;
    assert(crate::storage::index_view(out@) =~= crate::storage::positions(0, p));
    while i < points.len()
        invariant
            i <= points@.len(),
            p == (|k: int| funding_point_usable(points@[k].0, points@[k].1@, points@[k].2@)),
            crate::storage::index_view(out@) == crate::storage::positions(i as nat, p),
        decreases points.len() - i,
    {
        let (time, symbol, inst_type) = points[i];
        let usable = time > 0 && !crate::text::is_blank(symbol) && !crate::text::is_blank(inst_type);
        assert(usable == p(i as int));
        let ghost before = crate::storage::index_view(out@);
        if usable {
            out.push(i);
            assert(crate::storage::index_view(out@) =~= before.push(i as nat));
        }
        i = i + 1;
    }
    out
}

} // verus!
