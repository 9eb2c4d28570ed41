//! Reference counts of realtime subscriptions, kept in key order.
use vstd::prelude::*;

use crate::text::{chars_of, owned};

verus! {

/// Strict lexicographic order of texts, character by character (the order
/// of `String`'s `Ord`).
pub open spec fn text_lt(a: Seq<char>, b: Seq<char>) -> bool
    decreases a.len(),
{
    if b.len() == 0 {
        false
    } else if a.len() == 0 {
        true
    } else if a[0] < b[0] {
        true
    } else if a[0] == b[0] {
        text_lt(a.drop_first(), b.drop_first())
    } else {
        false
    }
}

pub proof fn lemma_text_lt_irreflexive(a: Seq<char>)
    ensures
        !text_lt(a, a),
    decreases a.len(),
{
    if a.len() > 0 {
        lemma_text_lt_irreflexive(a.drop_first());
    }
}

pub proof fn lemma_text_lt_transitive(a: Seq<char>, b: Seq<char>, c: Seq<char>)
    requires
        text_lt(a, b),
        text_lt(b, c),
    ensures
        text_lt(a, c),
    decreases a.len(),
{
    if a.len() > 0 && b.len() > 0 && c.len() > 0 && a[0] == b[0] && b[0] == c[0] {
        lemma_text_lt_transitive(a.drop_first(), b.drop_first(), c.drop_first());
    }
}

pub proof fn lemma_text_lt_total(a: Seq<char>, b: Seq<char>)
    ensures
        a == b || text_lt(a, b) || text_lt(b, a),
    decreases a.len(),
{
    if a.len() > 0 && b.len() > 0 && a[0] == b[0] {
        lemma_text_lt_total(a.drop_first(), b.drop_first());
        if a.drop_first() == b.drop_first() {
            assert(a =~= seq![a[0]] + a.drop_first());
            assert(b =~= seq![b[0]] + b.drop_first());
        }
    } else if a.len() == 0 && b.len() == 0 {
        assert(a =~= b);
    }
}

pub proof fn lemma_text_lt_asymmetric(a: Seq<char>, b: Seq<char>)
    requires
        text_lt(a, b),
    ensures
        !text_lt(b, a),
        a != b,
{
    if text_lt(b, a) {
        lemma_text_lt_transitive(a, b, a);
        lemma_text_lt_irreflexive(a);
    }
    if a == b {
        lemma_text_lt_irreflexive(a);
    }
}

/// How two texts compare.
pub enum TextOrder {
    Less,
    Equal,
    Greater,
}

/// Compares two texts in lexicographic order.
pub fn compare_text(a: &Vec<char>, b: &Vec<char>) -> (r: TextOrder)
    ensures
        r is Less <==> text_lt(a@, b@),
        r is Equal <==> a@ == b@,
        r is Greater <==> text_lt(b@, a@),
{
    let mut i: usize = 0;
    assert(a@.skip(0) =~= a@);
    assert(b@.skip(0) =~= b@);
    while i < a.len() && i < b.len()
        invariant
            i <= a@.len(),
            i <= b@.len(),
            a@.subrange(0, i as int) == b@.subrange(0, i as int),
            text_lt(a@, b@) == text_lt(a@.skip(i as int), b@.skip(i as int)),
            text_lt(b@, a@) == text_lt(b@.skip(i as int), a@.skip(i as int)),
        decreases a.len() - i,
    {
        if a[i] != b[i] {
            assert(a@.skip(i as int)[0] == a@[i as int]);
            assert(b@.skip(i as int)[0] == b@[i as int]);
            if a[i] < b[i] {
                proof {
                    lemma_text_lt_asymmetric(a@, b@);
                }
                return TextOrder::Less;
            } else {
                proof {
                    lemma_text_lt_asymmetric(b@, a@);
                }
                return TextOrder::Greater;
            }
        }
        assert(a@.skip(i as int).drop_first() =~= a@.skip(i + 1));
        assert(b@.skip(i as int).drop_first() =~= b@.skip(i + 1));
        i = i + 1;
        assert(a@.subrange(0, i as int) =~= b@.subrange(0, i as int));
    }
    if i == a.len() && i == b.len() {
        assert(a@ =~= a@.subrange(0, i as int));
        assert(b@ =~= b@.subrange(0, i as int));
        proof {
            lemma_text_lt_irreflexive(a@);
        }
        TextOrder::Equal
    } else if i == a.len() {
        proof {
            lemma_text_lt_asymmetric(a@, b@);
        }
        TextOrder::Less
    } else {
        proof {
            lemma_text_lt_asymmetric(b@, a@);
        }
        TextOrder::Greater
    }
}

/// Reference counts per key, in increasing key order, each count at least 1.
pub struct RefCounts {
    entries: Vec<(String, usize)>,
}

/// The map a sorted list of counted keys stands for.
pub open spec fn counts_of(entries: Seq<(Seq<char>, nat)>) -> Map<Seq<char>, nat>
    decreases entries.len(),
{
    if entries.len() == 0 {
        Map::empty()
    } else {
        counts_of(entries.drop_last()).insert(entries.last().0, entries.last().1)
    }
}

/// Counts after one more reference to `k`.
pub open spec fn incremented(m: Map<Seq<char>, nat>, k: Seq<char>) -> Map<Seq<char>, nat> {
    if m.contains_key(k) {
        m.insert(k, m[k] + 1)
    } else {
        m.insert(k, 1)
    }
}

/// Counts after one reference to `k` is dropped: a key whose last
/// reference goes disappears, an absent key changes nothing.
pub open spec fn decremented(m: Map<Seq<char>, nat>, k: Seq<char>) -> Map<Seq<char>, nat> {
    if m.contains_key(k) {
        if m[k] > 1 {
            m.insert(k, (m[k] - 1) as nat)
        } else {
            m.remove(k)
        }
    } else {
        m
    }
}

/// `keys` lists the keys of `m`, each once, in increasing order.
pub open spec fn lists_keys(keys: Seq<String>, m: Map<Seq<char>, nat>) -> bool {
    &&& keys.len() == m.dom().len()
    &&& forall|i: int| 0 <= i < keys.len() ==> m.contains_key(#[trigger] keys[i]@)
    &&& forall|k: Seq<char>| m.contains_key(k) ==> exists|i: int| 0 <= i < keys.len() && #[trigger] keys[i]@ == k
    &&& forall|i: int, j: int| 0 <= i < j < keys.len() ==> text_lt(#[trigger] keys[i]@, #[trigger] keys[j]@)
}

/// `entries` lists the keys of `m` with their counts, each key once, in
/// increasing key order.
pub open spec fn lists_counts(entries: Seq<(String, usize)>, m: Map<Seq<char>, nat>) -> bool {
    &&& entries.len() == m.dom().len()
    &&& forall|i: int|
        0 <= i < entries.len() ==> m.contains_key(#[trigger] entries[i].0@) && m[entries[i].0@] == entries[i].1
    &&& forall|k: Seq<char>|
        m.contains_key(k) ==> exists|i: int| 0 <= i < entries.len() && #[trigger] entries[i].0@ == k
    &&& forall|i: int, j: int|
        0 <= i < j < entries.len() ==> text_lt(#[trigger] entries[i].0@, #[trigger] entries[j].0@)
}

impl RefCounts {
    pub closed spec fn pairs(&self) -> Seq<(Seq<char>, nat)> {
        self.entries@.map_values(|e: (String, usize)| (e.0@, e.1 as nat))
    }

    /// The keys, in increasing order.
    pub closed spec fn key_seq(&self) -> Seq<Seq<char>> {
        self.entries@.map_values(|e: (String, usize)| e.0@)
    }

    pub closed spec fn wf(&self) -> bool {
        &&& forall|i: int, j: int|
            0 <= i < j < self.entries@.len() ==> text_lt(
                #[trigger] self.entries@[i].0@,
                #[trigger] self.entries@[j].0@,
            )
        &&& forall|i: int| 0 <= i < self.entries@.len() ==> #[trigger] self.entries@[i].1 >= 1
    }

    /// Whether some entry has key `k`.
    pub closed spec fn holds(&self, k: Seq<char>) -> bool {
        exists|i: int| 0 <= i < self.entries@.len() && (#[trigger] self.entries@[i]).0@ == k
    }

    pub closed spec fn view(&self) -> Map<Seq<char>, nat> {
        counts_of(self.pairs())
    }
}

proof fn lemma_counts_of_lookup(entries: Seq<(Seq<char>, nat)>, k: Seq<char>)
    requires
        forall|i: int, j: int|
            0 <= i < j < entries.len() ==> text_lt(#[trigger] entries[i].0, #[trigger] entries[j].0),
    ensures
        counts_of(entries).contains_key(k) <==> exists|i: int|
            0 <= i < entries.len() && (#[trigger] entries[i]).0 == k,
        forall|i: int|
            0 <= i < entries.len() && (#[trigger] entries[i]).0 == k ==> counts_of(entries)[k]
                == entries[i].1,
    decreases entries.len(),
{
    if entries.len() > 0 {
        let init = entries.drop_last();
        lemma_counts_of_lookup(init, k);
        let n = entries.len() - 1;
        assert forall|i: int| 0 <= i < entries.len() && (#[trigger] entries[i]).0 == k implies counts_of(
            entries,
        )[k] == entries[i].1 by {
            if i < n {
                assert(init[i] == entries[i]);
                if entries.last().0 == k {
                    assert(text_lt(entries[i].0, entries[n].0));
                    lemma_text_lt_irreflexive(k);
                }
            }
        }
        if counts_of(entries).contains_key(k) && entries.last().0 != k {
            let i = choose|i: int| 0 <= i < init.len() && (#[trigger] init[i]).0 == k;
            assert(entries[i] == init[i]);
        }
        if exists|i: int| 0 <= i < entries.len() && (#[trigger] entries[i]).0 == k {
            let i = choose|i: int| 0 <= i < entries.len() && (#[trigger] entries[i]).0 == k;
            if i < n {
                assert(init[i] == entries[i]);
            }
        }
    }
}

impl RefCounts {
    proof fn lemma_lookup(&self, k: Seq<char>)
        requires
            self.wf(),
        ensures
            self@.contains_key(k) <==> exists|i: int|
                0 <= i < self.entries@.len() && (#[trigger] self.entries@[i]).0@ == k,
            forall|i: int|
                0 <= i < self.entries@.len() && (#[trigger] self.entries@[i]).0@ == k ==> self@[k]
                    == self.entries@[i].1,
    {
        let p = self.pairs();
        assert forall|i: int, j: int| 0 <= i < j < p.len() implies text_lt(
            #[trigger] p[i].0,
            #[trigger] p[j].0,
        ) by {
            assert(text_lt(self.entries@[i].0@, self.entries@[j].0@));
        }
        lemma_counts_of_lookup(p, k);
        if self@.contains_key(k) {
            let i = choose|i: int| 0 <= i < p.len() && (#[trigger] p[i]).0 == k;
            assert(self.entries@[i].0@ == k);
        }
        if exists|i: int| 0 <= i < self.entries@.len() && (#[trigger] self.entries@[i]).0@ == k {
            let i = choose|i: int| 0 <= i < self.entries@.len() && (#[trigger] self.entries@[i]).0@ == k;
            assert(p[i].0 == k);
        }
        assert forall|i: int|
            0 <= i < self.entries@.len() && (#[trigger] self.entries@[i]).0@ == k implies self@[k]
            == self.entries@[i].1 by {
            assert(p[i].0 == k);
        }
    }

    /// No counts at all.
    pub fn new() -> (r: RefCounts)
        ensures
            r.wf(),
            r@ == Map::<Seq<char>, nat>::empty(),
    {
        let r = RefCounts { entries: Vec::new() };
        assert(r.pairs() =~= Seq::<(Seq<char>, nat)>::empty());
        r
    }

    /// Position of the first key not below `k`, and whether it is `k`.
    fn locate(&self, k: &Vec<char>) -> (r: (usize, bool))
        requires
            self.wf(),
        ensures
            r.0 <= self.entries@.len(),
            forall|i: int| 0 <= i < r.0 ==> text_lt(#[trigger] self.entries@[i].0@, k@),
            r.1 ==> r.0 < self.entries@.len() && self.entries@[r.0 as int].0@ == k@,
            !r.1 ==> forall|i: int|
                r.0 <= i < self.entries@.len() ==> text_lt(k@, #[trigger] self.entries@[i].0@),
    {
        let mut i: usize = 0;
        while i < self.entries.len()
            invariant
                self.wf(),
                i <= self.entries@.len(),
                forall|m: int| 0 <= m < i ==> text_lt(#[trigger] self.entries@[m].0@, k@),
            decreases self.entries.len() - i,
        {
            let key = chars_of(self.entries[i].0.as_str());
            match compare_text(&key, k) {
                TextOrder::Less => {},
                TextOrder::Equal => {
                    return (i, true);
                },
                TextOrder::Greater => {
                    assert forall|m: int| i <= m < self.entries@.len() implies text_lt(
                        k@,
                        #[trigger] self.entries@[m].0@,
                    ) by {
                        if m > i {
                            lemma_text_lt_transitive(k@, self.entries@[i as int].0@, self.entries@[m].0@);
                        }
                    }
                    return (i, false);
                },
            }
            i = i + 1;
        }
        (i, false)
    }

    /// The number of references to `key` (0 when it has none).
    pub fn count(&self, key: &str) -> (c: usize)
        requires
            self.wf(),
        ensures
            c == (if self@.contains_key(key@) {
                self@[key@]
            } else {
                0
            }),
    {
        let k = chars_of(key);
        let (i, found) = self.locate(&k);
        proof {
            self.lemma_lookup(key@);
            if !found && self@.contains_key(key@) {
                let j = choose|j: int|
                    0 <= j < self.entries@.len() && (#[trigger] self.entries@[j]).0@ == key@;
                if j < i {
                    lemma_text_lt_irreflexive(key@);
                } else {
                    lemma_text_lt_irreflexive(key@);
                }
            }
        }
        if found {
            self.entries[i].1
        } else {
            0
        }
    }

    /// Whether `key` has a reference.
    pub fn contains_key(&self, key: &str) -> (b: bool)
        requires
            self.wf(),
        ensures
            b == self@.contains_key(key@),
    {
        let c = self.count(key);
        proof {
            if self@.contains_key(key@) {
                self.lemma_lookup(key@);
                let j = choose|j: int|
                    0 <= j < self.entries@.len() && (#[trigger] self.entries@[j]).0@ == key@;
                assert(self.entries@[j].1 >= 1);
            }
        }
        c > 0
    }

    /// How many keys have a reference.
    pub fn len(&self) -> (n: usize)
        requires
            self.wf(),
        ensures
            n == self@.dom().len(),
    {
        proof {
            self.lemma_dom_len();
        }
        self.entries.len()
    }

    /// Whether no key has a reference.
    pub fn is_empty(&self) -> (b: bool)
        requires
            self.wf(),
        ensures
            b == (self@.dom() == Set::<Seq<char>>::empty()),
    {
        proof {
            if self.entries@.len() > 0 {
                self.lemma_lookup(self.entries@[0].0@);
                assert(self@.dom().contains(self.entries@[0].0@));
            } else {
                assert(self.pairs() =~= Seq::<(Seq<char>, nat)>::empty());
                assert(self@.dom() =~= Set::<Seq<char>>::empty());
            }
        }
        self.entries.len() == 0
    }

    /// The keys with a reference, in increasing order.
    pub fn keys(&self) -> (out: Vec<String>)
        requires
            self.wf(),
        ensures
            out@.len() == self@.dom().len(),
            forall|i: int| 0 <= i < out@.len() ==> self@.contains_key(#[trigger] out@[i]@),
            forall|k: Seq<char>|
                self@.contains_key(k) ==> exists|i: int| 0 <= i < out@.len() && #[trigger] out@[i]@ == k,
            forall|i: int, j: int| 0 <= i < j < out@.len() ==> text_lt(#[trigger] out@[i]@, #[trigger] out@[j]@),
            out@.map_values(|s: String| s@) == self.key_seq(),
            lists_keys(out@, self@),
    {
        let mut out: Vec<String> = Vec::new();
        let mut i: usize = 0;
        while i < self.entries.len()
            invariant
                self.wf(),
                i <= self.entries@.len(),
                out@.len() == i,
                forall|m: int| 0 <= m < i ==> (#[trigger] out@[m])@ == self.entries@[m].0@,
            decreases self.entries.len() - i,
        {
            out.push(self.entries[i].0.clone());
            i = i + 1;
        }
        proof {
            assert forall|m: int| 0 <= m < out@.len() implies self@.contains_key(#[trigger] out@[m]@) by {
                self.lemma_lookup(out@[m]@);
            }
            assert forall|k: Seq<char>| self@.contains_key(k) implies exists|m: int|
                0 <= m < out@.len() && #[trigger] out@[m]@ == k by {
                self.lemma_lookup(k);
                let m = choose|m: int| 0 <= m < self.entries@.len() && (#[trigger] self.entries@[m]).0@ == k;
                assert(out@[m]@ == k);
            }
            assert forall|a: int, b: int| 0 <= a < b < out@.len() implies text_lt(#[trigger] out@[a]@, #[trigger] out@[b]@) by {
                assert(text_lt(self.entries@[a].0@, self.entries@[b].0@));
            }
            self.lemma_dom_len();
            assert(out@.map_values(|s: String| s@) =~= self.key_seq());
        }
        out
    }

    /// Every key with its count, in increasing key order.
    pub fn ref_counts(&self) -> (out: Vec<(String, usize)>)
        requires
            self.wf(),
        ensures
            lists_counts(out@, self@),
    {
        let mut out: Vec<(String, usize)> = Vec::new();
        let mut i: usize = 0;
        while i < self.entries.len()
            invariant
                self.wf(),
                i <= self.entries@.len(),
                out@.len() == i,
                forall|m: int|
                    0 <= m < i ==> (#[trigger] out@[m]).0@ == self.entries@[m].0@ && out@[m].1
                        == self.entries@[m].1,
            decreases self.entries.len() - i,
        {
            let (key, count) = (self.entries[i].0.clone(), self.entries[i].1);
            out.push((key, count));
            i = i + 1;
        }
        proof {
            assert forall|m: int| 0 <= m < out@.len() implies self@.contains_key(#[trigger] out@[m].0@)
                && self@[out@[m].0@] == out@[m].1 by {
                self.lemma_lookup(out@[m].0@);
            }
            assert forall|k: Seq<char>| self@.contains_key(k) implies exists|m: int|
                0 <= m < out@.len() && #[trigger] out@[m].0@ == k by {
                self.lemma_lookup(k);
                let m = choose|m: int| 0 <= m < self.entries@.len() && (#[trigger] self.entries@[m]).0@ == k;
                assert(out@[m].0@ == k);
            }
            assert forall|a: int, b: int| 0 <= a < b < out@.len() implies text_lt(
                #[trigger] out@[a].0@,
                #[trigger] out@[b].0@,
            ) by {
                assert(text_lt(self.entries@[a].0@, self.entries@[b].0@));
            }
            self.lemma_dom_len();
        }
        out
    }

    /// A well-formed list stands for `target` when they agree on which keys
    /// are present and on every entry's count.
    proof fn lemma_view_is(&self, target: Map<Seq<char>, nat>)
        requires
            self.wf(),
            forall|x: Seq<char>| #[trigger] target.contains_key(x) <==> self.holds(x),
            forall|i: int|
                0 <= i < self.entries@.len() ==> target[(#[trigger] self.entries@[i]).0@]
                    == self.entries@[i].1,
        ensures
            self@ == target,
    {
        assert forall|x: Seq<char>| #[trigger] self@.contains_key(x) <==> target.contains_key(x) by {
            self.lemma_lookup(x);
        }
        assert forall|x: Seq<char>| self@.contains_key(x) implies self@[x] == target[x] by {
            self.lemma_lookup(x);
            let i = choose|i: int| 0 <= i < self.entries@.len() && (#[trigger] self.entries@[i]).0@ == x;
        }
        assert(self@ =~= target);
    }

    /// Adds one reference to `key`.
    pub fn increment(&mut self, key: &str)
        requires
            old(self).wf(),
            !old(self)@.contains_key(key@) || old(self)@[key@] < usize::MAX,
        ensures
            final(self).wf(),
            final(self)@ == incremented(old(self)@, key@),
    {
        let k = chars_of(key);
        let (i, found) = self.locate(&k);
        let ghost pre = *self;
        proof {
            pre.lemma_lookup(key@);
        }
        if found {
            let c = self.entries[i].1;
            let name = self.entries[i].0.clone();
            self.entries.set(i, (name, c + 1));
            proof {
                assert forall|x: Seq<char>| #[trigger] incremented(pre@, key@).contains_key(x) <==> self.holds(x) by {
                    pre.lemma_lookup(x);
                    if pre.holds(x) {
                        let j = choose|j: int| 0 <= j < pre.entries@.len() && (#[trigger] pre.entries@[j]).0@ == x;
                        assert(self.entries@[j].0@ == x);
                    }
                    if self.holds(x) {
                        let j = choose|j: int| 0 <= j < self.entries@.len() && (#[trigger] self.entries@[j]).0@ == x;
                        assert(pre.entries@[j].0@ == x);
                    }
                }
                assert forall|j: int| 0 <= j < self.entries@.len() implies incremented(pre@, key@)[(#[trigger] self.entries@[j]).0@] == self.entries@[j].1 by {
                    pre.lemma_lookup(self.entries@[j].0@);
                    assert(pre.entries@[j].0@ == self.entries@[j].0@);
                    if j < i {
                        lemma_text_lt_asymmetric(pre.entries@[j].0@, pre.entries@[i as int].0@);
                    } else if j > i {
                        lemma_text_lt_asymmetric(pre.entries@[i as int].0@, pre.entries@[j].0@);
                    }
                }
                self.lemma_view_is(incremented(pre@, key@));
            }
        } else {
            let name = owned(key);
            self.entries.insert(i, (name, 1));
            proof {
                assert forall|a: int, b: int| 0 <= a < b < self.entries@.len() implies text_lt(
                    #[trigger] self.entries@[a].0@,
                    #[trigger] self.entries@[b].0@,
                ) by {
                    if b < i {
                        assert(text_lt(pre.entries@[a].0@, pre.entries@[b].0@));
                    } else if b == i {
                        assert(text_lt(pre.entries@[a].0@, key@));
                    } else if a == i {
                        assert(text_lt(key@, pre.entries@[b - 1].0@));
                    } else if a < i {
                        assert(text_lt(pre.entries@[a].0@, pre.entries@[b - 1].0@));
                    } else {
                        assert(text_lt(pre.entries@[a - 1].0@, pre.entries@[b - 1].0@));
                    }
                }
                assert(!pre@.contains_key(key@)) by {
                    if pre.holds(key@) {
                        let j = choose|j: int| 0 <= j < pre.entries@.len() && (#[trigger] pre.entries@[j]).0@ == key@;
                        lemma_text_lt_irreflexive(key@);
                    }
                }
                assert forall|x: Seq<char>| #[trigger] incremented(pre@, key@).contains_key(x) <==> self.holds(x) by {
                    pre.lemma_lookup(x);
                    if pre.holds(x) {
                        let j = choose|j: int| 0 <= j < pre.entries@.len() && (#[trigger] pre.entries@[j]).0@ == x;
                        if j < i {
                            assert(self.entries@[j].0@ == x);
                        } else {
                            assert(self.entries@[j + 1].0@ == x);
                        }
                    }
                    if x == key@ {
                        assert(self.entries@[i as int].0@ == x);
                    }
                    if self.holds(x) {
                        let j = choose|j: int| 0 <= j < self.entries@.len() && (#[trigger] self.entries@[j]).0@ == x;
                        if j < i {
                            assert(pre.entries@[j].0@ == x);
                        } else if j > i {
                            assert(pre.entries@[j - 1].0@ == x);
                        }
                    }
                }
                assert forall|j: int| 0 <= j < self.entries@.len() implies incremented(pre@, key@)[(#[trigger] self.entries@[j]).0@] == self.entries@[j].1 by {
                    if j < i {
                        pre.lemma_lookup(self.entries@[j].0@);
                        assert(pre.entries@[j].0@ == self.entries@[j].0@);
                        assert(text_lt(pre.entries@[j].0@, key@));
                        lemma_text_lt_irreflexive(key@);
                    } else if j > i {
                        pre.lemma_lookup(self.entries@[j].0@);
                        assert(pre.entries@[j - 1].0@ == self.entries@[j].0@);
                        assert(text_lt(key@, pre.entries@[j - 1].0@));
                        lemma_text_lt_irreflexive(key@);
                    }
                }
                self.lemma_view_is(incremented(pre@, key@));
            }
        }
    }

    /// Drops one reference to `key`; the key goes when its last reference
    /// does, and an unknown key changes nothing.
    pub fn decrement(&mut self, key: &str)
        requires
            old(self).wf(),
        ensures
            final(self).wf(),
            final(self)@ == decremented(old(self)@, key@),
    {
        let k = chars_of(key);
        let (i, found) = self.locate(&k);
        let ghost pre = *self;
        proof {
            pre.lemma_lookup(key@);
        }
        if !found {
            proof {
                assert(!pre@.contains_key(key@)) by {
                    if pre.holds(key@) {
                        let j = choose|j: int| 0 <= j < pre.entries@.len() && (#[trigger] pre.entries@[j]).0@ == key@;
                        lemma_text_lt_irreflexive(key@);
                    }
                }
            }
            return;
        }
        let c = self.entries[i].1;
        if c > 1 {
            let name = self.entries[i].0.clone();
            self.entries.set(i, (name, c - 1));
            proof {
                assert forall|x: Seq<char>| #[trigger] decremented(pre@, key@).contains_key(x) <==> self.holds(x) by {
                    pre.lemma_lookup(x);
                    if pre.holds(x) {
                        let j = choose|j: int| 0 <= j < pre.entries@.len() && (#[trigger] pre.entries@[j]).0@ == x;
                        assert(self.entries@[j].0@ == x);
                    }
                    if self.holds(x) {
                        let j = choose|j: int| 0 <= j < self.entries@.len() && (#[trigger] self.entries@[j]).0@ == x;
                        assert(pre.entries@[j].0@ == x);
                    }
                }
                assert forall|j: int| 0 <= j < self.entries@.len() implies decremented(pre@, key@)[(#[trigger] self.entries@[j]).0@] == self.entries@[j].1 by {
                    pre.lemma_lookup(self.entries@[j].0@);
                    assert(pre.entries@[j].0@ == self.entries@[j].0@);
                    if j < i {
                        lemma_text_lt_asymmetric(pre.entries@[j].0@, pre.entries@[i as int].0@);
                    } else if j > i {
                        lemma_text_lt_asymmetric(pre.entries@[i as int].0@, pre.entries@[j].0@);
                    }
                }
                self.lemma_view_is(decremented(pre@, key@));
            }
        } else {
            self.entries.remove(i);
            proof {
                assert forall|a: int, b: int| 0 <= a < b < self.entries@.len() implies text_lt(
                    #[trigger] self.entries@[a].0@,
                    #[trigger] self.entries@[b].0@,
                ) by {
                    if b < i {
                        assert(text_lt(pre.entries@[a].0@, pre.entries@[b].0@));
                    } else if a < i {
                        assert(text_lt(pre.entries@[a].0@, pre.entries@[b + 1].0@));
                    } else {
                        assert(text_lt(pre.entries@[a + 1].0@, pre.entries@[b + 1].0@));
                    }
                }
                assert forall|x: Seq<char>| #[trigger] decremented(pre@, key@).contains_key(x) <==> self.holds(x) by {
                    pre.lemma_lookup(x);
                    if pre.holds(x) && x != key@ {
                        let j = choose|j: int| 0 <= j < pre.entries@.len() && (#[trigger] pre.entries@[j]).0@ == x;
                        if j < i {
                            assert(self.entries@[j].0@ == x);
                        } else {
                            assert(j != i);
                            assert(self.entries@[j - 1].0@ == x);
                        }
                    }
                    if self.holds(x) {
                        let j = choose|j: int| 0 <= j < self.entries@.len() && (#[trigger] self.entries@[j]).0@ == x;
                        if j < i {
                            assert(pre.entries@[j].0@ == x);
                            assert(text_lt(pre.entries@[j].0@, pre.entries@[i as int].0@));
                            lemma_text_lt_irreflexive(x);
                        } else {
                            assert(pre.entries@[j + 1].0@ == x);
                            assert(text_lt(pre.entries@[i as int].0@, pre.entries@[j + 1].0@));
                            lemma_text_lt_irreflexive(x);
                        }
                    }
                }
                assert forall|j: int| 0 <= j < self.entries@.len() implies decremented(pre@, key@)[(#[trigger] self.entries@[j]).0@] == self.entries@[j].1 by {
                    if j < i {
                        pre.lemma_lookup(self.entries@[j].0@);
                        assert(pre.entries@[j].0@ == self.entries@[j].0@);
                        assert(text_lt(pre.entries@[j].0@, pre.entries@[i as int].0@));
                        lemma_text_lt_irreflexive(key@);
                    } else {
                        pre.lemma_lookup(self.entries@[j].0@);
                        assert(pre.entries@[j + 1].0@ == self.entries@[j].0@);
                        assert(text_lt(pre.entries@[i as int].0@, pre.entries@[j + 1].0@));
                        lemma_text_lt_irreflexive(key@);
                    }
                }
                self.lemma_view_is(decremented(pre@, key@));
            }
        }
    }

    proof fn lemma_dom_len(&self)
        requires
            self.wf(),
        ensures
            self@.dom().len() == self.entries@.len(),
            self@.dom().finite(),
    {
        lemma_counts_of_len(self.pairs());
    }
}

proof fn lemma_counts_of_len(entries: Seq<(Seq<char>, nat)>)
    requires
        forall|i: int, j: int|
            0 <= i < j < entries.len() ==> text_lt(#[trigger] entries[i].0, #[trigger] entries[j].0),
    ensures
        counts_of(entries).dom().finite(),
        counts_of(entries).dom().len() == entries.len(),
    decreases entries.len(),
{
    if entries.len() > 0 {
        let init = entries.drop_last();
        lemma_counts_of_len(init);
        lemma_counts_of_lookup(init, entries.last().0);
        if counts_of(init).contains_key(entries.last().0) {
            let i = choose|i: int| 0 <= i < init.len() && (#[trigger] init[i]).0 == entries.last().0;
            assert(text_lt(entries[i].0, entries[entries.len() - 1].0));
            lemma_text_lt_irreflexive(entries.last().0);
        }
    }
}

} // verus!

verus! {

/// Drops one reference to `key`, removing the key with its last reference.
pub fn decrement_ref(map: &mut RefCounts, key: &str)
    requires
        old(map).wf(),
    ensures
        final(map).wf(),
        final(map)@ == decremented(old(map)@, key@),
{
    map.decrement(key);
}

/// Adds one reference to `key`.
pub fn increment_ref(map: &mut RefCounts, key: &str)
    requires
        old(map).wf(),
        !old(map)@.contains_key(key@) || old(map)@[key@] < usize::MAX,
    ensures
        final(map).wf(),
        final(map)@ == incremented(old(map)@, key@),
{
    map.increment(key);
}

/// Whether every count is at least one, as in every `RefCounts`.
pub open spec fn counts_positive(m: Map<Seq<char>, nat>) -> bool {
    forall|k: Seq<char>| #[trigger] m.contains_key(k) ==> m[k] >= 1
}

/// Unsubscribing right after subscribing leaves the counts as they were.
pub proof fn lemma_increment_then_decrement(m: Map<Seq<char>, nat>, k: Seq<char>)
    requires
        counts_positive(m),
    ensures
        decremented(incremented(m, k), k) == m,
{
    if m.contains_key(k) {
        assert(decremented(incremented(m, k), k) =~= m);
    } else {
        assert(decremented(incremented(m, k), k) =~= m);
    }
}

/// How many references `m` holds for `k` (none when `k` is absent).
pub open spec fn count_of(m: Map<Seq<char>, nat>, k: Seq<char>) -> nat {
    if m.contains_key(k) {
        m[k]
    } else {
        0
    }
}

/// How often `k` occurs in `ks`.
pub open spec fn occurrences(ks: Seq<Seq<char>>, k: Seq<char>) -> nat
    decreases ks.len(),
{
    if ks.len() == 0 {
        0
    } else {
        occurrences(ks.drop_last(), k) + if ks.last() == k {
            1nat
        } else {
            0nat
        }
    }
}

/// Counts after one more reference to each of `ks`, in order.
pub open spec fn increment_all(m: Map<Seq<char>, nat>, ks: Seq<Seq<char>>) -> Map<Seq<char>, nat>
    decreases ks.len(),
{
    if ks.len() == 0 {
        m
    } else {
        incremented(increment_all(m, ks.drop_last()), ks.last())
    }
}

/// Counts after one reference to each of `ks` is dropped, in order.
pub open spec fn decrement_all(m: Map<Seq<char>, nat>, ks: Seq<Seq<char>>) -> Map<Seq<char>, nat>
    decreases ks.len(),
{
    if ks.len() == 0 {
        m
    } else {
        decremented(decrement_all(m, ks.drop_last()), ks.last())
    }
}

proof fn lemma_increment_all_counts(m: Map<Seq<char>, nat>, ks: Seq<Seq<char>>)
    requires
        counts_positive(m),
    ensures
        counts_positive(increment_all(m, ks)),
        forall|k: Seq<char>| #[trigger] count_of(increment_all(m, ks), k) == count_of(m, k) + occurrences(ks, k),
    decreases ks.len(),
{
    if ks.len() > 0 {
        lemma_increment_all_counts(m, ks.drop_last());
        let prev = increment_all(m, ks.drop_last());
        assert forall|k: Seq<char>| #[trigger] count_of(increment_all(m, ks), k) == count_of(m, k) + occurrences(ks, k) by {
            assert(count_of(prev, k) == count_of(m, k) + occurrences(ks.drop_last(), k));
        }
    }
}

proof fn lemma_decrement_all_counts(m: Map<Seq<char>, nat>, ks: Seq<Seq<char>>)
    requires
        counts_positive(m),
        forall|k: Seq<char>| #[trigger] count_of(m, k) >= occurrences(ks, k),
    ensures
        counts_positive(decrement_all(m, ks)),
        forall|k: Seq<char>| #[trigger] count_of(decrement_all(m, ks), k) == count_of(m, k) - occurrences(ks, k),
    decreases ks.len(),
{
    if ks.len() > 0 {
        let init = ks.drop_last();
        assert forall|k: Seq<char>| #[trigger] count_of(m, k) >= occurrences(init, k) by {
            assert(count_of(m, k) >= occurrences(ks, k));
        }
        lemma_decrement_all_counts(m, init);
        let prev = decrement_all(m, init);
        let l = ks.last();
        assert(count_of(m, l) >= occurrences(ks, l));
        assert(count_of(prev, l) >= 1);
        assert forall|k: Seq<char>| #[trigger] count_of(decrement_all(m, ks), k) == count_of(m, k) - occurrences(ks, k) by {
            assert(count_of(prev, k) == count_of(m, k) - occurrences(init, k));
            assert(count_of(m, k) >= occurrences(ks, k));
        }
    }
}

/// Dropping references to the keys just added, one for each addition,
/// leaves the counts as they were: a batch of subscriptions released
/// again does not touch the references held by anyone else.
pub proof fn lemma_increment_all_then_decrement_all(m: Map<Seq<char>, nat>, ks: Seq<Seq<char>>)
    requires
        counts_positive(m),
    ensures
        decrement_all(increment_all(m, ks), ks) == m,
{
    lemma_increment_all_counts(m, ks);
    let up = increment_all(m, ks);
    lemma_decrement_all_counts(up, ks);
    let down = decrement_all(up, ks);
    assert forall|k: Seq<char>| #[trigger] down.contains_key(k) <==> m.contains_key(k) by {
        assert(count_of(down, k) == count_of(up, k) - occurrences(ks, k));
        assert(count_of(up, k) == count_of(m, k) + occurrences(ks, k));
    }
    assert forall|k: Seq<char>| down.contains_key(k) implies down[k] == m[k] by {
        assert(count_of(down, k) == count_of(up, k) - occurrences(ks, k));
        assert(count_of(up, k) == count_of(m, k) + occurrences(ks, k));
    }
    assert(down =~= m);
}

/// A well-formed `RefCounts` has only positive counts.
pub proof fn lemma_counts_positive(r: &RefCounts)
    requires
        r.wf(),
    ensures
        counts_positive(r@),
{
    assert forall|k: Seq<char>| #[trigger] r@.contains_key(k) implies r@[k] >= 1 by {
        r.lemma_lookup(k);
        let i = choose|i: int| 0 <= i < r.entries@.len() && (#[trigger] r.entries@[i]).0@ == k;
    }
}

} // verus!
