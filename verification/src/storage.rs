//! Planning of the SQLite schema migrations.
//!
//! The database is inspected elsewhere; here a snapshot of which tables
//! and columns exist decides which additive columns and which conditional
//! indexes are to be created.
use vstd::prelude::*;

use crate::text::{owned, push_char, str_eq, chars_of};

verus! {

/// A column added to an existing table when it is missing.
#[derive(Clone, Copy, Debug)]
pub struct AddColumnMigration {
    pub table: &'static str,
    pub column: &'static str,
    pub statement: &'static str,
}

/// An index created once its table and all of its columns exist.
#[derive(Debug)]
pub struct ConditionalIndex {
    pub table: &'static str,
    pub columns: Vec<&'static str>,
    pub statement: &'static str,
}

/// One table of the database and its columns.
pub struct TableColumns {
    pub name: String,
    pub columns: Vec<String>,
}

/// Which tables and columns the database has.
pub struct SchemaSnapshot {
    pub tables: Vec<TableColumns>,
}

impl SchemaSnapshot {
    pub open spec fn has_table(&self, t: Seq<char>) -> bool {
        exists|i: int| 0 <= i < self.tables@.len() && (#[trigger] self.tables@[i]).name@ == t
    }

    pub open spec fn has_column(&self, t: Seq<char>, c: Seq<char>) -> bool {
        exists|i: int, j: int|
            0 <= i < self.tables@.len() && (#[trigger] self.tables@[i]).name@ == t && 0 <= j
                < self.tables@[i].columns@.len() && (#[trigger] self.tables@[i].columns@[j])@ == c
    }

    /// Whether the table exists.
    pub fn table_exists(&self, table: &str) -> (b: bool)
        ensures
            b == self.has_table(table@),
    {
        let mut i: usize = 0;
        while i < self.tables.len()
            invariant
                i <= self.tables@.len(),
                forall|k: int| 0 <= k < i ==> (#[trigger] self.tables@[k]).name@ != table@,
            decreases self.tables.len() - i,
        {
            if str_eq(self.tables[i].name.as_str(), table) {
                return true;
            }
            i = i + 1;
        }
        false
    }

    /// Whether the table exists and has the column.
    pub fn column_exists(&self, table: &str, column: &str) -> (b: bool)
        ensures
            b == self.has_column(table@, column@),
    {
        let mut i: usize = 0;
        while i < self.tables.len()
            invariant
                i <= self.tables@.len(),
                forall|k: int, j: int|
                    0 <= k < i && (#[trigger] self.tables@[k]).name@ == table@ && 0 <= j
                        < self.tables@[k].columns@.len() ==> (#[trigger] self.tables@[k].columns@[j])@
                        != column@,
            decreases self.tables.len() - i,
        {
            if str_eq(self.tables[i].name.as_str(), table) {
                let cols = &self.tables[i].columns;
                let mut j: usize = 0;
                while j < cols.len()
                    invariant
                        j <= cols@.len(),
                        i < self.tables@.len(),
                        self.tables@[i as int].name@ == table@,
                        cols@ == self.tables@[i as int].columns@,
                        forall|m: int| 0 <= m < j ==> (#[trigger] cols@[m])@ != column@,
                    decreases cols.len() - j,
                {
                    if str_eq(cols[j].as_str(), column) {
                        assert(self.tables@[i as int].columns@[j as int]@ == column@);
                        return true;
                    }
                    j = j + 1;
                }
            }
            i = i + 1;
        }
        false
    }
}

/// Whether an additive column is due: its table exists without it.
pub open spec fn column_due(s: &SchemaSnapshot, m: AddColumnMigration) -> bool {
    s.has_table(m.table@) && !s.has_column(m.table@, m.column@)
}

/// Whether a conditional index can be created: its table and every column
/// of it exist.
pub open spec fn index_ready(s: &SchemaSnapshot, x: ConditionalIndex) -> bool {
    s.has_table(x.table@) && forall|j: int|
        0 <= j < x.columns@.len() ==> s.has_column(x.table@, (#[trigger] x.columns@[j])@)
}

/// The positions in `0..n` at which `p` holds, in increasing order.
pub open spec fn positions(n: nat, p: spec_fn(int) -> bool) -> Seq<nat>
    decreases n,
{
    if n == 0 {
        Seq::empty()
    } else if p(n - 1) {
        positions((n - 1) as nat, p).push((n - 1) as nat)
    } else {
        positions((n - 1) as nat, p)
    }
}

pub open spec fn index_view(v: Seq<usize>) -> Seq<nat> {
    v.map_values(|i: usize| i as nat)
}

/// Which additive-column migrations to run, by position, in order.
pub fn plan_additive_columns(schema: &SchemaSnapshot, migrations: &[AddColumnMigration]) -> (plan: Vec<
    usize,
>)
    ensures
        index_view(plan@) == positions(
            migrations@.len(),
            |i: int| column_due(schema, migrations@[i]),
        ),
{
    let ghost p = |i: int| column_due(schema, migrations@[i]);
    let mut plan: Vec<usize> = Vec::new();
    let mut i: usize = 0;
    assert(index_view(plan@) =~= positions(0, p));
    while i < migrations.len()
        invariant
            i <= migrations@.len(),
            p == (|i: int| column_due(schema, migrations@[i])),
            index_view(plan@) == positions(i as nat, p),
        decreases migrations.len() - i,
    {
        let m = migrations[i];
        let due = schema.table_exists(m.table) && !schema.column_exists(m.table, m.column);
        assert(due == p(i as int));
        let ghost before = index_view(plan@);
        if due {
            plan.push(i);
            assert(index_view(plan@) =~= before.push(i as nat));
        }
        i = i + 1;
    }
    plan
}

fn all_columns_exist(schema: &SchemaSnapshot, x: &ConditionalIndex) -> (b: bool)
    ensures
        b == (forall|j: int|
            0 <= j < x.columns@.len() ==> schema.has_column(x.table@, (#[trigger] x.columns@[j])@)),
{
    let mut j: usize = 0;
    while j < x.columns.len()
        invariant
            j <= x.columns@.len(),
            forall|k: int| 0 <= k < j ==> schema.has_column(x.table@, (#[trigger] x.columns@[k])@),
        decreases x.columns.len() - j,
    {
        if !schema.column_exists(x.table, x.columns[j]) {
            return false;
        }
        j = j + 1;
    }
    true
}

/// Which conditional indexes to create, by position, in order.
pub fn plan_conditional_indexes(schema: &SchemaSnapshot, indexes: &[ConditionalIndex]) -> (plan: Vec<
    usize,
>)
    ensures
        index_view(plan@) == positions(indexes@.len(), |i: int| index_ready(schema, indexes@[i])),
{
    let ghost p = |i: int| index_ready(schema, indexes@[i]);
    let mut plan: Vec<usize> = Vec::new();
    let mut i: usize = 0;
    assert(index_view(plan@) =~= positions(0, p));
    while i < indexes.len()
        invariant
            i <= indexes@.len(),
            p == (|i: int| index_ready(schema, indexes@[i])),
            index_view(plan@) == positions(i as nat, p),
        decreases indexes.len() - i,
    {
        let ready = schema.table_exists(indexes[i].table) && all_columns_exist(schema, &indexes[i]);
        assert(ready == p(i as int));
        let ghost before = index_view(plan@);
        if ready {
            plan.push(i);
            assert(index_view(plan@) =~= before.push(i as nat));
        }
        i = i + 1;
    }
    plan
}

/// Adds the columns of the planned migrations to the snapshot, as running
/// them does to the database.
pub fn record_added_columns(schema: &mut SchemaSnapshot, migrations: &[AddColumnMigration], plan: &[usize])
    requires
        forall|k: int| 0 <= k < plan@.len() ==> (#[trigger] plan@[k]) < migrations@.len(),
        forall|k: int|
            0 <= k < plan@.len() ==> old(schema).has_table(migrations@[(#[trigger] plan@[k]) as int].table@),
    ensures
        forall|t: Seq<char>| #[trigger] final(schema).has_table(t) == old(schema).has_table(t),
        forall|t: Seq<char>, c: Seq<char>|
            #[trigger] final(schema).has_column(t, c) <==> (old(schema).has_column(t, c) || exists|k: int|
                0 <= k < plan@.len() && migrations@[(#[trigger] plan@[k]) as int].table@ == t
                    && migrations@[plan@[k] as int].column@ == c),
{
    let mut k: usize = 0;
    while k < plan.len()
        invariant
            k <= plan@.len(),
            forall|m: int| 0 <= m < plan@.len() ==> (#[trigger] plan@[m]) < migrations@.len(),
            forall|m: int|
                0 <= m < plan@.len() ==> old(schema).has_table(migrations@[(#[trigger] plan@[m]) as int].table@),
            forall|t: Seq<char>| #[trigger] schema.has_table(t) == old(schema).has_table(t),
            forall|t: Seq<char>, c: Seq<char>|
                #[trigger] schema.has_column(t, c) <==> (old(schema).has_column(t, c) || exists|m: int|
                    0 <= m < k && migrations@[(#[trigger] plan@[m]) as int].table@ == t
                        && migrations@[plan@[m] as int].column@ == c),
        decreases plan.len() - k,
    {
        let m = migrations[plan[k]];
        add_column(schema, m.table, m.column);
        proof {
            assert forall|t: Seq<char>, c: Seq<char>|
                #[trigger] schema.has_column(t, c) <==> (old(schema).has_column(t, c) || exists|n: int|
                    0 <= n < k + 1 && migrations@[(#[trigger] plan@[n]) as int].table@ == t
                        && migrations@[plan@[n] as int].column@ == c) by {
                if t == m.table@ && c == m.column@ {
                    assert(migrations@[plan@[k as int] as int].table@ == t);
                }
                if exists|n: int|
                    0 <= n < k + 1 && migrations@[(#[trigger] plan@[n]) as int].table@ == t
                        && migrations@[plan@[n] as int].column@ == c {
                    let n = choose|n: int|
                        0 <= n < k + 1 && migrations@[(#[trigger] plan@[n]) as int].table@ == t
                            && migrations@[plan@[n] as int].column@ == c;
                    if n < k {
                    }
                }
            }
        }
        k = k + 1;
    }
}

/// Adds one column to an existing table of the snapshot.
fn add_column(schema: &mut SchemaSnapshot, table: &str, column: &str)
    requires
        old(schema).has_table(table@),
    ensures
        forall|t: Seq<char>| #[trigger] final(schema).has_table(t) == old(schema).has_table(t),
        forall|t: Seq<char>, c: Seq<char>|
            #[trigger] final(schema).has_column(t, c) <==> (old(schema).has_column(t, c) || (t
                == table@ && c == column@)),
{
    let mut i: usize = 0;
    while i < schema.tables.len() && !str_eq(schema.tables[i].name.as_str(), table)
        invariant
            i <= schema.tables@.len(),
            schema.has_table(table@),
            forall|k: int| 0 <= k < i ==> (#[trigger] schema.tables@[k]).name@ != table@,
        decreases schema.tables.len() - i,
    {
        i = i + 1;
    }
    if i == schema.tables.len() {
        proof {
            let w = choose|w: int|
                0 <= w < schema.tables@.len() && (#[trigger] schema.tables@[w]).name@ == table@;
            assert(schema.tables@[w].name@ != table@);
        }
        return;
    }
    let ghost pre = schema.tables@;
    let mut entry = schema.tables.remove(i);
    entry.columns.push(owned(column));
    schema.tables.insert(i, entry);
    proof {
        assert(schema.tables@ =~= pre.update(i as int, schema.tables@[i as int]));
        assert forall|t: Seq<char>| #[trigger] schema.has_table(t) == old(schema).has_table(t) by {
            if old(schema).has_table(t) {
                let w = choose|w: int| 0 <= w < pre.len() && (#[trigger] pre[w]).name@ == t;
                assert(schema.tables@[w].name@ == t);
            }
            if schema.has_table(t) {
                let w = choose|w: int| 0 <= w < schema.tables@.len() && (#[trigger] schema.tables@[w]).name@ == t;
                assert(pre[w].name@ == t);
            }
        }
        assert forall|t: Seq<char>, c: Seq<char>|
            #[trigger] schema.has_column(t, c) <==> (old(schema).has_column(t, c) || (t == table@ && c
                == column@)) by {
            if old(schema).has_column(t, c) {
                let (w, j) = choose|w: int, j: int|
                    0 <= w < pre.len() && (#[trigger] pre[w]).name@ == t && 0 <= j
                        < pre[w].columns@.len() && (#[trigger] pre[w].columns@[j])@ == c;
                assert(schema.tables@[w].name@ == t);
                assert(schema.tables@[w].columns@[j]@ == c);
            }
            if t == table@ && c == column@ {
                let last = schema.tables@[i as int].columns@.len() - 1;
                assert(schema.tables@[i as int].columns@[last]@ == c);
            }
            if schema.has_column(t, c) {
                let (w, j) = choose|w: int, j: int|
                    0 <= w < schema.tables@.len() && (#[trigger] schema.tables@[w]).name@ == t && 0
                        <= j < schema.tables@[w].columns@.len()
                        && (#[trigger] schema.tables@[w].columns@[j])@ == c;
                if w != i {
                    assert(pre[w] == schema.tables@[w]);
                } else if j < pre[w].columns@.len() {
                    assert(pre[w].columns@[j] == schema.tables@[w].columns@[j]);
                }
            }
        }
    }
}

/// Once the planned additive columns are in, planning again finds nothing
/// to add: every migration's column is either present or has no table.
pub proof fn lemma_additive_plan_settles(
    before: &SchemaSnapshot,
    after: &SchemaSnapshot,
    migrations: Seq<AddColumnMigration>,
    plan: Seq<nat>,
)
    requires
        plan == positions(migrations.len(), |i: int| column_due(before, migrations[i])),
        forall|t: Seq<char>| #[trigger] after.has_table(t) == before.has_table(t),
        forall|t: Seq<char>, c: Seq<char>|
            #[trigger] after.has_column(t, c) <==> (before.has_column(t, c) || exists|k: int|
                0 <= k < plan.len() && migrations[(#[trigger] plan[k]) as int].table@ == t
                    && migrations[plan[k] as int].column@ == c),
    ensures
        forall|i: int| 0 <= i < migrations.len() ==> !column_due(after, #[trigger] migrations[i]),
{
    assert forall|i: int| 0 <= i < migrations.len() implies !column_due(after, #[trigger] migrations[i]) by {
        let m = migrations[i];
        if column_due(before, m) {
            let k = lemma_position_listed(migrations.len(), |i: int| column_due(before, migrations[i]), i);
            assert(migrations[plan[k] as int].table@ == m.table@);
            assert(after.has_column(m.table@, m.column@));
        }
    }
}

/// A position at which the predicate holds is listed.
pub proof fn lemma_position_listed(n: nat, p: spec_fn(int) -> bool, i: int) -> (k: int)
    requires
        0 <= i < n,
        p(i),
    ensures
        0 <= k < positions(n, p).len(),
        positions(n, p)[k] == i,
    decreases n,
{
    if i == n - 1 {
        (positions(n, p).len() - 1) as int
    } else {
        let k = lemma_position_listed((n - 1) as nat, p, i);
        if p(n - 1) {
            assert(positions(n, p) == positions((n - 1) as nat, p).push((n - 1) as nat));
        }
        k
    }
}

/// The identifier in double quotes, each quote inside doubled.
pub open spec fn quoted_identifier(s: Seq<char>) -> Seq<char> {
    seq!['"'] + escaped_quotes(s) + seq!['"']
}

pub open spec fn escaped_quotes(s: Seq<char>) -> Seq<char>
    decreases s.len(),
{
    if s.len() == 0 {
        Seq::empty()
    } else if s.last() == '"' {
        escaped_quotes(s.drop_last()) + seq!['"', '"']
    } else {
        escaped_quotes(s.drop_last()).push(s.last())
    }
}

/// The text with each doubled quote read back as one, from left to right.
pub open spec fn unescaped_quotes(t: Seq<char>) -> Seq<char>
    decreases t.len(),
{
    if t.len() == 0 {
        Seq::empty()
    } else if t.len() >= 2 && t[0] == '"' && t[1] == '"' {
        seq!['"'] + unescaped_quotes(t.subrange(2, t.len() as int))
    } else {
        seq![t[0]] + unescaped_quotes(t.subrange(1, t.len() as int))
    }
}

/// How many double quotes a text holds.
pub open spec fn quote_count(t: Seq<char>) -> nat
    decreases t.len(),
{
    if t.len() == 0 {
        0
    } else {
        quote_count(t.drop_last()) + if t.last() == '"' {
            1nat
        } else {
            0nat
        }
    }
}

proof fn lemma_escaped_concat(a: Seq<char>, b: Seq<char>)
    ensures
        escaped_quotes(a + b) == escaped_quotes(a) + escaped_quotes(b),
    decreases b.len(),
{
    if b.len() == 0 {
        assert(a + b =~= a);
        assert(escaped_quotes(a) + escaped_quotes(b) =~= escaped_quotes(a));
    } else {
        lemma_escaped_concat(a, b.drop_last());
        assert((a + b).drop_last() =~= a + b.drop_last());
        assert((a + b).last() == b.last());
        if b.last() == '"' {
            assert(escaped_quotes(a + b) =~= escaped_quotes(a) + escaped_quotes(b));
        } else {
            assert(escaped_quotes(a + b) =~= escaped_quotes(a) + escaped_quotes(b));
        }
    }
}

proof fn lemma_quote_count_concat(a: Seq<char>, b: Seq<char>)
    ensures
        quote_count(a + b) == quote_count(a) + quote_count(b),
    decreases b.len(),
{
    if b.len() == 0 {
        assert(a + b =~= a);
    } else {
        lemma_quote_count_concat(a, b.drop_last());
        assert((a + b).drop_last() =~= a + b.drop_last());
    }
}

proof fn lemma_escaped_single(c: char)
    ensures
        escaped_quotes(seq![c]) == (if c == '"' {
            seq!['"', '"']
        } else {
            seq![c]
        }),
{
    let x = seq![c];
    assert(x.drop_last() =~= Seq::<char>::empty());
    assert(escaped_quotes(Seq::<char>::empty()) == Seq::<char>::empty());
    assert(x.last() == c);
    if c == '"' {
        assert(Seq::<char>::empty() + seq!['"', '"'] =~= seq!['"', '"']);
    } else {
        assert(Seq::<char>::empty().push(c) =~= seq![c]);
    }
}

proof fn lemma_quote_count_small()
    ensures
        quote_count(seq!['"']) == 1,
        quote_count(seq!['"', '"']) == 2,
{
    let one = seq!['"'];
    let two = seq!['"', '"'];
    assert(one.drop_last() =~= Seq::<char>::empty());
    assert(quote_count(Seq::<char>::empty()) == 0);
    assert(quote_count(one) == 1);
    assert(two.drop_last() =~= one);
    assert(quote_count(two) == 2);
}

proof fn lemma_unescape_escaped(s: Seq<char>)
    ensures
        unescaped_quotes(escaped_quotes(s)) == s,
    decreases s.len(),
{
    if s.len() > 0 {
        let c = s[0];
        let rest = s.subrange(1, s.len() as int);
        assert(s =~= seq![c] + rest);
        lemma_escaped_concat(seq![c], rest);
        let e = escaped_quotes(rest);
        lemma_unescape_escaped(rest);
        lemma_escaped_single(c);
        let t = escaped_quotes(s);
        if c == '"' {
            assert(t =~= seq!['"', '"'] + e);
            assert(t.subrange(2, t.len() as int) =~= e);
        } else {
            assert(t =~= seq![c] + e);
            assert(t.subrange(1, t.len() as int) =~= e);
        }
        assert(seq![c] + rest =~= s);
    }
}

proof fn lemma_escaped_quote_count(s: Seq<char>)
    ensures
        quote_count(escaped_quotes(s)) == 2 * quote_count(s),
    decreases s.len(),
{
    if s.len() > 0 {
        lemma_escaped_quote_count(s.drop_last());
        let e = escaped_quotes(s.drop_last());
        lemma_quote_count_small();
        if s.last() == '"' {
            lemma_quote_count_concat(e, seq!['"', '"']);
        } else {
            assert(e.push(s.last()).drop_last() =~= e);
            assert(e.push(s.last()).last() == s.last());
        }
    }
}

/// A quoted identifier reads back as the identifier: its text between the
/// outer quotes, with each doubled quote read as one, is the identifier; and
/// it holds two quotes for each quote of the identifier and the two outer
/// ones, so no quote of the identifier ends the quoted name early.
pub proof fn lemma_quote_identifier_round_trip(s: Seq<char>)
    ensures
        ({
            let q = quoted_identifier(s);
            &&& unescaped_quotes(q.subrange(1, q.len() - 1)) == s
            &&& quote_count(q) == 2 + 2 * quote_count(s)
        }),
{
    let q = quoted_identifier(s);
    let e = escaped_quotes(s);
    assert(q.subrange(1, q.len() - 1) =~= e);
    lemma_unescape_escaped(s);
    lemma_escaped_quote_count(s);
    lemma_quote_count_concat(seq!['"'], e);
    lemma_quote_count_concat(seq!['"'] + e, seq!['"']);
    lemma_quote_count_small();
}

/// Quotes an SQLite identifier.
pub fn quote_identifier(identifier: &str) -> (out: String)
    ensures
        out@ == quoted_identifier(identifier@),
{
    let cs = chars_of(identifier);
    let mut out = String::new();
    push_char(&mut out, '"');
    let mut i: usize = 0;
    while i < cs.len()
        invariant
            i <= cs@.len(),
            cs@ == identifier@,
            out@ == seq!['"'] + escaped_quotes(cs@.subrange(0, i as int)),
        decreases cs.len() - i,
    {
        let ghost next = cs@.subrange(0, i as int + 1);
        assert(next.drop_last() =~= cs@.subrange(0, i as int));
        let c = cs[i];
        push_char(&mut out, c);
        if c == '"' {
            push_char(&mut out, '"');
        }
        i = i + 1;
        assert(out@ =~= seq!['"'] + escaped_quotes(cs@.subrange(0, i as int)));
    }
    push_char(&mut out, '"');
    assert(cs@.subrange(0, i as int) =~= identifier@);
    out
}

/// What a series' sync record holds before a realtime candle is written:
/// its oldest and newest candle times and how many candles it counts.
#[derive(Clone, Copy, Debug, PartialEq, Eq, Structural)]
pub struct SyncRecordSpan {
    pub oldest_timestamp: Option<i64>,
    pub newest_timestamp: Option<i64>,
    pub candle_count: i64,
}

/// Whether a sync record may be updated in place after a confirmed realtime
/// candle at `timestamp` was written (`inserted` when it was a new row): the
/// record must exist with both ends and a positive count, and a candle that
/// replaced an existing row must lie within its span. Otherwise the record
/// is rebuilt from the stored candles.
pub open spec fn sync_record_incrementable(record: Option<SyncRecordSpan>, inserted: bool, timestamp: i64) -> bool {
    match record {
        Some(r) => match (r.oldest_timestamp, r.newest_timestamp) {
            (Some(oldest), Some(newest)) => r.candle_count > 0 && (inserted || (oldest <= timestamp
                && timestamp <= newest)),
            _ => false,
        },
        None => false,
    }
}

/// Decides whether a sync record may be updated in place after a confirmed
/// realtime candle was written.
pub fn realtime_sync_can_increment(record: Option<SyncRecordSpan>, inserted: bool, timestamp: i64) -> (b: bool)
    ensures
        b == sync_record_incrementable(record, inserted, timestamp),
{
    match record {
        Some(r) => match (r.oldest_timestamp, r.newest_timestamp) {
            (Some(oldest), Some(newest)) => r.candle_count > 0 && (inserted || (timestamp >= oldest
                && timestamp <= newest)),
            _ => false,
        },
        None => false,
    }
}

} // verus!
