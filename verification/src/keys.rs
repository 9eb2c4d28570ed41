//! Instrument, timeframe and channel keys of the realtime feeds.
use vstd::prelude::*;

use crate::error::{text_outcome, validation, AppError, AppResult};
use crate::text::{
    append_str, chars_of, find_char, first_index_of, has_prefix, is_ascii_alnum, is_ws, owned,
    push_char, str_eq, string_of, to_unicode_uppercase, trim_back, trim_front, trim_owned, trimmed,
    unicode_upper,
};

verus! {

/// The only order-book channel the realtime feed offers.
pub const DEFAULT_ORDERBOOK_CHANNEL: &'static str = "books5";

pub open spec fn books5() -> Seq<char> {
    "books5"@
}

pub open spec fn candle_prefix() -> Seq<char> {
    seq!['c', 'a', 'n', 'd', 'l', 'e']
}

pub open spec fn key_separator() -> char {
    '|'
}

pub open spec fn msg_inst_id_empty() -> Seq<char> {
    "inst_id 不能为空"@
}

pub open spec fn msg_inst_id_format() -> Seq<char> {
    "inst_id 必须是 OKX 交易对格式，例如 BTC-USDT"@
}

pub open spec fn msg_orderbook_channel() -> Seq<char> {
    "盘口实时通道当前仅支持 OKX books5"@
}

pub open spec fn msg_timeframe_empty() -> Seq<char> {
    "timeframe 不能为空"@
}

pub open spec fn msg_timeframe_format() -> Seq<char> {
    "timeframe 必须是 OKX K 线周期，例如 1m、5m、1H、1D"@
}

/// Whether an upper-cased instrument id is accepted: it must not be empty
/// and must hold a `-`.
pub open spec fn inst_id_check(n: Seq<char>) -> Result<Seq<char>, Seq<char>> {
    if n.len() == 0 {
        Err(msg_inst_id_empty())
    } else if !n.contains('-') {
        Err(msg_inst_id_format())
    } else {
        Ok(n)
    }
}

/// What `normalize_inst_id` makes of a text.
pub open spec fn inst_id_outcome(value: Seq<char>) -> Result<Seq<char>, Seq<char>> {
    inst_id_check(unicode_upper(trimmed(value)))
}

/// What `normalize_orderbook_channel` makes of a text.
pub open spec fn orderbook_channel_outcome(value: Seq<char>) -> Result<Seq<char>, Seq<char>> {
    let t = trimmed(value);
    if t.len() == 0 {
        Ok(books5())
    } else if t != books5() {
        Err(msg_orderbook_channel())
    } else {
        Ok(t)
    }
}

/// The timeframe named by a text: trimmed, without a leading `candle`.
pub open spec fn timeframe_body(value: Seq<char>) -> Seq<char> {
    let t = trimmed(value);
    if has_prefix(t, candle_prefix()) {
        t.skip(6)
    } else {
        t
    }
}

/// Whether every character is an ASCII letter or digit.
pub open spec fn all_ascii_alnum(s: Seq<char>) -> bool {
    forall|i: int| 0 <= i < s.len() ==> is_ascii_alnum(#[trigger] s[i])
}

/// What `normalize_timeframe` makes of a text.
pub open spec fn timeframe_outcome(value: Seq<char>) -> Result<Seq<char>, Seq<char>> {
    let b = timeframe_body(value);
    if b.len() == 0 {
        Err(msg_timeframe_empty())
    } else if !all_ascii_alnum(b) {
        Err(msg_timeframe_format())
    } else {
        Ok(b)
    }
}

/// Two parts joined by the key separator.
pub open spec fn joined_key(a: Seq<char>, b: Seq<char>) -> Seq<char> {
    a + seq![key_separator()] + b
}

/// A key split at its first separator, when both parts are non-empty.
pub open spec fn split_key(key: Seq<char>) -> Option<(Seq<char>, Seq<char>)> {
    match first_index_of(key, key_separator()) {
        None => None,
        Some(k) => {
            let a = key.subrange(0, k);
            let b = key.subrange(k + 1, key.len() as int);
            if a.len() == 0 || b.len() == 0 {
                None
            } else {
                Some((a, b))
            }
        },
    }
}

pub open spec fn pair_view(r: Option<(String, String)>) -> Option<(Seq<char>, Seq<char>)> {
    match r {
        None => None,
        Some((a, b)) => Some((a@, b@)),
    }
}

/// Trims and upper-cases an OKX instrument id, which must hold a `-`.
pub fn normalize_inst_id(value: &str) -> (r: AppResult<String>)
    ensures
        text_outcome(r) == inst_id_outcome(value@),
        r matches Err(e) ==> e is Validation,
{
    let t = trim_owned(value);
    let normalized = to_unicode_uppercase(t.as_str());
    validate_inst_id(normalized)
}

/// Accepts an instrument id already trimmed and upper-cased when it is not
/// empty and holds a `-`.
pub fn validate_inst_id(normalized: String) -> (r: AppResult<String>)
    ensures
        text_outcome(r) == inst_id_check(normalized@),
        r matches Err(e) ==> e is Validation,
{
    let cs = chars_of(normalized.as_str());
    if cs.len() == 0 {
        return Err(validation("inst_id 不能为空"));
    }
    match find_char(&cs, '-') {
        None => {
            proof {
                if normalized@.contains('-') {
                    let k = choose|k: int| 0 <= k < normalized@.len() && normalized@[k] == '-';
                    assert(cs@[k] != '-');
                }
            }
            Err(validation("inst_id 必须是 OKX 交易对格式，例如 BTC-USDT"))
        },
        Some(k) => {
            assert(normalized@[k as int] == '-');
            Ok(normalized)
        },
    }
}

/// Trims an order-book channel; an empty one means `books5`, any other
/// channel is rejected.
pub fn normalize_orderbook_channel(value: &str) -> (r: AppResult<String>)
    ensures
        text_outcome(r) == orderbook_channel_outcome(value@),
        r matches Err(e) ==> e is Validation,
{
    let t = trim_owned(value);
    let cs = chars_of(t.as_str());
    if cs.len() == 0 {
        return Ok(owned("books5"));
    }
    if !str_eq(t.as_str(), "books5") {
        return Err(validation("盘口实时通道当前仅支持 OKX books5"));
    }
    Ok(t)
}

/// Whether `cs` begins with `candle`.
fn starts_with_candle(cs: &Vec<char>) -> (b: bool)
    ensures
        b == has_prefix(cs@, candle_prefix()),
{
    if cs.len() < 6 {
        return false;
    }
    let r = cs[0] == 'c' && cs[1] == 'a' && cs[2] == 'n' && cs[3] == 'd' && cs[4] == 'l' && cs[5]
        == 'e';
    if r {
        assert(cs@.subrange(0, 6) =~= candle_prefix());
    } else {
        assert(cs@.subrange(0, 6) != candle_prefix()) by {
            let p = cs@.subrange(0, 6);
            assert(p[0] != 'c' || p[1] != 'a' || p[2] != 'n' || p[3] != 'd' || p[4] != 'l' || p[5]
                != 'e');
        }
    }
    r
}

fn is_alnum_char(c: char) -> (b: bool)
    ensures
        b == is_ascii_alnum(c),
{
    ('0' <= c && c <= '9') || ('a' <= c && c <= 'z') || ('A' <= c && c <= 'Z')
}

/// Trims a candle timeframe and drops a leading `candle`; what remains must
/// be a non-empty run of ASCII letters and digits.
pub fn normalize_timeframe(value: &str) -> (r: AppResult<String>)
    ensures
        text_outcome(r) == timeframe_outcome(value@),
        r matches Err(e) ==> e is Validation,
{
    let t = trim_owned(value);
    let cs = chars_of(t.as_str());
    let start: usize = if starts_with_candle(&cs) {
        6
    } else {
        0
    };
    let ghost body = timeframe_body(value@);
    assert(body =~= cs@.subrange(start as int, cs@.len() as int));
    if start == cs.len() {
        return Err(validation("timeframe 不能为空"));
    }
    let mut i = start;
    while i < cs.len()
        invariant
            start <= i <= cs@.len(),
            body == timeframe_body(value@),
            body == cs@.subrange(start as int, cs@.len() as int),
            forall|k: int| start <= k < i ==> is_ascii_alnum(#[trigger] cs@[k]),
        decreases cs.len() - i,
    {
        if !is_alnum_char(cs[i]) {
            assert(body[i - start] == cs@[i as int]);
            assert(!is_ascii_alnum(body[i - start]));
            assert(!all_ascii_alnum(body));
            return Err(validation("timeframe 必须是 OKX K 线周期，例如 1m、5m、1H、1D"));
        }
        i = i + 1;
    }
    assert(all_ascii_alnum(body)) by {
        assert forall|k: int| 0 <= k < body.len() implies is_ascii_alnum(#[trigger] body[k]) by {
            assert(body[k] == cs@[k + start]);
        }
    }
    Ok(string_of(&cs, start, cs.len()))
}

/// `a|b`.
fn join_with_separator(a: &str, b: &str) -> (out: String)
    ensures
        out@ == joined_key(a@, b@),
{
    let mut out = owned(a);
    push_char(&mut out, '|');
    append_str(&mut out, b);
    out
}

/// The key of a candle subscription: `inst_id|timeframe`.
pub fn candle_key(inst_id: &str, timeframe: &str) -> (out: String)
    ensures
        out@ == joined_key(inst_id@, timeframe@),
{
    join_with_separator(inst_id, timeframe)
}

/// The key of an order-book subscription: `inst_id|channel`.
pub fn orderbook_key(inst_id: &str, channel: &str) -> (out: String)
    ensures
        out@ == joined_key(inst_id@, channel@),
{
    join_with_separator(inst_id, channel)
}

fn split_at_separator(key: &str) -> (r: Option<(String, String)>)
    ensures
        pair_view(r) == split_key(key@),
{
    let cs = chars_of(key);
    let found = find_char(&cs, '|');
    match found {
        None => None,
        Some(k) => {
            assert(k < cs@.len());
            if k == 0 || k == cs.len() - 1 {
                None
            } else {
                Some((string_of(&cs, 0, k), string_of(&cs, k + 1, cs.len())))
            }
        },
    }
}

/// Splits a candle key back into instrument id and timeframe.
pub fn parse_candle_key(key: &str) -> (r: Option<(String, String)>)
    ensures
        pair_view(r) == split_key(key@),
{
    split_at_separator(key)
}

/// Splits an order-book key back into instrument id and channel.
pub fn parse_orderbook_key(key: &str) -> (r: Option<(String, String)>)
    ensures
        pair_view(r) == split_key(key@),
{
    split_at_separator(key)
}

/// The OKX channel name of a candle timeframe: `candle` followed by it.
pub fn candle_channel(timeframe: &str) -> (out: String)
    ensures
        out@ == candle_prefix() + timeframe@,
{
    let mut out = owned("candle");
    proof {
        reveal_strlit("candle");
        assert("candle"@ =~= candle_prefix());
    }
    append_str(&mut out, timeframe);
    out
}

/// The timeframe named by a candle channel.
pub fn timeframe_from_channel(channel: &str) -> (r: AppResult<String>)
    ensures
        text_outcome(r) == timeframe_outcome(channel@),
        r matches Err(e) ==> e is Validation,
{
    normalize_timeframe(channel)
}

/// A key splits back into the two parts it was joined from, when the first
/// part holds no separator and neither part is empty.
pub proof fn lemma_key_round_trip(a: Seq<char>, b: Seq<char>)
    requires
        a.len() > 0,
        b.len() > 0,
        !a.contains(key_separator()),
    ensures
        split_key(joined_key(a, b)) == Some((a, b)),
{
    let key = joined_key(a, b);
    let n = a.len() as int;
    assert(key[n] == key_separator());
    assert forall|m: int| 0 <= m < n implies key[m] != key_separator() by {
        assert(key[m] == a[m]);
    }
    let k = choose|k: int|
        0 <= k < key.len() && key[k] == key_separator() && forall|m: int|
            0 <= m < k ==> key[m] != key_separator();
    assert(k == n);
    assert(key.subrange(0, n) =~= a);
    assert(key.subrange(n + 1, key.len() as int) =~= b);
}

proof fn lemma_trim_front_fixed(s: Seq<char>)
    requires
        s.len() > 0 ==> !is_ws(s[0]),
    ensures
        trim_front(s) == s,
{
}

proof fn lemma_trim_back_fixed(s: Seq<char>)
    requires
        s.len() > 0 ==> !is_ws(s.last()),
    ensures
        trim_back(s) == s,
{
}

/// A timeframe that is already normalised survives the trip through its
/// candle channel name: `timeframe_from_channel(candle_channel(tf))` gives
/// `tf` back.
pub proof fn lemma_channel_round_trip(tf: Seq<char>)
    requires
        tf.len() > 0,
        all_ascii_alnum(tf),
    ensures
        timeframe_outcome(candle_prefix() + tf) == Ok::<Seq<char>, Seq<char>>(tf),
{
    let ch = candle_prefix() + tf;
    assert(ch[0] == 'c');
    assert(ch.last() == tf.last());
    assert(is_ascii_alnum(tf[tf.len() - 1]));
    lemma_trim_front_fixed(ch);
    lemma_trim_back_fixed(ch);
    assert(trimmed(ch) == ch);
    assert(ch.subrange(0, 6) =~= candle_prefix());
    assert(ch.skip(6) =~= tf);
}

/// A normalised timeframe normalises to itself, unless it begins with
/// `candle` (then the prefix is dropped once more).
pub proof fn lemma_timeframe_idempotent(value: Seq<char>)
    requires
        timeframe_outcome(value) is Ok,
        !has_prefix(timeframe_outcome(value)->Ok_0, candle_prefix()),
    ensures
        timeframe_outcome(timeframe_outcome(value)->Ok_0) == timeframe_outcome(value),
{
    let b = timeframe_outcome(value)->Ok_0;
    assert(is_ascii_alnum(b[0]));
    assert(is_ascii_alnum(b[b.len() - 1]));
    lemma_trim_front_fixed(b);
    lemma_trim_back_fixed(b);
}

} // verus!
