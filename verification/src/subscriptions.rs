//! Normalising lists of realtime subscription requests.
use vstd::prelude::*;

use crate::error::{text_outcome, AppError, AppResult};
use crate::keys::{inst_id_outcome, normalize_inst_id, normalize_timeframe, timeframe_outcome};
use crate::text::str_eq;

verus! {

/// The instrument ids a request list stands for: each normalised, first
/// occurrence kept; the first id that fails decides the error.
pub open spec fn inst_ids_outcome(ids: Seq<Seq<char>>) -> Result<Seq<Seq<char>>, Seq<char>>
    decreases ids.len(),
{
    if ids.len() == 0 {
        Ok(Seq::empty())
    } else {
        match inst_ids_outcome(ids.drop_last()) {
            Err(e) => Err(e),
            Ok(acc) => match inst_id_outcome(ids.last()) {
                Err(e) => Err(e),
                Ok(n) => Ok(
                    if acc.contains(n) {
                        acc
                    } else {
                        acc.push(n)
                    },
                ),
            },
        }
    }
}

/// One candle request normalised: the instrument id first, then the
/// timeframe.
pub open spec fn candle_request_outcome(inst_id: Seq<char>, timeframe: Seq<char>) -> Result<
    (Seq<char>, Seq<char>),
    Seq<char>,
> {
    match inst_id_outcome(inst_id) {
        Err(e) => Err(e),
        Ok(i) => match timeframe_outcome(timeframe) {
            Err(e) => Err(e),
            Ok(t) => Ok((i, t)),
        },
    }
}

/// The candle subscriptions a request list stands for: each normalised,
/// first occurrence kept; the first request that fails decides the error.
pub open spec fn candle_requests_outcome(reqs: Seq<(Seq<char>, Seq<char>)>) -> Result<
    Seq<(Seq<char>, Seq<char>)>,
    Seq<char>,
>
    decreases reqs.len(),
{
    if reqs.len() == 0 {
        Ok(Seq::empty())
    } else {
        match candle_requests_outcome(reqs.drop_last()) {
            Err(e) => Err(e),
            Ok(acc) => match candle_request_outcome(reqs.last().0, reqs.last().1) {
                Err(e) => Err(e),
                Ok(n) => Ok(
                    if acc.contains(n) {
                        acc
                    } else {
                        acc.push(n)
                    },
                ),
            },
        }
    }
}

/// Whether no element occurs twice.
pub open spec fn distinct<T>(s: Seq<T>) -> bool {
    forall|i: int, j: int| 0 <= i < j < s.len() ==> s[i] != s[j]
}

pub open spec fn texts_view(v: Seq<String>) -> Seq<Seq<char>> {
    v.map_values(|s: String| s@)
}

pub open spec fn text_pairs_view(v: Seq<(String, String)>) -> Seq<(Seq<char>, Seq<char>)> {
    v.map_values(|p: (String, String)| (p.0@, p.1@))
}

pub open spec fn texts_outcome(r: AppResult<Vec<String>>) -> Result<Seq<Seq<char>>, Seq<char>> {
    match r {
        Ok(v) => Ok(texts_view(v@)),
        Err(e) => Err(e.message()),
    }
}

pub open spec fn text_pairs_outcome(r: AppResult<Vec<(String, String)>>) -> Result<
    Seq<(Seq<char>, Seq<char>)>,
    Seq<char>,
> {
    match r {
        Ok(v) => Ok(text_pairs_view(v@)),
        Err(e) => Err(e.message()),
    }
}

fn contains_text(v: &Vec<String>, s: &String) -> (b: bool)
    ensures
        b == texts_view(v@).contains(s@),
{
    let mut i: usize = 0;
    while i < v.len()
        invariant
            i <= v@.len(),
            forall|k: int| 0 <= k < i ==> v@[k]@ != s@,
        decreases v.len() - i,
    {
        if str_eq(v[i].as_str(), s.as_str()) {
            assert(texts_view(v@)[i as int] == s@);
            return true;
        }
        i = i + 1;
    }
    proof {
        if texts_view(v@).contains(s@) {
            let k = choose|k: int| 0 <= k < texts_view(v@).len() && texts_view(v@)[k] == s@;
            assert(v@[k]@ == s@);
        }
    }
    false
}

fn contains_text_pair(v: &Vec<(String, String)>, a: &String, b: &String) -> (r: bool)
    ensures
        r == text_pairs_view(v@).contains((a@, b@)),
{
    let mut i: usize = 0;
    while i < v.len()
        invariant
            i <= v@.len(),
            forall|k: int| 0 <= k < i ==> (v@[k].0@, v@[k].1@) != (a@, b@),
        decreases v.len() - i,
    {
        if str_eq(v[i].0.as_str(), a.as_str()) && str_eq(v[i].1.as_str(), b.as_str()) {
            assert(text_pairs_view(v@)[i as int] == (a@, b@));
            return true;
        }
        i = i + 1;
    }
    proof {
        if text_pairs_view(v@).contains((a@, b@)) {
            let k = choose|k: int|
                0 <= k < text_pairs_view(v@).len() && text_pairs_view(v@)[k] == (a@, b@);
            assert((v@[k].0@, v@[k].1@) == (a@, b@));
        }
    }
    false
}

/// Normalises a list of instrument ids, dropping repeats.
pub fn normalize_inst_ids(inst_ids: &[String]) -> (r: AppResult<Vec<String>>)
    ensures
        texts_outcome(r) == inst_ids_outcome(texts_view(inst_ids@)),
        r matches Ok(v) ==> distinct(texts_view(v@)),
{
    let mut normalized: Vec<String> = Vec::new();
    let mut i: usize = 0;
    assert(texts_view(normalized@) =~= Seq::<Seq<char>>::empty());
    assert(texts_view(inst_ids@).subrange(0, 0) =~= Seq::<Seq<char>>::empty());
    while i < inst_ids.len()
        invariant
            i <= inst_ids@.len(),
            inst_ids_outcome(texts_view(inst_ids@).subrange(0, i as int)) == Ok::<
                Seq<Seq<char>>,
                Seq<char>,
            >(texts_view(normalized@)),
            distinct(texts_view(normalized@)),
        decreases inst_ids.len() - i,
    {
        let ghost prefix = texts_view(inst_ids@).subrange(0, i as int + 1);
        assert(prefix.drop_last() =~= texts_view(inst_ids@).subrange(0, i as int));
        assert(prefix.last() == inst_ids@[i as int]@);
        let item = normalize_inst_id(inst_ids[i].as_str());
        match item {
            Err(e) => {
                assert(inst_ids_outcome(texts_view(inst_ids@)) == Err::<Seq<Seq<char>>, Seq<char>>(
                    e.message(),
                )) by {
                    lemma_inst_ids_error_persists(texts_view(inst_ids@), i as int + 1);
                }
                return Err(e);
            },
            Ok(n) => {
                if !contains_text(&normalized, &n) {
                    let ghost before = texts_view(normalized@);
                    normalized.push(n);
                    assert(texts_view(normalized@) =~= before.push(n@));
                }
            },
        }
        i = i + 1;
    }
    assert(texts_view(inst_ids@).subrange(0, i as int) =~= texts_view(inst_ids@));
    Ok(normalized)
}

/// Once a prefix of the requests fails, the whole list fails the same way.
proof fn lemma_inst_ids_error_persists(ids: Seq<Seq<char>>, n: int)
    requires
        0 <= n <= ids.len(),
        inst_ids_outcome(ids.subrange(0, n)) is Err,
    ensures
        inst_ids_outcome(ids) == inst_ids_outcome(ids.subrange(0, n)),
    decreases ids.len() - n,
{
    if n < ids.len() {
        let next = ids.subrange(0, n + 1);
        assert(next.drop_last() =~= ids.subrange(0, n));
        lemma_inst_ids_error_persists(ids, n + 1);
    } else {
        assert(ids.subrange(0, n) =~= ids);
    }
}

proof fn lemma_candle_error_persists(reqs: Seq<(Seq<char>, Seq<char>)>, n: int)
    requires
        0 <= n <= reqs.len(),
        candle_requests_outcome(reqs.subrange(0, n)) is Err,
    ensures
        candle_requests_outcome(reqs) == candle_requests_outcome(reqs.subrange(0, n)),
    decreases reqs.len() - n,
{
    if n < reqs.len() {
        let next = reqs.subrange(0, n + 1);
        assert(next.drop_last() =~= reqs.subrange(0, n));
        lemma_candle_error_persists(reqs, n + 1);
    } else {
        assert(reqs.subrange(0, n) =~= reqs);
    }
}

/// Normalises a list of `(inst_id, timeframe)` candle requests, dropping
/// repeats.
pub fn normalize_candle_subscriptions(subscriptions: &[(String, String)]) -> (r: AppResult<
    Vec<(String, String)>,
>)
    ensures
        text_pairs_outcome(r) == candle_requests_outcome(text_pairs_view(subscriptions@)),
        r matches Ok(v) ==> distinct(text_pairs_view(v@)),
{
    let mut normalized: Vec<(String, String)> = Vec::new();
    let mut i: usize = 0;
    assert(text_pairs_view(normalized@) =~= Seq::<(Seq<char>, Seq<char>)>::empty());
    assert(text_pairs_view(subscriptions@).subrange(0, 0) =~= Seq::<(Seq<char>, Seq<char>)>::empty());
    while i < subscriptions.len()
        invariant
            i <= subscriptions@.len(),
            candle_requests_outcome(text_pairs_view(subscriptions@).subrange(0, i as int)) == Ok::<
                Seq<(Seq<char>, Seq<char>)>,
                Seq<char>,
            >(text_pairs_view(normalized@)),
            distinct(text_pairs_view(normalized@)),
        decreases subscriptions.len() - i,
    {
        let ghost all = text_pairs_view(subscriptions@);
        let ghost prefix = all.subrange(0, i as int + 1);
        assert(prefix.drop_last() =~= all.subrange(0, i as int));
        assert(prefix.last() == (subscriptions@[i as int].0@, subscriptions@[i as int].1@));
        let inst = normalize_inst_id(subscriptions[i].0.as_str());
        let inst = match inst {
            Err(e) => {
                proof {
                    lemma_candle_error_persists(all, i as int + 1);
                }
                return Err(e);
            },
            Ok(v) => v,
        };
        let tf = normalize_timeframe(subscriptions[i].1.as_str());
        let tf = match tf {
            Err(e) => {
                proof {
                    lemma_candle_error_persists(all, i as int + 1);
                }
                return Err(e);
            },
            Ok(v) => v,
        };
        if !contains_text_pair(&normalized, &inst, &tf) {
            let ghost before = text_pairs_view(normalized@);
            let ghost item = (inst@, tf@);
            normalized.push((inst, tf));
            assert(text_pairs_view(normalized@) =~= before.push(item));
        }
        i = i + 1;
    }
    assert(text_pairs_view(subscriptions@).subrange(0, i as int) =~= text_pairs_view(
        subscriptions@,
    ));
    Ok(normalized)
}

} // verus!
