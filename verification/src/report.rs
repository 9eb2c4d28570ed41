//! The checks a backtest report's detail passes before the report is
//! stored: every generated field present, each of the right JSON kind.
use vstd::prelude::*;

use crate::error::{AppError, AppResult};
use crate::risk_params::{key_position, ParamValue};
use crate::text::{append_str, owned};

verus! {

/// The JSON kind a detail field must have.
#[derive(Clone, Copy, Debug, PartialEq, Eq, Structural)]
pub enum DetailKind {
    Array,
    Object,
    Bool,
    /// A non-negative integer.
    Unsigned,
}

/// Whether a value is of the kind.
pub open spec fn kind_ok(v: ParamValue, kind: DetailKind) -> bool {
    match kind {
        DetailKind::Array => v is List,
        DetailKind::Object => v is Object,
        DetailKind::Bool => v is Bool,
        DetailKind::Unsigned => v matches ParamValue::Number(Some(_)),
    }
}

fn kind_ok_exec(v: &ParamValue, kind: DetailKind) -> (b: bool)
    ensures
        b == kind_ok(*v, kind),
{
    match kind {
        DetailKind::Array => matches!(v, ParamValue::List(_)),
        DetailKind::Object => matches!(v, ParamValue::Object(_)),
        DetailKind::Bool => matches!(v, ParamValue::Bool(_)),
        DetailKind::Unsigned => matches!(v, ParamValue::Number(Some(_))),
    }
}

/// The fields of a report's detail in the order they are checked: the key,
/// its kind, and what the error calls the kind.
pub open spec fn detail_checks() -> Seq<(Seq<char>, DetailKind, Seq<char>)> {
    seq![
        ("trade_cashflows"@, DetailKind::Array, " JSON 数组"@),
        ("trade_cashflows_total"@, DetailKind::Unsigned, "非负整数"@),
        ("equity_curve_sampled"@, DetailKind::Bool, " 布尔值"@),
        ("equity_points_total"@, DetailKind::Unsigned, "非负整数"@),
        ("candles"@, DetailKind::Array, " JSON 数组"@),
        ("equity_curve"@, DetailKind::Array, " JSON 数组"@),
        ("trades"@, DetailKind::Array, " JSON 数组"@),
        ("trade_events_total"@, DetailKind::Unsigned, "非负整数"@),
        ("trades_truncated"@, DetailKind::Bool, "布尔值"@),
        ("indicators"@, DetailKind::Object, " JSON 对象"@),
        ("strategy_actions"@, DetailKind::Array, " JSON 数组"@),
        ("strategy_diagnostics"@, DetailKind::Object, " JSON 对象"@),
    ]
}

/// The first check the detail entries fail, as its error text.
pub open spec fn detail_error(
    entries: Seq<(String, ParamValue)>,
    checks: Seq<(Seq<char>, DetailKind, Seq<char>)>,
) -> Option<Seq<char>>
    decreases checks.len(),
{
    if checks.len() == 0 {
        None
    } else {
        let (key, kind, expected) = checks[0];
        match key_position(entries, key) {
            None => Some("backtest report detail 缺少 "@ + key),
            Some(i) => if kind_ok(entries[i].1, kind) {
                detail_error(entries, checks.drop_first())
            } else {
                Some("backtest report detail."@ + key + " 不是"@ + expected)
            },
        }
    }
}

/// Why a report's detail is refused, if it is: it must be an object
/// holding every generated field with the right kind.
pub open spec fn report_detail_error(detail: ParamValue) -> Option<Seq<char>> {
    match detail {
        ParamValue::Object(entries) => detail_error(entries@, detail_checks()),
        _ => Some("backtest report detail 不是 JSON 对象"@),
    }
}

/// Checks a report's detail: an object holding every generated field
/// (trade cash flows and their total, the equity curve, whether it was
/// sampled and its point count, candles, trades, the trade event count,
/// whether trades were truncated, indicators, strategy actions and
/// diagnostics), each of its kind.
pub fn validate_report_detail(detail: &ParamValue) -> (r: AppResult<()>)
    ensures
        match report_detail_error(*detail) {
            None => r is Ok,
            Some(e) => r matches Err(x) && x.message() == e,
        },
        r matches Err(x) ==> x is Runtime,
{
    let entries = match detail {
        ParamValue::Object(entries) => entries,
        _ => return Err(AppError::Runtime(owned("backtest report detail 不是 JSON 对象"))),
    };
    let checks: [(&str, DetailKind, &str); 12] = [
        ("trade_cashflows", DetailKind::Array, " JSON 数组"),
        ("trade_cashflows_total", DetailKind::Unsigned, "非负整数"),
        ("equity_curve_sampled", DetailKind::Bool, " 布尔值"),
        ("equity_points_total", DetailKind::Unsigned, "非负整数"),
        ("candles", DetailKind::Array, " JSON 数组"),
        ("equity_curve", DetailKind::Array, " JSON 数组"),
        ("trades", DetailKind::Array, " JSON 数组"),
        ("trade_events_total", DetailKind::Unsigned, "非负整数"),
        ("trades_truncated", DetailKind::Bool, "布尔值"),
        ("indicators", DetailKind::Object, " JSON 对象"),
        ("strategy_actions", DetailKind::Array, " JSON 数组"),
        ("strategy_diagnostics", DetailKind::Object, " JSON 对象"),
    ];
    let ghost all = checks@.map_values(|c: (&str, DetailKind, &str)| (c.0@, c.1, c.2@));
    assert(all =~= detail_checks());
    assert(all.subrange(0, all.len() as int) =~= all);
    let mut i: usize = 0;
    while i < 12
        invariant
            i <= 12,
            checks@.len() == 12,
            all == checks@.map_values(|c: (&str, DetailKind, &str)| (c.0@, c.1, c.2@)),
            *detail == ParamValue::Object(*entries),
            report_detail_error(*detail) == detail_error(entries@, all.subrange(i as int, all.len() as int)),
        decreases 12 - i,
    {
        let ghost rest = all.subrange(i as int, all.len() as int);
        assert(rest[0] == all[i as int]);
        assert(rest.drop_first() =~= all.subrange(i as int + 1, all.len() as int));
        let (key, kind, expected) = checks[i];
        match detail.get(key) {
            None => {
                let mut msg = owned("backtest report detail 缺少 ");
                append_str(&mut msg, key);
                return Err(AppError::Runtime(msg));
            },
            Some(v) => {
                if !kind_ok_exec(v, kind) {
                    let mut msg = owned("backtest report detail.");
                    append_str(&mut msg, key);
                    append_str(&mut msg, " 不是");
                    append_str(&mut msg, expected);
                    return Err(AppError::Runtime(msg));
                }
            },
        }
        i = i + 1;
    }
    assert(all.subrange(12, 12) =~= Seq::<(Seq<char>, DetailKind, Seq<char>)>::empty());
    Ok(())
}

} // verus!
