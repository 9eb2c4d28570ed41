//! Identity and matching rules of strategy order-management actions,
//! shared by live execution and the backtest.
use vstd::prelude::*;

use crate::orders::joined;
use crate::text::{
    append_str, ascii_lower, ascii_upper, decimal, decimal_text, eq_ignore_ascii_case, is_blank,
    owned, str_eq, trim_lower, trim_owned, trim_upper, trimmed,
};

verus! {

/// Whether a managed order is a plain exchange order or an algo
/// (protective) order.
#[derive(Clone, Copy, Debug, PartialEq, Eq, Structural)]
pub enum OrderManagementTargetClass {
    Exchange,
    Algo,
}

/// The order a cancel action targets.
#[derive(Clone, Copy, Debug)]
pub struct OrderManagementCancelIdentity<'a> {
    pub target_kind: &'a str,
    pub order_id: &'a str,
    pub client_order_id: &'a str,
}

/// The order a modify action targets and what it changes. `new_size` and
/// `new_price` are already in key form (see
/// `normalize_order_management_decimal`) and enter the identity as they are.
#[derive(Clone, Copy, Debug)]
pub struct OrderManagementModifyIdentity<'a> {
    pub target_kind: &'a str,
    pub target_order_type: Option<&'a str>,
    pub order_id: &'a str,
    pub client_order_id: &'a str,
    pub new_size: Option<&'a str>,
    pub new_price: Option<&'a str>,
    pub cancel_on_fail: bool,
}

/// Key form of a text: trimmed and in ASCII lower case.
pub open spec fn key_text(v: Seq<char>) -> Seq<char> {
    ascii_lower(trimmed(v))
}

pub open spec fn opt_str(o: Option<&str>) -> Seq<char> {
    match o {
        Some(s) => s@,
        None => Seq::empty(),
    }
}

pub open spec fn bool_text(b: bool) -> Seq<char> {
    if b {
        "true"@
    } else {
        "false"@
    }
}

/// The text with its trailing `c` characters removed.
pub open spec fn strip_trailing(s: Seq<char>, c: char) -> Seq<char>
    decreases s.len(),
{
    if s.len() > 0 && s.last() == c {
        strip_trailing(s.drop_last(), c)
    } else {
        s
    }
}

/// A fixed-point rendering of a number with its fraction's trailing zeros
/// and then any trailing points removed (`100.000000000000` gives `100`,
/// `101.250000000000` gives `101.25`).
pub open spec fn fraction_trimmed(formatted: Seq<char>) -> Seq<char> {
    strip_trailing(strip_trailing(formatted, '0'), '.')
}

/// Key form of a modify action's size or price, given the text as the
/// strategy wrote it and, where its trimmed text reads as a finite number,
/// that number rendered with twelve decimals (`rendered`): empty for a blank
/// text, the trimmed rendering for a number, the trimmed text otherwise.
pub open spec fn order_management_decimal(value: Seq<char>, rendered: Option<Seq<char>>) -> Seq<char> {
    if trimmed(value).len() == 0 {
        Seq::empty()
    } else {
        match rendered {
            Some(f) => fraction_trimmed(f),
            None => trimmed(value),
        }
    }
}

/// Removes from a fixed-point rendering its trailing zeros, then its
/// trailing points.
pub fn trim_decimal_fraction(formatted: &str) -> (out: String)
    ensures
        out@ == fraction_trimmed(formatted@),
{
    let cs = crate::text::chars_of(formatted);
    let mut j: usize = cs.len();
    assert(cs@.subrange(0, j as int) =~= cs@);
    while j > 0 && cs[j - 1] == '0'
        invariant
            j <= cs@.len(),
            cs@ == formatted@,
            strip_trailing(cs@, '0') == strip_trailing(cs@.subrange(0, j as int), '0'),
        decreases j,
    {
        assert(cs@.subrange(0, j as int).drop_last() =~= cs@.subrange(0, j as int - 1));
        j = j - 1;
    }
    let ghost z = cs@.subrange(0, j as int);
    assert(strip_trailing(z, '0') == z);
    while j > 0 && cs[j - 1] == '.'
        invariant
            j <= cs@.len(),
            cs@ == formatted@,
            strip_trailing(z, '.') == strip_trailing(cs@.subrange(0, j as int), '.'),
        decreases j,
    {
        assert(cs@.subrange(0, j as int).drop_last() =~= cs@.subrange(0, j as int - 1));
        j = j - 1;
    }
    assert(strip_trailing(cs@.subrange(0, j as int), '.') == cs@.subrange(0, j as int));
    crate::text::string_of(&cs, 0, j)
}

/// The key form of a modify action's size or price (see
/// `order_management_decimal`); `rendered` is the trimmed text read as a
/// finite number and rendered with twelve decimals, where it reads as one.
pub fn normalize_order_management_decimal(value: &str, rendered: Option<&str>) -> (out: String)
    ensures
        out@ == order_management_decimal(
            value@,
            match rendered {
                Some(f) => Some(f@),
                None => None,
            },
        ),
{
    if is_blank(value) {
        return String::new();
    }
    match rendered {
        Some(f) => trim_decimal_fraction(f),
        None => trim_owned(value),
    }
}

/// The dedupe identity of a cancel action.
pub open spec fn cancel_identity(c: OrderManagementCancelIdentity) -> Seq<char> {
    "cancel|kind="@ + key_text(c.target_kind@) + "|ord="@ + trimmed(c.order_id@) + "|cl="@
        + trimmed(c.client_order_id@)
}

/// The dedupe identity of a modify action.
pub open spec fn modify_identity(m: OrderManagementModifyIdentity) -> Seq<char> {
    "modify|kind="@ + key_text(m.target_kind@) + "|target_type="@ + key_text(
        opt_str(m.target_order_type),
    ) + "|ord="@ + trimmed(m.order_id@) + "|cl="@ + trimmed(m.client_order_id@)
        + "|new_size="@ + opt_str(m.new_size) + "|new_price="@ + opt_str(m.new_price)
        + "|cancel_on_fail="@ + bool_text(m.cancel_on_fail)
}

/// `value.trim().to_ascii_lowercase()`: how keys are compared.
pub fn normalize_key_text(value: &str) -> (out: String)
    ensures
        out@ == key_text(value@),
{
    trim_lower(value)
}

/// Identity texts are compared trimmed and in ASCII lower case.
pub fn normalize_identity_text(value: &str) -> (out: String)
    ensures
        out@ == key_text(value@),
{
    trim_lower(value)
}

/// Action names are compared trimmed and in ASCII lower case.
pub fn normalize_action_name(value: &str) -> (out: String)
    ensures
        out@ == key_text(value@),
{
    trim_lower(value)
}

pub(crate) fn opt_text<'a>(o: Option<&'a str>) -> (out: &'a str)
    ensures
        out@ == opt_str(o),
{
    match o {
        Some(s) => s,
        None => {
            proof {
                reveal_strlit("");
            }
            ""
        },
    }
}

/// The identity under which a cancel or modify action is deduplicated; a
/// cancel wins over a modify, and with neither there is none.
pub fn order_management_action_identity(
    cancel_order: Option<OrderManagementCancelIdentity>,
    modify_order: Option<OrderManagementModifyIdentity>,
) -> (out: Option<String>)
    ensures
        match cancel_order {
            Some(c) => out matches Some(s) && s@ == cancel_identity(c),
            None => match modify_order {
                Some(m) => out matches Some(s) && s@ == modify_identity(m),
                None => out is None,
            },
        },
{
    if let Some(cancel) = cancel_order {
        let mut out = owned("cancel|kind=");
        append_str(&mut out, normalize_key_text(cancel.target_kind).as_str());
        append_str(&mut out, "|ord=");
        append_str(&mut out, trim_owned(cancel.order_id).as_str());
        append_str(&mut out, "|cl=");
        append_str(&mut out, trim_owned(cancel.client_order_id).as_str());
        return Some(out);
    }
    match modify_order {
        None => None,
        Some(modify) => {
            let mut out = owned("modify|kind=");
            append_str(&mut out, normalize_key_text(modify.target_kind).as_str());
            append_str(&mut out, "|target_type=");
            append_str(&mut out, normalize_key_text(opt_text(modify.target_order_type)).as_str());
            append_str(&mut out, "|ord=");
            append_str(&mut out, trim_owned(modify.order_id).as_str());
            append_str(&mut out, "|cl=");
            append_str(&mut out, trim_owned(modify.client_order_id).as_str());
            append_str(&mut out, "|new_size=");
            append_str(&mut out, opt_text(modify.new_size));
            append_str(&mut out, "|new_price=");
            append_str(&mut out, opt_text(modify.new_price));
            append_str(&mut out, "|cancel_on_fail=");
            if modify.cancel_on_fail {
                append_str(&mut out, "true");
            } else {
                append_str(&mut out, "false");
            }
            Some(out)
        },
    }
}

/// Whether an order is the one a management action names: by a non-blank
/// order id, or else by a non-blank client order id.
pub open spec fn identity_matches(
    order_id: Seq<char>,
    client_order_id: Seq<char>,
    target_order_id: Seq<char>,
    target_client_order_id: Seq<char>,
) -> bool {
    (trimmed(target_order_id).len() > 0 && order_id == target_order_id) || (trimmed(
        target_client_order_id,
    ).len() > 0 && client_order_id == target_client_order_id)
}

/// Whether an order carries the identity a management action names.
pub fn order_management_identity_matches(
    order_id: &str,
    client_order_id: &str,
    target_order_id: &str,
    target_client_order_id: &str,
) -> (b: bool)
    ensures
        b == identity_matches(order_id@, client_order_id@, target_order_id@, target_client_order_id@),
{
    (!is_blank(target_order_id) && str_eq(order_id, target_order_id)) || (!is_blank(
        target_client_order_id,
    ) && str_eq(client_order_id, target_client_order_id))
}

/// Whether an order's symbol is in the scope of the action: any symbol
/// unless the action named one explicitly, then that symbol with ASCII case
/// ignored.
pub open spec fn scope_matches(order_symbol: Seq<char>, action_symbol: Seq<char>, scope_explicit: bool) -> bool {
    !scope_explicit || ascii_lower(order_symbol) == ascii_lower(action_symbol)
}

pub fn order_management_scope_matches(order_symbol: &str, action_symbol: &str, scope_explicit: bool) -> (b: bool)
    ensures
        b == scope_matches(order_symbol@, action_symbol@, scope_explicit),
{
    !scope_explicit || eq_ignore_ascii_case(order_symbol, action_symbol)
}

/// Whether a target kind (`any`, `exchange` or `algo`, in key form) lets an
/// action touch an order of the given class; other kinds touch nothing.
pub open spec fn kind_allows(target_kind: Seq<char>, class: OrderManagementTargetClass) -> bool {
    let k = key_text(target_kind);
    if k == "any"@ {
        true
    } else if k == "exchange"@ {
        class is Exchange
    } else if k == "algo"@ {
        class is Algo
    } else {
        false
    }
}

pub fn order_management_target_kind_allows_class(
    target_kind: &str,
    target_class: OrderManagementTargetClass,
) -> (b: bool)
    ensures
        b == kind_allows(target_kind@, target_class),
{
    let k = normalize_key_text(target_kind);
    if str_eq(k.as_str(), "any") {
        true
    } else if str_eq(k.as_str(), "exchange") {
        target_class == OrderManagementTargetClass::Exchange
    } else if str_eq(k.as_str(), "algo") {
        target_class == OrderManagementTargetClass::Algo
    } else {
        false
    }
}

/// The part of a submission key that tells repeated actions apart: empty
/// for an identified action other than an open, the action's index
/// otherwise.
pub open spec fn index_key(action: Seq<char>, has_identity: bool, action_index: nat) -> Seq<char> {
    if has_identity && key_text(action) != "open_position"@ {
        Seq::empty()
    } else {
        decimal(action_index)
    }
}

pub fn action_index_submission_key(action: &str, action_identity: Option<&str>, action_index: usize) -> (out: String)
    ensures
        out@ == index_key(action@, action_identity is Some, action_index as nat),
{
    if action_identity.is_some() && !str_eq(normalize_action_name(action).as_str(), "open_position") {
        return String::new();
    }
    decimal_text(action_index as u64)
}


/// Target kind `any` touches orders of every class; `exchange` touches only
/// exchange orders and `algo` only algo orders; a kind touches nothing that
/// `any` would not.
pub proof fn lemma_any_kind_allows_every_class(target_kind: Seq<char>, class: OrderManagementTargetClass)
    ensures
        key_text(target_kind) == "any"@ ==> kind_allows(target_kind, OrderManagementTargetClass::Exchange)
            && kind_allows(target_kind, OrderManagementTargetClass::Algo),
        key_text(target_kind) == "exchange"@ ==> (kind_allows(target_kind, class) <==> class is Exchange),
        key_text(target_kind) == "algo"@ ==> (kind_allows(target_kind, class) <==> class is Algo),
        kind_allows(target_kind, class) ==> kind_allows("any"@, class),
        key_text(target_kind) != "any"@ && key_text(target_kind) != "exchange"@ && key_text(target_kind)
            != "algo"@ ==> !kind_allows(target_kind, class),
{
    reveal_strlit("any");
    reveal_strlit("exchange");
    reveal_strlit("algo");
    assert("any"@.len() == 3 && "algo"@.len() == 4 && "exchange"@.len() == 8);
    assert(key_text("any"@) == "any"@) by {
        assert(crate::text::trim_front("any"@) == "any"@);
        assert(crate::text::trim_back("any"@) == "any"@);
        assert(ascii_lower("any"@) =~= "any"@);
    }
}

} // verus!

verus! {

/// A whole number in decimal, with a leading `-` when negative.
pub open spec fn signed_decimal(x: int) -> Seq<char> {
    if x < 0 {
        "-"@ + decimal((-x) as nat)
    } else {
        decimal(x as nat)
    }
}

/// `i64` in decimal.
pub fn signed_decimal_text(x: i64) -> (out: String)
    ensures
        out@ == signed_decimal(x as int),
{
    if x < 0 {
        let magnitude: u64 = ((-(x + 1)) as u64) + 1;
        let mut out = owned("-");
        append_str(&mut out, decimal_text(magnitude).as_str());
        out
    } else {
        decimal_text(x as u64)
    }
}

/// What a strategy action is deduplicated by on submission. `action_price`
/// and `action_position_size` hold the numbers in key form (twelve decimals,
/// trailing zeros and point stripped): the caller renders them, through
/// floating point. `order_type_omits_price` tells whether the order type
/// trades without a price (such as `market`), by the order-type rules.
#[derive(Clone, Copy, Debug)]
pub struct ActionSubmissionKeyInput<'a> {
    pub symbol: &'a str,
    pub action: &'a str,
    pub order_type: &'a str,
    pub action_side: &'a str,
    pub action_price: &'a str,
    pub order_type_omits_price: bool,
    pub action_position_size: Option<&'a str>,
    pub action_timestamp: i64,
    pub order_side: Option<&'a str>,
    pub exchange_size: Option<&'a str>,
    pub planned_exit_timestamp: Option<i64>,
    pub action_identity: Option<&'a str>,
    pub action_index: usize,
}

/// The submission key: twelve fields joined by `|`; the price field is
/// empty for an order type that trades without a price.
pub open spec fn submission_key(i: ActionSubmissionKeyInput) -> Seq<char> {
    ascii_upper(trimmed(i.symbol@)) + "|"@ + signed_decimal(i.action_timestamp as int) + "|"@ + key_text(i.action@)
        + "|"@ + key_text(i.order_type@) + "|"@ + key_text(i.action_side@) + "|"@ + (if i.order_type_omits_price {
        Seq::empty()
    } else {
        i.action_price@
    }) + "|"@
        + opt_str(i.action_position_size) + "|"@ + key_text(opt_str(i.order_side)) + "|"@ + key_text(
        opt_str(i.exchange_size),
    ) + "|"@ + signed_decimal(
        match i.planned_exit_timestamp {
            Some(t) => t as int,
            None => 0,
        },
    ) + "|"@ + key_text(opt_str(i.action_identity)) + "|"@ + index_key(
        i.action@,
        i.action_identity is Some,
        i.action_index as nat,
    )
}

/// The key under which a submitted action is recognised when repeated.
pub fn action_submission_key(input: ActionSubmissionKeyInput) -> (out: String)
    ensures
        out@ == submission_key(input),
{
    let index_part = action_index_submission_key(input.action, input.action_identity, input.action_index);
    let mut out = trim_upper(input.symbol);
    append_str(&mut out, "|");
    append_str(&mut out, signed_decimal_text(input.action_timestamp).as_str());
    append_str(&mut out, "|");
    append_str(&mut out, normalize_action_name(input.action).as_str());
    append_str(&mut out, "|");
    append_str(&mut out, normalize_key_text(input.order_type).as_str());
    append_str(&mut out, "|");
    append_str(&mut out, normalize_key_text(input.action_side).as_str());
    append_str(&mut out, "|");
    if !input.order_type_omits_price {
        append_str(&mut out, input.action_price);
    }
    append_str(&mut out, "|");
    append_str(&mut out, opt_text(input.action_position_size));
    append_str(&mut out, "|");
    append_str(&mut out, normalize_key_text(opt_text(input.order_side)).as_str());
    append_str(&mut out, "|");
    append_str(&mut out, normalize_key_text(opt_text(input.exchange_size)).as_str());
    append_str(&mut out, "|");
    let planned: i64 = match input.planned_exit_timestamp {
        Some(t) => t,
        None => 0,
    };
    append_str(&mut out, signed_decimal_text(planned).as_str());
    append_str(&mut out, "|");
    append_str(&mut out, normalize_key_text(opt_text(input.action_identity)).as_str());
    append_str(&mut out, "|");
    append_str(&mut out, index_part.as_str());
    out
}

/// A protective order attached to or placed by an action. The prices hold
/// the numbers in key form, rendered by the caller.
#[derive(Clone, Copy, Debug)]
pub struct RiskOrderIdentity<'a> {
    pub symbol: &'a str,
    pub side: &'a str,
    pub order_type: &'a str,
    pub trigger_price: Option<&'a str>,
    pub stop_loss: Option<&'a str>,
    pub take_profit: Option<&'a str>,
}

/// What an action is deduplicated by beyond its submission key. The risk
/// settings hold the numbers in key form, rendered by the caller.
#[derive(Clone, Copy, Debug)]
pub struct ActionDedupeIdentityInput<'a> {
    pub action: &'a str,
    pub cancel_order: Option<OrderManagementCancelIdentity<'a>>,
    pub modify_order: Option<OrderManagementModifyIdentity<'a>>,
    pub stop_loss: Option<&'a str>,
    pub take_profit: Option<&'a str>,
    pub max_slippage: Option<&'a str>,
    pub attached_risk_orders: &'a [RiskOrderIdentity<'a>],
}

/// One protective order in an identity.
pub open spec fn risk_order_text(r: RiskOrderIdentity) -> Seq<char> {
    "sym="@ + ascii_upper(trimmed(r.symbol@)) + "|side="@ + key_text(r.side@) + "|type="@ + key_text(
        r.order_type@,
    ) + "|trigger="@ + opt_str(r.trigger_price) + "|sl="@ + opt_str(r.stop_loss) + "|tp="@ + opt_str(
        r.take_profit,
    )
}

/// The protective orders of an action, joined by `;`.
pub open spec fn attached_text(risks: Seq<RiskOrderIdentity>) -> Seq<char> {
    joined(risks.map_values(|r: RiskOrderIdentity| risk_order_text(r)), ";"@)
}

/// The risk settings of an open; empty when none is set.
pub open spec fn risk_settings_text(sl: Option<&str>, tp: Option<&str>, slip: Option<&str>) -> Seq<char> {
    if sl is None && tp is None && slip is None {
        Seq::empty()
    } else {
        "sl="@ + opt_str(sl) + "|tp="@ + opt_str(tp) + "|slip="@ + opt_str(slip)
    }
}

/// The dedupe identity of an action: that of its cancel or modify target;
/// for an open, its risk settings and protective orders; for a placed
/// protective order, its orders; none when there is nothing to tell it by.
pub open spec fn dedupe_identity(i: ActionDedupeIdentityInput) -> Option<Seq<char>> {
    match i.cancel_order {
        Some(c) => Some(cancel_identity(c)),
        None => match i.modify_order {
            Some(m) => Some(modify_identity(m)),
            None => {
                let a = key_text(i.action@);
                let attached = attached_text(i.attached_risk_orders@);
                if a == "open_position"@ {
                    let settings = risk_settings_text(i.stop_loss, i.take_profit, i.max_slippage);
                    if settings.len() == 0 && attached.len() == 0 {
                        None
                    } else {
                        Some("open_risk|"@ + settings + "|attached="@ + attached)
                    }
                } else if a == "place_risk_order"@ {
                    if attached.len() == 0 {
                        None
                    } else {
                        Some("place_risk_order|attached="@ + attached)
                    }
                } else {
                    None
                }
            },
        },
    }
}

fn risk_order_identity_text(r: &RiskOrderIdentity) -> (out: String)
    ensures
        out@ == risk_order_text(*r),
{
    let mut out = owned("sym=");
    append_str(&mut out, trim_upper(r.symbol).as_str());
    append_str(&mut out, "|side=");
    append_str(&mut out, normalize_identity_text(r.side).as_str());
    append_str(&mut out, "|type=");
    append_str(&mut out, normalize_identity_text(r.order_type).as_str());
    append_str(&mut out, "|trigger=");
    append_str(&mut out, opt_text(r.trigger_price));
    append_str(&mut out, "|sl=");
    append_str(&mut out, opt_text(r.stop_loss));
    append_str(&mut out, "|tp=");
    append_str(&mut out, opt_text(r.take_profit));
    out
}

fn attached_risk_orders_identity(risks: &[RiskOrderIdentity]) -> (out: String)
    ensures
        out@ == attached_text(risks@),
{
    let ghost texts = risks@.map_values(|r: RiskOrderIdentity| risk_order_text(r));
    let mut out = String::new();
    let mut i: usize = 0;
    while i < risks.len()
        invariant
            i <= risks@.len(),
            texts == risks@.map_values(|r: RiskOrderIdentity| risk_order_text(r)),
            out@ == joined(texts.subrange(0, i as int), ";"@),
        decreases risks.len() - i,
    {
        let ghost before = texts.subrange(0, i as int);
        let ghost next = texts.subrange(0, i as int + 1);
        assert(next.drop_last() =~= before);
        if i > 0 {
            append_str(&mut out, ";");
        }
        append_str(&mut out, risk_order_identity_text(&risks[i]).as_str());
        i = i + 1;
        if i == 1 {
            assert(out@ =~= joined(next, ";"@));
        }
    }
    assert(texts.subrange(0, i as int) =~= texts);
    out
}

fn risk_settings_identity(sl: Option<&str>, tp: Option<&str>, slip: Option<&str>) -> (out: String)
    ensures
        out@ == risk_settings_text(sl, tp, slip),
{
    if sl.is_none() && tp.is_none() && slip.is_none() {
        return String::new();
    }
    let mut out = owned("sl=");
    append_str(&mut out, opt_text(sl));
    append_str(&mut out, "|tp=");
    append_str(&mut out, opt_text(tp));
    append_str(&mut out, "|slip=");
    append_str(&mut out, opt_text(slip));
    out
}

/// The identity under which an action is deduplicated, if any.
pub fn action_dedupe_identity(input: ActionDedupeIdentityInput) -> (out: Option<String>)
    ensures
        match out {
            Some(s) => dedupe_identity(input) == Some(s@),
            None => dedupe_identity(input) is None,
        },
{
    let managed = order_management_action_identity(input.cancel_order, input.modify_order);
    if managed.is_some() {
        return managed;
    }
    let a = normalize_action_name(input.action);
    if str_eq(a.as_str(), "open_position") {
        let settings = risk_settings_identity(input.stop_loss, input.take_profit, input.max_slippage);
        let attached = attached_risk_orders_identity(input.attached_risk_orders);
        if settings.as_str().unicode_len() == 0 && attached.as_str().unicode_len() == 0 {
            return None;
        }
        let mut out = owned("open_risk|");
        append_str(&mut out, settings.as_str());
        append_str(&mut out, "|attached=");
        append_str(&mut out, attached.as_str());
        Some(out)
    } else if str_eq(a.as_str(), "place_risk_order") {
        let attached = attached_risk_orders_identity(input.attached_risk_orders);
        if attached.as_str().unicode_len() == 0 {
            return None;
        }
        let mut out = owned("place_risk_order|attached=");
        append_str(&mut out, attached.as_str());
        Some(out)
    } else {
        None
    }
}

} // verus!
