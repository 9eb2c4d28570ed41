//! The vocabulary of strategy execution intents.
use vstd::prelude::*;

verus! {

/// Which orders a cancel or modify action may touch.
#[derive(Clone, Copy, Debug, Default, PartialEq, Eq, Structural)]
pub enum StrategyOrderTargetKind {
    #[default]
    Any,
    Exchange,
    Algo,
}

impl StrategyOrderTargetKind {
    /// The kind's name in intents and reports.
    pub fn as_str(self) -> (out: &'static str)
        ensures
            self is Any ==> out@ == "any"@,
            self is Exchange ==> out@ == "exchange"@,
            self is Algo ==> out@ == "algo"@,
    {
        match self {
            StrategyOrderTargetKind::Any => "any",
            StrategyOrderTargetKind::Exchange => "exchange",
            StrategyOrderTargetKind::Algo => "algo",
        }
    }

    /// Whether plain exchange orders may be touched.
    pub fn allows_exchange(self) -> (b: bool)
        ensures
            b == (self is Any || self is Exchange),
    {
        match self {
            StrategyOrderTargetKind::Any | StrategyOrderTargetKind::Exchange => true,
            StrategyOrderTargetKind::Algo => false,
        }
    }

    /// Whether algo (protective) orders may be touched.
    pub fn allows_algo(self) -> (b: bool)
        ensures
            b == (self is Any || self is Algo),
    {
        match self {
            StrategyOrderTargetKind::Any | StrategyOrderTargetKind::Algo => true,
            StrategyOrderTargetKind::Exchange => false,
        }
    }
}

/// What a strategy intent asks for.
#[derive(Clone, Copy, Debug, PartialEq, Eq, Structural)]
pub enum StrategyIntentAction {
    OpenPosition,
    ClosePosition,
    PlaceRiskOrder,
    CancelOrder,
    ModifyOrder,
    Hold,
}

impl StrategyIntentAction {
    /// The action's name in intents and reports.
    pub fn as_str(self) -> (out: &'static str)
        ensures
            self is OpenPosition ==> out@ == "open_position"@,
            self is ClosePosition ==> out@ == "close_position"@,
            self is PlaceRiskOrder ==> out@ == "place_risk_order"@,
            self is CancelOrder ==> out@ == "cancel_order"@,
            self is ModifyOrder ==> out@ == "modify_order"@,
            self is Hold ==> out@ == "hold"@,
    {
        match self {
            StrategyIntentAction::OpenPosition => "open_position",
            StrategyIntentAction::ClosePosition => "close_position",
            StrategyIntentAction::PlaceRiskOrder => "place_risk_order",
            StrategyIntentAction::CancelOrder => "cancel_order",
            StrategyIntentAction::ModifyOrder => "modify_order",
            StrategyIntentAction::Hold => "hold",
        }
    }

    /// Whether the action closes a position.
    pub fn closes_position(self) -> (b: bool)
        ensures
            b == (self is ClosePosition),
    {
        match self {
            StrategyIntentAction::ClosePosition => true,
            _ => false,
        }
    }
}

/// How completely the opens of a run carried a planned exit.
pub open spec fn planned_exit_status(open_action_count: u64, open_actions_with_planned_exit: u64) -> Seq<char> {
    if open_action_count == 0 {
        "no_open_actions"@
    } else if open_actions_with_planned_exit == open_action_count {
        "planned_exit_complete"@
    } else if open_actions_with_planned_exit > 0 {
        "planned_exit_partial"@
    } else {
        "planned_exit_missing"@
    }
}

/// How completely the opens of a run carried a planned exit.
pub fn planned_exit_contract_status(open_action_count: u64, open_actions_with_planned_exit: u64) -> (out:
    &'static str)
    ensures
        out@ == planned_exit_status(open_action_count, open_actions_with_planned_exit),
{
    if open_action_count == 0 {
        "no_open_actions"
    } else if open_actions_with_planned_exit == open_action_count {
        "planned_exit_complete"
    } else if open_actions_with_planned_exit > 0 {
        "planned_exit_partial"
    } else {
        "planned_exit_missing"
    }
}

} // verus!

verus! {

/// How many of the first `n` positions satisfy `p`.
pub open spec fn count_where(n: nat, p: spec_fn(int) -> bool) -> nat {
    crate::storage::positions(n, p).len()
}

proof fn lemma_count_where_bound(n: nat, p: spec_fn(int) -> bool)
    ensures
        count_where(n, p) <= n,
    decreases n,
{
    if n > 0 {
        lemma_count_where_bound((n - 1) as nat, p);
    }
}

/// An action name as the summary compares it: trimmed, ASCII lower case.
pub open spec fn action_key(action: &str) -> Seq<char> {
    crate::semantics::key_text(action@)
}

pub open spec fn is_known_action(name: Seq<char>) -> bool {
    name == "open_position"@ || name == "close_position"@ || name == "place_risk_order"@ || name
        == "cancel_order"@ || name == "modify_order"@ || name == "hold"@
}

/// Whether a closed trade was closed by its planned exit: its trimmed
/// reason starts with `planned_exit:`.
pub open spec fn planned_close(trade: (bool, Option<&str>, &str)) -> bool {
    trade.0 && crate::text::has_prefix(crate::text::trimmed(trade.2@), "planned_exit:"@)
}

/// Whether a closed trade was closed by a protective order: its action is
/// `place_risk_order`, or its trimmed reason is `stop_loss` or
/// `take_profit`.
pub open spec fn risk_close(trade: (bool, Option<&str>, &str)) -> bool {
    &&& trade.0
    &&& (crate::semantics::key_text(crate::semantics::opt_str(trade.1)) == "place_risk_order"@
        || crate::text::trimmed(trade.2@) == "stop_loss"@ || crate::text::trimmed(trade.2@)
        == "take_profit"@)
}

/// The warnings of a run, in this order: opens without any planned exit,
/// positions left open, open positions without a mark price, funding
/// settled on a fallback mark price, planned exits on a fallback reference
/// price.
pub open spec fn runtime_warnings(
    open_action_count: nat,
    open_with_exit: nat,
    open_positions: nat,
    missing_mark: nat,
    funding_fallbacks: nat,
    planned_exit_fallbacks: nat,
) -> Seq<Seq<char>> {
    (if open_action_count > 0 && open_with_exit == 0 {
        seq!["open_actions_missing_planned_exit"@]
    } else {
        Seq::empty()
    }) + (if open_positions > 0 {
        seq!["open_trades_without_close_events"@]
    } else {
        Seq::empty()
    }) + (if missing_mark > 0 {
        seq!["open_positions_missing_mark_price"@]
    } else {
        Seq::empty()
    }) + (if funding_fallbacks > 0 {
        seq!["funding_mark_price_fallback"@]
    } else {
        Seq::empty()
    }) + (if planned_exit_fallbacks > 0 {
        seq!["planned_exit_reference_price_fallback"@]
    } else {
        Seq::empty()
    })
}

/// The counts of a backtest run's strategy actions and closed trades.
pub struct RuntimeActionCounts {
    pub open_position: usize,
    pub close_position: usize,
    pub place_risk_order: usize,
    pub cancel_order: usize,
    pub modify_order: usize,
    pub hold: usize,
    pub unsupported: usize,
    pub total: usize,
    pub open_action_count: usize,
    pub open_actions_with_planned_exit: usize,
    pub planned_exit_contract: &'static str,
    pub planned_close_count: usize,
    pub risk_close_count: usize,
    pub open_positions_missing_mark_count: u64,
    pub funding_mark_price_fallback_count: u64,
    pub planned_exit_reference_price_fallback_count: u64,
    pub warnings: Vec<&'static str>,
}

/// Counts a run's strategy actions (each given by its action name and
/// whether it carries a planned exit) and its trades (whether the trade
/// closed with a result, its action, its reason), and lists the run's
/// warnings given how many positions stay open, how many of them lack a
/// mark price, and how often fallback prices were used.
pub fn runtime_action_counts(
    actions: &[(&str, bool)],
    trades: &[(bool, Option<&str>, &str)],
    open_positions: usize,
    missing_mark: u64,
    funding_fallbacks: u64,
    planned_exit_fallbacks: u64,
) -> (c: RuntimeActionCounts)
    ensures
        c.open_position == count_where(actions@.len(), |k: int| action_key(actions@[k].0) == "open_position"@),
        c.close_position == count_where(actions@.len(), |k: int| action_key(actions@[k].0) == "close_position"@),
        c.place_risk_order == count_where(
            actions@.len(),
            |k: int| action_key(actions@[k].0) == "place_risk_order"@,
        ),
        c.cancel_order == count_where(actions@.len(), |k: int| action_key(actions@[k].0) == "cancel_order"@),
        c.modify_order == count_where(actions@.len(), |k: int| action_key(actions@[k].0) == "modify_order"@),
        c.hold == count_where(actions@.len(), |k: int| action_key(actions@[k].0) == "hold"@),
        c.unsupported == count_where(actions@.len(), |k: int| !is_known_action(action_key(actions@[k].0))),
        c.total == actions@.len(),
        c.open_action_count == c.open_position,
        c.open_actions_with_planned_exit == count_where(
            actions@.len(),
            |k: int| action_key(actions@[k].0) == "open_position"@ && actions@[k].1,
        ),
        c.planned_exit_contract@ == planned_exit_status(
            c.open_action_count as u64,
            c.open_actions_with_planned_exit as u64,
        ),
        c.planned_close_count == count_where(trades@.len(), |k: int| planned_close(trades@[k])),
        c.risk_close_count == count_where(trades@.len(), |k: int| risk_close(trades@[k])),
        c.open_positions_missing_mark_count == missing_mark,
        c.funding_mark_price_fallback_count == funding_fallbacks,
        c.planned_exit_reference_price_fallback_count == planned_exit_fallbacks,
        c.warnings@.map_values(|w: &str| w@) == runtime_warnings(
            c.open_action_count as nat,
            c.open_actions_with_planned_exit as nat,
            open_positions as nat,
            missing_mark as nat,
            funding_fallbacks as nat,
            planned_exit_fallbacks as nat,
        ),
{
    let ghost p_open = |k: int| action_key(actions@[k].0) == "open_position"@;
    let ghost p_close = |k: int| action_key(actions@[k].0) == "close_position"@;
    let ghost p_risk = |k: int| action_key(actions@[k].0) == "place_risk_order"@;
    let ghost p_cancel = |k: int| action_key(actions@[k].0) == "cancel_order"@;
    let ghost p_modify = |k: int| action_key(actions@[k].0) == "modify_order"@;
    let ghost p_hold = |k: int| action_key(actions@[k].0) == "hold"@;
    let ghost p_other = |k: int| !is_known_action(action_key(actions@[k].0));
    let ghost p_exit = |k: int| action_key(actions@[k].0) == "open_position"@ && actions@[k].1;
    let mut open_position: usize = 0;
    let mut close_position: usize = 0;
    let mut place_risk_order: usize = 0;
    let mut cancel_order: usize = 0;
    let mut modify_order: usize = 0;
    let mut hold: usize = 0;
    let mut unsupported: usize = 0;
    let mut with_exit: usize = 0;
    let mut i: usize = 0;
    while i < actions.len()
        invariant
            i <= actions@.len(),
            p_open == (|k: int| action_key(actions@[k].0) == "open_position"@),
            p_close == (|k: int| action_key(actions@[k].0) == "close_position"@),
            p_risk == (|k: int| action_key(actions@[k].0) == "place_risk_order"@),
            p_cancel == (|k: int| action_key(actions@[k].0) == "cancel_order"@),
            p_modify == (|k: int| action_key(actions@[k].0) == "modify_order"@),
            p_hold == (|k: int| action_key(actions@[k].0) == "hold"@),
            p_other == (|k: int| !is_known_action(action_key(actions@[k].0))),
            p_exit == (|k: int| action_key(actions@[k].0) == "open_position"@ && actions@[k].1),
            open_position == count_where(i as nat, p_open),
            close_position == count_where(i as nat, p_close),
            place_risk_order == count_where(i as nat, p_risk),
            cancel_order == count_where(i as nat, p_cancel),
            modify_order == count_where(i as nat, p_modify),
            hold == count_where(i as nat, p_hold),
            unsupported == count_where(i as nat, p_other),
            with_exit == count_where(i as nat, p_exit),
        decreases actions.len() - i,
    {
        proof {
            lemma_count_where_bound(i as nat, p_open);
            lemma_count_where_bound(i as nat, p_close);
            lemma_count_where_bound(i as nat, p_risk);
            lemma_count_where_bound(i as nat, p_cancel);
            lemma_count_where_bound(i as nat, p_modify);
            lemma_count_where_bound(i as nat, p_hold);
            lemma_count_where_bound(i as nat, p_other);
            lemma_count_where_bound(i as nat, p_exit);
            reveal_strlit("open_position");
            reveal_strlit("close_position");
            reveal_strlit("place_risk_order");
            reveal_strlit("cancel_order");
            reveal_strlit("modify_order");
            reveal_strlit("hold");
            assert("open_position"@.len() == 13);
            assert("close_position"@.len() == 14);
            assert("place_risk_order"@.len() == 16);
            assert("cancel_order"@.len() == 12 && "cancel_order"@[0] == 'c');
            assert("modify_order"@.len() == 12 && "modify_order"@[0] == 'm');
            assert("hold"@.len() == 4);
        }
        let (name, has_exit) = actions[i];
        let key = crate::semantics::normalize_action_name(name);
        let k = key.as_str();
        if crate::text::str_eq(k, "open_position") {
            open_position = open_position + 1;
            if has_exit {
                with_exit = with_exit + 1;
            }
        } else if crate::text::str_eq(k, "close_position") {
            close_position = close_position + 1;
        } else if crate::text::str_eq(k, "place_risk_order") {
            place_risk_order = place_risk_order + 1;
        } else if crate::text::str_eq(k, "cancel_order") {
            cancel_order = cancel_order + 1;
        } else if crate::text::str_eq(k, "modify_order") {
            modify_order = modify_order + 1;
        } else if crate::text::str_eq(k, "hold") {
            hold = hold + 1;
        } else {
            unsupported = unsupported + 1;
        }
        i = i + 1;
    }
    let ghost p_planned = |k: int| planned_close(trades@[k]);
    let ghost p_riskclose = |k: int| risk_close(trades@[k]);
    let mut planned: usize = 0;
    let mut risk: usize = 0;
    let mut j: usize = 0;
    while j < trades.len()
        invariant
            j <= trades@.len(),
            p_planned == (|k: int| planned_close(trades@[k])),
            p_riskclose == (|k: int| risk_close(trades@[k])),
            planned == count_where(j as nat, p_planned),
            risk == count_where(j as nat, p_riskclose),
        decreases trades.len() - j,
    {
        proof {
            lemma_count_where_bound(j as nat, p_planned);
            lemma_count_where_bound(j as nat, p_riskclose);
            reveal_strlit("place_risk_order");
            reveal_strlit("");
        }
        let (closed, action, reason) = trades[j];
        if closed {
            let r = crate::text::trim_owned(reason);
            if crate::text::starts_with_text(r.as_str(), "planned_exit:") {
                planned = planned + 1;
            }
            let a = crate::semantics::normalize_key_text(crate::semantics::opt_text(action));
            if crate::text::str_eq(a.as_str(), "place_risk_order") || crate::text::str_eq(r.as_str(), "stop_loss")
                || crate::text::str_eq(r.as_str(), "take_profit") {
                risk = risk + 1;
            }
        }
        j = j + 1;
    }
    let contract = planned_exit_contract_status(open_position as u64, with_exit as u64);
    let mut warnings: Vec<&'static str> = Vec::new();
    let ghost w0 = warnings@.map_values(|w: &str| w@);
    if open_position > 0 && with_exit == 0 {
        warnings.push("open_actions_missing_planned_exit");
    }
    if open_positions > 0 {
        warnings.push("open_trades_without_close_events");
    }
    if missing_mark > 0 {
        warnings.push("open_positions_missing_mark_price");
    }
    if funding_fallbacks > 0 {
        warnings.push("funding_mark_price_fallback");
    }
    if planned_exit_fallbacks > 0 {
        warnings.push("planned_exit_reference_price_fallback");
    }
    assert(warnings@.map_values(|w: &str| w@) =~= runtime_warnings(
        open_position as nat,
        with_exit as nat,
        open_positions as nat,
        missing_mark as nat,
        funding_fallbacks as nat,
        planned_exit_fallbacks as nat,
    ));
    RuntimeActionCounts {
        open_position,
        close_position,
        place_risk_order,
        cancel_order,
        modify_order,
        hold,
        unsupported,
        total: actions.len(),
        open_action_count: open_position,
        open_actions_with_planned_exit: with_exit,
        planned_exit_contract: contract,
        planned_close_count: planned,
        risk_close_count: risk,
        open_positions_missing_mark_count: missing_mark,
        funding_mark_price_fallback_count: funding_fallbacks,
        planned_exit_reference_price_fallback_count: planned_exit_fallbacks,
        warnings,
    }
}

} // verus!
