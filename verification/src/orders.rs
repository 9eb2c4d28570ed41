//! Order bookkeeping of the historical backtest that does not depend on
//! prices: labels, text normalisation and the choice of the order a cancel
//! or modify action targets.
use vstd::prelude::*;

use crate::contract::{StrategyIntentAction, StrategyOrderTargetKind};
use crate::semantics::{
    identity_matches, kind_allows, order_management_identity_matches,
    order_management_scope_matches, order_management_target_kind_allows_class, scope_matches,
    OrderManagementTargetClass,
};
use crate::subscriptions::{distinct, texts_view};
use crate::text::{
    append_str, ascii_lower, ascii_upper, chars_of, owned, str_eq, trim_lower, trim_upper, trimmed,
};

verus! {

/// Why a simulated order was placed.
#[derive(Clone, Copy, Debug, PartialEq, Eq, Structural)]
pub enum OrderAction {
    Open,
    Close,
    Risk,
}

/// The action name an order reports.
pub fn order_action_label(action: OrderAction) -> (out: &'static str)
    ensures
        action is Open ==> out@ == "open_position"@,
        action is Close ==> out@ == "close_position"@,
        action is Risk ==> out@ == "place_risk_order"@,
{
    match action {
        OrderAction::Open => "open_position",
        OrderAction::Close => "close_position",
        OrderAction::Risk => "place_risk_order",
    }
}

pub open spec fn target_class(action: OrderAction) -> OrderManagementTargetClass {
    match action {
        OrderAction::Risk => OrderManagementTargetClass::Algo,
        _ => OrderManagementTargetClass::Exchange,
    }
}

/// Risk orders are algo orders; opens and closes are exchange orders.
pub fn order_target_class(action: OrderAction) -> (c: OrderManagementTargetClass)
    ensures
        c == target_class(action),
{
    match action {
        OrderAction::Risk => OrderManagementTargetClass::Algo,
        OrderAction::Open | OrderAction::Close => OrderManagementTargetClass::Exchange,
    }
}

pub open spec fn kind_text(kind: StrategyOrderTargetKind) -> Seq<char> {
    match kind {
        StrategyOrderTargetKind::Any => "any"@,
        StrategyOrderTargetKind::Exchange => "exchange"@,
        StrategyOrderTargetKind::Algo => "algo"@,
    }
}

/// Whether an action's target kind lets it touch an order of this action.
pub fn management_target_matches_order(action: OrderAction, target_kind: StrategyOrderTargetKind) -> (b:
    bool)
    ensures
        b == kind_allows(kind_text(target_kind), target_class(action)),
{
    order_management_target_kind_allows_class(target_kind.as_str(), order_target_class(action))
}

/// Symbols are compared trimmed and in ASCII upper case.
pub fn norm_symbol(symbol: &str) -> (out: String)
    ensures
        out@ == ascii_upper(trimmed(symbol@)),
{
    trim_upper(symbol)
}

/// Instrument types are compared trimmed and in ASCII upper case.
pub fn norm_inst_type(inst_type: &str) -> (out: String)
    ensures
        out@ == ascii_upper(trimmed(inst_type@)),
{
    trim_upper(inst_type)
}

/// Timeframes are compared trimmed and in ASCII lower case.
pub fn norm_timeframe(timeframe: &str) -> (out: String)
    ensures
        out@ == ascii_lower(trimmed(timeframe@)),
{
    trim_lower(timeframe)
}

/// The position side a side text names (`long`/`buy` or `short`/`sell`,
/// trimmed, ASCII case ignored).
pub open spec fn position_side_of(side: Seq<char>) -> Option<Seq<char>> {
    let s = ascii_lower(trimmed(side));
    if s == "long"@ || s == "buy"@ {
        Some("long"@)
    } else if s == "short"@ || s == "sell"@ {
        Some("short"@)
    } else {
        None
    }
}

/// The position side of a side text, or the normalised text itself when it
/// names none.
pub open spec fn pos_side_text(side: Seq<char>) -> Seq<char> {
    match position_side_of(side) {
        Some(p) => p,
        None => ascii_lower(trimmed(side)),
    }
}

/// The position side of a side text, or the normalised text itself when it
/// names none.
pub fn norm_pos_side(side: &str) -> (out: String)
    ensures
        out@ == (match position_side_of(side@) {
            Some(p) => p,
            None => ascii_lower(trimmed(side@)),
        }),
        out@ == pos_side_text(side@),
{
    let s = trim_lower(side);
    if str_eq(s.as_str(), "long") || str_eq(s.as_str(), "buy") {
        owned("long")
    } else if str_eq(s.as_str(), "short") || str_eq(s.as_str(), "sell") {
        owned("short")
    } else {
        s
    }
}

/// The position side a side text names, if any.
pub fn normalized_position_side(side: &str) -> (out: Option<&'static str>)
    ensures
        match out {
            Some(p) => position_side_of(side@) == Some(p@),
            None => position_side_of(side@) is None,
        },
{
    let s = trim_lower(side);
    if str_eq(s.as_str(), "long") || str_eq(s.as_str(), "buy") {
        Some("long")
    } else if str_eq(s.as_str(), "short") || str_eq(s.as_str(), "sell") {
        Some("short")
    } else {
        None
    }
}

/// A list after `push_unique_symbol`: the symbol in normalised form is added
/// when it is not blank and not yet listed.
pub open spec fn with_symbol(symbols: Seq<Seq<char>>, symbol: Seq<char>) -> Seq<Seq<char>> {
    let n = ascii_upper(trimmed(symbol));
    if n.len() == 0 || symbols.contains(n) {
        symbols
    } else {
        symbols.push(n)
    }
}

/// Adds a symbol, normalised, unless it is blank or already listed.
pub fn push_unique_symbol(symbols: &mut Vec<String>, symbol: &str)
    ensures
        texts_view(final(symbols)@) == with_symbol(texts_view(old(symbols)@), symbol@),
{
    let n = trim_upper(symbol);
    let cs = chars_of(n.as_str());
    if cs.len() == 0 {
        return;
    }
    let mut i: usize = 0;
    while i < symbols.len()
        invariant
            i <= symbols@.len(),
            symbols@ == old(symbols)@,
            n@ == ascii_upper(trimmed(symbol@)),
            n@.len() > 0,
            forall|k: int| 0 <= k < i ==> symbols@[k]@ != n@,
        decreases symbols.len() - i,
    {
        if str_eq(symbols[i].as_str(), n.as_str()) {
            assert(texts_view(symbols@)[i as int] == n@);
            assert(texts_view(symbols@).contains(n@));
            assert(with_symbol(texts_view(old(symbols)@), symbol@) == texts_view(old(symbols)@));
            return;
        }
        i = i + 1;
    }
    proof {
        if texts_view(symbols@).contains(n@) {
            let k = choose|k: int| 0 <= k < texts_view(symbols@).len() && texts_view(symbols@)[k] == n@;
            assert(symbols@[k]@ == n@);
        }
    }
    let ghost before = texts_view(symbols@);
    symbols.push(n);
    assert(texts_view(symbols@) =~= before.push(ascii_upper(trimmed(symbol@))));
}

/// What order management reads of a simulated order.
pub struct ManagedOrder {
    pub order_id: String,
    pub client_order_id: String,
    pub symbol: String,
    pub action: OrderAction,
    /// Whether the order is still working (not filled, cancelled or rejected).
    pub open: bool,
}

/// Whether order `o` carries the targeted identity.
pub open spec fn names(o: ManagedOrder, order_id: Seq<char>, client_order_id: Seq<char>) -> bool {
    identity_matches(o.order_id@, o.client_order_id@, order_id, client_order_id)
}

/// The symbols of the open risk orders among `orders` that carry the
/// identity, normalised, each once, in order of appearance.
pub open spec fn algo_symbols(orders: Seq<ManagedOrder>, order_id: Seq<char>, client_order_id: Seq<char>) -> Seq<
    Seq<char>,
>
    decreases orders.len(),
{
    if orders.len() == 0 {
        Seq::empty()
    } else {
        let acc = algo_symbols(orders.drop_last(), order_id, client_order_id);
        let o = orders.last();
        if names(o, order_id, client_order_id) && o.action is Risk && o.open {
            with_symbol(acc, o.symbol@)
        } else {
            acc
        }
    }
}

/// The symbols of the open and close orders among `orders` that carry the
/// identity, normalised, each once, in order of appearance.
pub open spec fn exchange_symbols(orders: Seq<ManagedOrder>, order_id: Seq<char>, client_order_id: Seq<char>) -> Seq<
    Seq<char>,
>
    decreases orders.len(),
{
    if orders.len() == 0 {
        Seq::empty()
    } else {
        let acc = exchange_symbols(orders.drop_last(), order_id, client_order_id);
        let o = orders.last();
        if names(o, order_id, client_order_id) && !(o.action is Risk) {
            with_symbol(acc, o.symbol@)
        } else {
            acc
        }
    }
}

/// Texts joined by `sep`.
pub open spec fn joined(list: Seq<Seq<char>>, sep: Seq<char>) -> Seq<char>
    decreases list.len(),
{
    if list.len() == 0 {
        Seq::empty()
    } else if list.len() == 1 {
        list[0]
    } else {
        joined(list.drop_last(), sep) + sep + list.last()
    }
}

pub open spec fn kind_allows_algo(k: StrategyOrderTargetKind) -> bool {
    k is Any || k is Algo
}

pub open spec fn kind_allows_exchange(k: StrategyOrderTargetKind) -> bool {
    k is Any || k is Exchange
}

/// Why an action without an explicit symbol is refused: its identity hits
/// orders of several symbols.
pub open spec fn ambiguity_reason(
    orders: Seq<ManagedOrder>,
    target_kind: StrategyOrderTargetKind,
    order_id: Seq<char>,
    client_order_id: Seq<char>,
    scope_explicit: bool,
    action_name: Seq<char>,
) -> Option<Seq<char>> {
    let algo = algo_symbols(orders, order_id, client_order_id);
    let exchange = exchange_symbols(orders, order_id, client_order_id);
    if scope_explicit {
        None
    } else if kind_allows_algo(target_kind) && algo.len() > 1 {
        Some(action_name + " 未显式提供 symbol 且目标保护单身份同时命中多个交易对: "@ + joined(
            algo,
            ", "@,
        ) + "，已拒绝以避免误撤或误改"@)
    } else if kind_allows_exchange(target_kind) && exchange.len() > 1 {
        Some(action_name + " 未显式提供 symbol 且目标普通订单身份同时命中多个交易对: "@ + joined(
            exchange,
            ", "@,
        ) + "，已拒绝以避免误撤或误改"@)
    } else {
        None
    }
}

fn join_symbols(list: &Vec<String>) -> (out: String)
    ensures
        out@ == joined(texts_view(list@), ", "@),
{
    let mut out = String::new();
    let mut i: usize = 0;
    while i < list.len()
        invariant
            i <= list@.len(),
            out@ == joined(texts_view(list@).subrange(0, i as int), ", "@),
        decreases list.len() - i,
    {
        let ghost before = texts_view(list@).subrange(0, i as int);
        let ghost next = texts_view(list@).subrange(0, i as int + 1);
        assert(next.drop_last() =~= before);
        if i > 0 {
            append_str(&mut out, ", ");
        }
        append_str(&mut out, list[i].as_str());
        i = i + 1;
        if i == 1 {
            assert(out@ =~= joined(next, ", "@));
        }
    }
    assert(texts_view(list@).subrange(0, i as int) =~= texts_view(list@));
    out
}

fn ambiguity_message(action_name: &str, middle: &str, symbols: &Vec<String>) -> (out: String)
    ensures
        out@ == action_name@ + middle@ + joined(texts_view(symbols@), ", "@)
            + "，已拒绝以避免误撤或误改"@,
{
    let mut out = owned(action_name);
    append_str(&mut out, middle);
    append_str(&mut out, join_symbols(symbols).as_str());
    append_str(&mut out, "，已拒绝以避免误撤或误改");
    out
}

/// When an action that names no symbol would hit orders of several
/// symbols, the reason to refuse it.
pub fn ambiguous_management_target_reason(
    orders: &[ManagedOrder],
    target_kind: StrategyOrderTargetKind,
    target_order_id: &str,
    target_client_order_id: &str,
    scope_explicit: bool,
    action_name: &str,
) -> (out: Option<String>)
    ensures
        match out {
            Some(s) => ambiguity_reason(
                orders@,
                target_kind,
                target_order_id@,
                target_client_order_id@,
                scope_explicit,
                action_name@,
            ) == Some(s@),
            None => ambiguity_reason(
                orders@,
                target_kind,
                target_order_id@,
                target_client_order_id@,
                scope_explicit,
                action_name@,
            ) is None,
        },
{
    if scope_explicit {
        return None;
    }
    let mut exchange: Vec<String> = Vec::new();
    let mut algo: Vec<String> = Vec::new();
    let mut i: usize = 0;
    while i < orders.len()
        invariant
            i <= orders@.len(),
            texts_view(algo@) == algo_symbols(orders@.subrange(0, i as int), target_order_id@, target_client_order_id@),
            texts_view(exchange@) == exchange_symbols(orders@.subrange(0, i as int), target_order_id@, target_client_order_id@),
        decreases orders.len() - i,
    {
        let ghost next = orders@.subrange(0, i as int + 1);
        assert(next.drop_last() =~= orders@.subrange(0, i as int));
        assert(next.last() == orders@[i as int]);
        let order = &orders[i];
        if order_management_identity_matches(
            order.order_id.as_str(),
            order.client_order_id.as_str(),
            target_order_id,
            target_client_order_id,
        ) {
            match order.action {
                OrderAction::Risk => {
                    if order.open {
                        push_unique_symbol(&mut algo, order.symbol.as_str());
                    }
                },
                OrderAction::Open | OrderAction::Close => {
                    push_unique_symbol(&mut exchange, order.symbol.as_str());
                },
            }
        }
        i = i + 1;
    }
    assert(orders@.subrange(0, i as int) =~= orders@);
    if target_kind.allows_algo() && algo.len() > 1 {
        return Some(ambiguity_message(
            action_name,
            " 未显式提供 symbol 且目标保护单身份同时命中多个交易对: ",
            &algo,
        ));
    }
    if target_kind.allows_exchange() && exchange.len() > 1 {
        return Some(ambiguity_message(
            action_name,
            " 未显式提供 symbol 且目标普通订单身份同时命中多个交易对: ",
            &exchange,
        ));
    }
    None
}

/// Whether some order carrying the identity, in the action's scope, is an
/// open risk order and another is an exchange order.
pub open spec fn any_kind_collision(
    orders: Seq<ManagedOrder>,
    target_kind: StrategyOrderTargetKind,
    order_id: Seq<char>,
    client_order_id: Seq<char>,
    scope_explicit: bool,
    symbol: Seq<char>,
) -> bool {
    let hit = |o: ManagedOrder|
        names(o, order_id, client_order_id) && scope_matches(o.symbol@, symbol, scope_explicit);
    &&& target_kind is Any
    &&& exists|i: int| 0 <= i < orders.len() && hit(orders[i]) && (#[trigger] orders[i]).action is Risk && orders[i].open
    &&& exists|j: int| 0 <= j < orders.len() && hit(orders[j]) && !((#[trigger] orders[j]).action is Risk)
}

/// With target kind `any`, whether the identity hits both an exchange order
/// and an open algo order in the action's scope.
pub fn any_target_kind_hits_exchange_and_active_algo(
    orders: &[ManagedOrder],
    target_kind: StrategyOrderTargetKind,
    target_order_id: &str,
    target_client_order_id: &str,
    scope_explicit: bool,
    intent_symbol: &str,
) -> (b: bool)
    ensures
        b == any_kind_collision(
            orders@,
            target_kind,
            target_order_id@,
            target_client_order_id@,
            scope_explicit,
            intent_symbol@,
        ),
{
    if target_kind != StrategyOrderTargetKind::Any {
        return false;
    }
    let ghost hit = |o: ManagedOrder|
        names(o, target_order_id@, target_client_order_id@) && scope_matches(
            o.symbol@,
            intent_symbol@,
            scope_explicit,
        );
    let mut active_algo = false;
    let mut exchange = false;
    let mut i: usize = 0;
    while i < orders.len()
        invariant
            i <= orders@.len(),
            target_kind is Any,
            hit == (|o: ManagedOrder|
                names(o, target_order_id@, target_client_order_id@) && scope_matches(
                    o.symbol@,
                    intent_symbol@,
                    scope_explicit,
                )),
            active_algo == exists|k: int|
                0 <= k < i && hit(orders@[k]) && (#[trigger] orders@[k]).action is Risk
                    && orders@[k].open,
            exchange == exists|k: int|
                0 <= k < i && hit(orders@[k]) && !((#[trigger] orders@[k]).action is Risk),
            !(active_algo && exchange),
        decreases orders.len() - i,
    {
        let order = &orders[i];
        if order_management_identity_matches(
            order.order_id.as_str(),
            order.client_order_id.as_str(),
            target_order_id,
            target_client_order_id,
        ) && order_management_scope_matches(order.symbol.as_str(), intent_symbol, scope_explicit) {
            assert(hit(orders@[i as int]));
            match order.action {
                OrderAction::Risk => {
                    if order.open {
                        active_algo = true;
                    }
                },
                OrderAction::Open | OrderAction::Close => {
                    exchange = true;
                },
            }
        } else {
            assert(!hit(orders@[i as int]));
        }
        i = i + 1;
        if active_algo && exchange {
            return true;
        }
    }
    false
}

/// Whether an action may touch order `o`: open, of an allowed class, in
/// scope, carrying the identity.
pub open spec fn targets(
    o: ManagedOrder,
    target_kind: StrategyOrderTargetKind,
    order_id: Seq<char>,
    client_order_id: Seq<char>,
    scope_explicit: bool,
    symbol: Seq<char>,
) -> bool {
    &&& o.open
    &&& kind_allows(kind_text(target_kind), target_class(o.action))
    &&& scope_matches(o.symbol@, symbol, scope_explicit)
    &&& names(o, order_id, client_order_id)
}

/// The first order a cancel or modify action touches, if any.
pub fn find_management_target(
    orders: &[ManagedOrder],
    target_kind: StrategyOrderTargetKind,
    target_order_id: &str,
    target_client_order_id: &str,
    scope_explicit: bool,
    intent_symbol: &str,
) -> (r: Option<usize>)
    ensures
        match r {
            Some(i) => i < orders@.len() && targets(
                orders@[i as int],
                target_kind,
                target_order_id@,
                target_client_order_id@,
                scope_explicit,
                intent_symbol@,
            ) && forall|k: int|
                0 <= k < i ==> !targets(
                    #[trigger] orders@[k],
                    target_kind,
                    target_order_id@,
                    target_client_order_id@,
                    scope_explicit,
                    intent_symbol@,
                ),
            None => forall|k: int|
                0 <= k < orders@.len() ==> !targets(
                    #[trigger] orders@[k],
                    target_kind,
                    target_order_id@,
                    target_client_order_id@,
                    scope_explicit,
                    intent_symbol@,
                ),
        },
{
    let mut i: usize = 0;
    while i < orders.len()
        invariant
            i <= orders@.len(),
            forall|k: int|
                0 <= k < i ==> !targets(
                    #[trigger] orders@[k],
                    target_kind,
                    target_order_id@,
                    target_client_order_id@,
                    scope_explicit,
                    intent_symbol@,
                ),
        decreases orders.len() - i,
    {
        let order = &orders[i];
        if order.open && management_target_matches_order(order.action, target_kind)
            && order_management_scope_matches(order.symbol.as_str(), intent_symbol, scope_explicit)
            && order_management_identity_matches(
            order.order_id.as_str(),
            order.client_order_id.as_str(),
            target_order_id,
            target_client_order_id,
        ) {
            return Some(i);
        }
        i = i + 1;
    }
    None
}

/// How a cancel or modify action that names its target is resolved.
pub enum ManagementTarget {
    /// Refused: without an explicit symbol the identity hits several symbols.
    Ambiguous(String),
    /// Refused: with target kind `any` the identity hits both an exchange
    /// order and an open algo order.
    ExchangeAlgoCollision,
    /// Refused: no open order in scope carries the identity.
    Missing,
    /// The index of the order the action applies to.
    Found(usize),
}

/// Resolves the order a cancel or modify action applies to, in the order
/// the backtest checks: ambiguity, then collision, then the first match.
pub fn resolve_management_target(
    orders: &[ManagedOrder],
    target_kind: StrategyOrderTargetKind,
    target_order_id: &str,
    target_client_order_id: &str,
    scope_explicit: bool,
    intent_symbol: &str,
    action_name: &str,
) -> (r: ManagementTarget)
    ensures
        match r {
            ManagementTarget::Ambiguous(s) => ambiguity_reason(
                orders@,
                target_kind,
                target_order_id@,
                target_client_order_id@,
                scope_explicit,
                action_name@,
            ) == Some(s@),
            ManagementTarget::ExchangeAlgoCollision => ambiguity_reason(
                orders@,
                target_kind,
                target_order_id@,
                target_client_order_id@,
                scope_explicit,
                action_name@,
            ) is None && any_kind_collision(
                orders@,
                target_kind,
                target_order_id@,
                target_client_order_id@,
                scope_explicit,
                intent_symbol@,
            ),
            ManagementTarget::Missing => ambiguity_reason(
                orders@,
                target_kind,
                target_order_id@,
                target_client_order_id@,
                scope_explicit,
                action_name@,
            ) is None && !any_kind_collision(
                orders@,
                target_kind,
                target_order_id@,
                target_client_order_id@,
                scope_explicit,
                intent_symbol@,
            ) && forall|k: int|
                0 <= k < orders@.len() ==> !targets(
                    #[trigger] orders@[k],
                    target_kind,
                    target_order_id@,
                    target_client_order_id@,
                    scope_explicit,
                    intent_symbol@,
                ),
            ManagementTarget::Found(i) => ambiguity_reason(
                orders@,
                target_kind,
                target_order_id@,
                target_client_order_id@,
                scope_explicit,
                action_name@,
            ) is None && !any_kind_collision(
                orders@,
                target_kind,
                target_order_id@,
                target_client_order_id@,
                scope_explicit,
                intent_symbol@,
            ) && i < orders@.len() && targets(
                orders@[i as int],
                target_kind,
                target_order_id@,
                target_client_order_id@,
                scope_explicit,
                intent_symbol@,
            ) && forall|k: int|
                0 <= k < i ==> !targets(
                    #[trigger] orders@[k],
                    target_kind,
                    target_order_id@,
                    target_client_order_id@,
                    scope_explicit,
                    intent_symbol@,
                ),
        },
{
    if let Some(reason) = ambiguous_management_target_reason(
        orders,
        target_kind,
        target_order_id,
        target_client_order_id,
        scope_explicit,
        action_name,
    ) {
        return ManagementTarget::Ambiguous(reason);
    }
    if any_target_kind_hits_exchange_and_active_algo(
        orders,
        target_kind,
        target_order_id,
        target_client_order_id,
        scope_explicit,
        intent_symbol,
    ) {
        return ManagementTarget::ExchangeAlgoCollision;
    }
    match find_management_target(
        orders,
        target_kind,
        target_order_id,
        target_client_order_id,
        scope_explicit,
        intent_symbol,
    ) {
        Some(i) => ManagementTarget::Found(i),
        None => ManagementTarget::Missing,
    }
}


/// A target kind touches an order exactly as the kind says: risk orders
/// are algo orders, which kinds `any` and `algo` touch; opens and closes are
/// exchange orders, which kinds `any` and `exchange` touch.
pub proof fn lemma_target_kind_touches(kind: StrategyOrderTargetKind, action: OrderAction)
    ensures
        kind_allows(kind_text(kind), target_class(action)) <==> (if action is Risk {
            kind is Any || kind is Algo
        } else {
            kind is Any || kind is Exchange
        }),
{
    reveal_strlit("any");
    reveal_strlit("exchange");
    reveal_strlit("algo");
    assert("any"@.len() == 3 && "algo"@.len() == 4 && "exchange"@.len() == 8);
    crate::semantics::lemma_any_kind_allows_every_class(kind_text(kind), target_class(action));
    let t = kind_text(kind);
    assert(crate::text::trim_front(t) == t);
    assert(crate::text::trim_back(t) == t);
    assert(ascii_lower(t) =~= t);
}

/// A side text names a position side by its trimmed, ASCII-lower-case form:
/// `buy` and `long` name the long side, `sell` and `short` the short side,
/// and any other text names none.
pub proof fn lemma_side_texts_name_position_sides(side: Seq<char>)
    ensures
        ascii_lower(trimmed(side)) == "buy"@ ==> position_side_of(side) == Some("long"@),
        ascii_lower(trimmed(side)) == "long"@ ==> position_side_of(side) == Some("long"@),
        ascii_lower(trimmed(side)) == "sell"@ ==> position_side_of(side) == Some("short"@),
        ascii_lower(trimmed(side)) == "short"@ ==> position_side_of(side) == Some("short"@),
        position_side_of(side) is Some <==> (ascii_lower(trimmed(side)) == "buy"@ || ascii_lower(
            trimmed(side),
        ) == "long"@ || ascii_lower(trimmed(side)) == "sell"@ || ascii_lower(trimmed(side))
            == "short"@),
{
    reveal_strlit("buy");
    reveal_strlit("long");
    reveal_strlit("sell");
    reveal_strlit("short");
    assert("buy"@.len() == 3 && "short"@.len() == 5);
    assert("long"@.len() == 4 && "long"@[0] == 'l');
    assert("sell"@.len() == 4 && "sell"@[0] == 's');
}

/// A normalised side text depends only on the side's trimmed, ASCII lower
/// case form, and holds no ASCII upper-case letter.
pub proof fn lemma_pos_side_text_ignores_case(a: Seq<char>, b: Seq<char>)
    ensures
        ascii_lower(trimmed(a)) == ascii_lower(trimmed(b)) ==> pos_side_text(a) == pos_side_text(b),
        forall|i: int| 0 <= i < pos_side_text(a).len() ==> !('A' <= #[trigger] pos_side_text(a)[i] && pos_side_text(a)[i] <= 'Z'),
{
    reveal_strlit("long");
    reveal_strlit("short");
    assert forall|i: int| 0 <= i < pos_side_text(a).len() implies !('A' <= #[trigger] pos_side_text(a)[i]
        && pos_side_text(a)[i] <= 'Z') by {
        if position_side_of(a) is None {
            let c = trimmed(a)[i];
            assert(pos_side_text(a)[i] == crate::text::ascii_lower_char(c));
        }
    }
}

/// Buying and selling name opposite position sides: a side text and its
/// counterpart (`buy`/`sell`, `long`/`short`) never name the same side.
pub proof fn lemma_buy_and_sell_are_opposite(buy: Seq<char>, sell: Seq<char>)
    requires
        ascii_lower(trimmed(buy)) == "buy"@ || ascii_lower(trimmed(buy)) == "long"@,
        ascii_lower(trimmed(sell)) == "sell"@ || ascii_lower(trimmed(sell)) == "short"@,
    ensures
        position_side_of(buy) is Some,
        position_side_of(sell) is Some,
        position_side_of(buy) != position_side_of(sell),
{
    reveal_strlit("buy");
    reveal_strlit("long");
    reveal_strlit("sell");
    reveal_strlit("short");
    assert("buy"@.len() == 3 && "short"@.len() == 5);
    assert("long"@.len() == 4 && "long"@[0] == 'l');
    assert("sell"@.len() == 4 && "sell"@[0] == 's');
}

/// A collision under target kind `any` needs a protective order that is
/// still working: the identity must hit, in the action's scope, an open risk
/// order and an exchange order. A risk order that was filled or cancelled
/// never makes one.
pub proof fn lemma_collision_needs_working_risk_order(
    orders: Seq<ManagedOrder>,
    target_kind: StrategyOrderTargetKind,
    order_id: Seq<char>,
    client_order_id: Seq<char>,
    scope_explicit: bool,
    symbol: Seq<char>,
)
    ensures
        any_kind_collision(orders, target_kind, order_id, client_order_id, scope_explicit, symbol) ==> {
            &&& target_kind is Any
            &&& exists|i: int|
                0 <= i < orders.len() && (#[trigger] orders[i]).action is Risk && orders[i].open && names(
                    orders[i],
                    order_id,
                    client_order_id,
                ) && scope_matches(orders[i].symbol@, symbol, scope_explicit)
            &&& exists|j: int|
                0 <= j < orders.len() && !((#[trigger] orders[j]).action is Risk) && names(
                    orders[j],
                    order_id,
                    client_order_id,
                ) && scope_matches(orders[j].symbol@, symbol, scope_explicit)
        },
        (forall|i: int| 0 <= i < orders.len() && (#[trigger] orders[i]).action is Risk ==> !orders[i].open)
            ==> !any_kind_collision(orders, target_kind, order_id, client_order_id, scope_explicit, symbol),
{
}

/// With target kind `any`, an identity that hits, in scope, both an open
/// risk order and an exchange order is a collision.
pub proof fn lemma_working_risk_and_exchange_order_collide(
    orders: Seq<ManagedOrder>,
    order_id: Seq<char>,
    client_order_id: Seq<char>,
    scope_explicit: bool,
    symbol: Seq<char>,
    i: int,
    j: int,
)
    requires
        0 <= i < orders.len(),
        0 <= j < orders.len(),
        orders[i].action is Risk,
        orders[i].open,
        !(orders[j].action is Risk),
        names(orders[i], order_id, client_order_id),
        names(orders[j], order_id, client_order_id),
        scope_matches(orders[i].symbol@, symbol, scope_explicit),
        scope_matches(orders[j].symbol@, symbol, scope_explicit),
    ensures
        any_kind_collision(
            orders,
            StrategyOrderTargetKind::Any,
            order_id,
            client_order_id,
            scope_explicit,
            symbol,
        ),
{
    assert(orders[i].action is Risk);
    assert(!(orders[j].action is Risk));
}

} // verus!

verus! {

/// The submission keys of the actions the backtest has taken, so that an
/// action repeated by the strategy is skipped.
pub struct SubmittedActions {
    keys: crate::refs::RefCounts,
}

impl SubmittedActions {
    pub closed spec fn wf(&self) -> bool {
        self.keys.wf()
    }

    /// The keys already taken.
    pub closed spec fn seen(&self) -> Set<Seq<char>> {
        self.keys@.dom()
    }

    /// Nothing taken yet.
    pub fn new() -> (s: SubmittedActions)
        ensures
            s.wf(),
            s.seen() == Set::<Seq<char>>::empty(),
    {
        let s = SubmittedActions { keys: crate::refs::RefCounts::new() };
        assert(s.seen() =~= Set::<Seq<char>>::empty());
        s
    }

    /// Whether an action goes ahead: `hold` always does and is not
    /// recorded; any other action does the first time its key is seen.
    pub fn should_submit(&mut self, action: StrategyIntentAction, key: &str) -> (b: bool)
        requires
            old(self).wf(),
        ensures
            final(self).wf(),
            action is Hold ==> b && final(self).seen() == old(self).seen(),
            !(action is Hold) ==> b == !old(self).seen().contains(key@) && final(self).seen()
                == old(self).seen().insert(key@),
    {
        if action == StrategyIntentAction::Hold {
            return true;
        }
        if self.keys.contains_key(key) {
            assert(old(self).seen().insert(key@) =~= old(self).seen());
            return false;
        }
        self.keys.increment(key);
        assert(self.seen() =~= old(self).seen().insert(key@));
        true
    }
}

/// Once an action has gone ahead, its key is among those seen, so any later
/// action (other than `hold`) with the same key is skipped.
pub proof fn lemma_repeated_action_skipped(before: SubmittedActions, after: SubmittedActions, key: Seq<char>)
    requires
        after.seen() == before.seen().insert(key),
    ensures
        after.seen().contains(key),
{
}

} // verus!

verus! {

/// Whether some position with a quantity is on `side`.
pub open spec fn holds_side(positions: Seq<(bool, &str)>, side: Seq<char>) -> bool {
    exists|i: int| 0 <= i < positions.len() && (#[trigger] positions[i]).0 && positions[i].1@ == side
}

/// The side of all open positions together: `long`, `short`, `mixed` when
/// both are held, `flat` when neither is. Each position is given by
/// whether it holds a quantity, and its side.
pub fn aggregate_position_side(positions: &[(bool, &str)]) -> (out: &'static str)
    ensures
        out@ == (if holds_side(positions@, "long"@) {
            if holds_side(positions@, "short"@) {
                "mixed"@
            } else {
                "long"@
            }
        } else if holds_side(positions@, "short"@) {
            "short"@
        } else {
            "flat"@
        }),
{
    let mut has_long = false;
    let mut has_short = false;
    let mut i: usize = 0;
    while i < positions.len()
        invariant
            i <= positions@.len(),
            has_long == exists|j: int| 0 <= j < i && (#[trigger] positions@[j]).0 && positions@[j].1@ == "long"@,
            has_short == exists|j: int| 0 <= j < i && (#[trigger] positions@[j]).0 && positions@[j].1@ == "short"@,
        decreases positions.len() - i,
    {
        let (open, side) = positions[i];
        if open && str_eq(side, "long") {
            has_long = true;
        }
        if open && str_eq(side, "short") {
            has_short = true;
        }
        i = i + 1;
    }
    match (has_long, has_short) {
        (true, true) => "mixed",
        (true, false) => "long",
        (false, true) => "short",
        (false, false) => "flat",
    }
}

} // verus!

verus! {

/// The order kind recorded for a refused intent: a close, a protective
/// order, or else an open.
pub fn rejected_order_action(action: StrategyIntentAction) -> (out: OrderAction)
    ensures
        out == (match action {
            StrategyIntentAction::ClosePosition => OrderAction::Close,
            StrategyIntentAction::PlaceRiskOrder => OrderAction::Risk,
            _ => OrderAction::Open,
        }),
{
    match action {
        StrategyIntentAction::ClosePosition => OrderAction::Close,
        StrategyIntentAction::PlaceRiskOrder => OrderAction::Risk,
        _ => OrderAction::Open,
    }
}

/// Whether an intent places an order, and so needs the candles of its own
/// symbol and timeframe to be matched against.
pub fn intent_requires_matching_candle_series(action: StrategyIntentAction) -> (b: bool)
    ensures
        b == (action is OpenPosition || action is ClosePosition || action is PlaceRiskOrder),
{
    match action {
        StrategyIntentAction::OpenPosition | StrategyIntentAction::ClosePosition
        | StrategyIntentAction::PlaceRiskOrder => true,
        _ => false,
    }
}

/// Why an order intent is refused when its candles were not loaded.
pub fn missing_candle_series_reason(symbol: &str, timeframe: &str) -> (out: String)
    ensures
        out@ == "回测缺少订单撮合K线序列 "@ + symbol@ + " "@ + timeframe@
            + "，请在策略 DATA_REQUIREMENTS 中声明该周期或改用主周期"@,
{
    let mut out = owned("回测缺少订单撮合K线序列 ");
    append_str(&mut out, symbol);
    append_str(&mut out, " ");
    append_str(&mut out, timeframe);
    append_str(&mut out, "，请在策略 DATA_REQUIREMENTS 中声明该周期或改用主周期");
    out
}

/// The target a cancel or modify intent names.
pub struct ManagementTargetFields {
    pub target_kind: StrategyOrderTargetKind,
    pub order_id: String,
    pub client_order_id: String,
}

/// The kind and identity an intent's order management targets: those of
/// its cancel, else of its modify; with neither, any kind and empty ids.
pub fn management_target(cancel: Option<&ManagementTargetFields>, modify: Option<&ManagementTargetFields>) -> (out: (
    StrategyOrderTargetKind,
    String,
    String,
))
    ensures
        match cancel {
            Some(c) => out.0 == c.target_kind && out.1@ == c.order_id@ && out.2@ == c.client_order_id@,
            None => match modify {
                Some(m) => out.0 == m.target_kind && out.1@ == m.order_id@ && out.2@ == m.client_order_id@,
                None => out.0 == StrategyOrderTargetKind::Any && out.1@.len() == 0 && out.2@.len() == 0,
            },
        },
{
    match cancel {
        Some(c) => (c.target_kind, c.order_id.clone(), c.client_order_id.clone()),
        None => match modify {
            Some(m) => (m.target_kind, m.order_id.clone(), m.client_order_id.clone()),
            None => (StrategyOrderTargetKind::Any, String::new(), String::new()),
        },
    }
}

} // verus!
