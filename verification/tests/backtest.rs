use trading_core::contract::{planned_exit_contract_status, runtime_action_counts, StrategyIntentAction, StrategyOrderTargetKind};
use trading_core::market_data::{
    between, candles_by_timestamp, usable_funding_points, last_at_or_before, next_between, sample_indices, sample_step,
    HistoricalCandleSeries, HistoricalMarketData,
};
use trading_core::orders::{
    ambiguous_management_target_reason, any_target_kind_hits_exchange_and_active_algo,
    find_management_target, management_target_matches_order, norm_inst_type, norm_pos_side,
    norm_symbol, norm_timeframe, normalized_position_side, order_action_label, order_target_class,
    push_unique_symbol, resolve_management_target, ManagedOrder, ManagementTarget, OrderAction,
    intent_requires_matching_candle_series, management_target, missing_candle_series_reason,
    rejected_order_action, ManagementTargetFields,
};
use trading_core::semantics::OrderManagementTargetClass;

const SYMBOL: &str = "BTC-USDT-SWAP";
const INST_TYPE: &str = "SWAP";
const TIMEFRAME: &str = "1m";

/// Open, high, low, close, volume.
type Bar = (f64, f64, f64, f64, f64);

fn candle(timestamp: i64, open: f64, high: f64, low: f64, close: f64, volume: f64) -> (i64, (i64, Bar)) {
    (timestamp, (timestamp, (open, high, low, close, volume)))
}

fn last_close(market: &HistoricalMarketData<(i64, Bar), f64>, symbol: &str, timeframe: &str, ts: i64) -> Option<f64> {
    let series = market.candle_series(symbol, timeframe);
    last_at_or_before(series, ts)
        .map(|i| (series[i].1).1 .3)
        .filter(|value| value.is_finite() && *value > 0.0)
}

#[test]
fn historical_market_data_merges_duplicate_series_instead_of_overwriting() {
    let market: HistoricalMarketData<(i64, Bar), f64> = HistoricalMarketData::new(vec![
        HistoricalCandleSeries {
            symbol: SYMBOL.to_string(),
            inst_type: INST_TYPE.to_string(),
            timeframe: TIMEFRAME.to_string(),
            candles: vec![
                candle(1, 100.0, 101.0, 99.0, 100.0, 10.0),
                candle(2, 120.0, 121.0, 119.0, 120.0, 10.0),
            ],
        },
        HistoricalCandleSeries {
            symbol: SYMBOL.to_string(),
            inst_type: INST_TYPE.to_string(),
            timeframe: TIMEFRAME.to_string(),
            candles: vec![
                candle(2, 125.0, 126.0, 124.0, 125.0, 10.0),
                candle(3, 130.0, 131.0, 129.0, 130.0, 10.0),
            ],
        },
    ]);

    assert_eq!(last_close(&market, SYMBOL, TIMEFRAME, 1), Some(100.0));
    assert_eq!(last_close(&market, SYMBOL, TIMEFRAME, 2), Some(125.0));
    assert_eq!(last_close(&market, SYMBOL, TIMEFRAME, 3), Some(130.0));
}

#[test]
fn historical_market_data_merges_duplicate_funding_series_instead_of_overwriting() {
    let mut market: HistoricalMarketData<(i64, Bar), f64> = HistoricalMarketData::new(vec![HistoricalCandleSeries {
        symbol: SYMBOL.to_string(),
        inst_type: INST_TYPE.to_string(),
        timeframe: TIMEFRAME.to_string(),
        candles: vec![candle(1, 100.0, 101.0, 99.0, 100.0, 10.0)],
    }]);
    market.insert_funding(SYMBOL, INST_TYPE, vec![(1, 0.001), (2, 0.002)]);
    market.insert_funding(SYMBOL, INST_TYPE, vec![(2, 0.003), (3, 0.004)]);

    let rates = market.funding_series(SYMBOL, INST_TYPE);
    let observed = between(rates, 0, 3)
        .into_iter()
        .map(|i| rates[i])
        .collect::<Vec<_>>();
    assert_eq!(observed, vec![(1, 0.001), (2, 0.003), (3, 0.004)]);
}

#[test]
fn market_data_keys_are_normalised() {
    let market: HistoricalMarketData<(i64, Bar), f64> = HistoricalMarketData::new(vec![HistoricalCandleSeries {
        symbol: " btc-usdt-swap ".to_string(),
        inst_type: INST_TYPE.to_string(),
        timeframe: " 1M ".to_string(),
        candles: vec![candle(5, 1.0, 1.0, 1.0, 1.0, 1.0)],
    }]);
    assert!(market.has_candle_series(SYMBOL, "1m"));
    assert!(!market.has_candle_series(SYMBOL, "5m"));
    assert_eq!(market.candle_series("BTC-USDT-SWAP", "1m").len(), 1);
    assert!(!market.has_funding_series(SYMBOL, INST_TYPE));
}

#[test]
fn funding_series_is_known_once_added_even_when_empty() {
    let mut market: HistoricalMarketData<(i64, Bar), f64> = HistoricalMarketData::empty();
    market.insert_funding("btc-usdt-swap", "swap", Vec::new());
    assert!(market.has_funding_series(SYMBOL, INST_TYPE));
    assert!(market.funding_series(SYMBOL, INST_TYPE).is_empty());
    assert!(!market.has_funding_series(SYMBOL, "SPOT"));
}

#[test]
fn candles_are_ordered_and_later_duplicates_win() {
    let out = candles_by_timestamp(vec![(3, 'a'), (1, 'b'), (3, 'c'), (2, 'd'), (1, 'e')]);
    assert_eq!(out, vec![(1, 'e'), (2, 'd'), (3, 'c')]);
    assert!(candles_by_timestamp::<u8>(Vec::new()).is_empty());
}

#[test]
fn window_lookups_pick_the_expected_entries() {
    let series = vec![(10, 'a'), (20, 'b'), (30, 'c')];
    assert_eq!(next_between(&series, 10, 30), Some(1));
    assert_eq!(next_between(&series, 30, 40), None);
    assert_eq!(next_between(&series, 0, 5), None);
    assert_eq!(last_at_or_before(&series, 25), Some(1));
    assert_eq!(last_at_or_before(&series, 30), Some(2));
    assert_eq!(last_at_or_before(&series, 5), None);
    assert_eq!(between(&series, 10, 30), vec![1, 2]);
    assert_eq!(between(&series, 30, 10), Vec::<usize>::new());
    assert_eq!(between(&series, 0, 100), vec![0, 1, 2]);
}

#[test]
fn sampling_keeps_a_bounded_number_of_points_and_the_last() {
    assert_eq!(sample_step(10, 0), 1);
    assert_eq!(sample_step(10, 20), 1);
    assert_eq!(sample_step(10, 3), 4);
    assert_eq!(sample_step(9, 3), 3);
    assert_eq!(sample_indices(10, 4), vec![0, 4, 8, 9]);
    assert_eq!(sample_indices(9, 3), vec![0, 3, 6, 8]);
    assert_eq!(sample_indices(7, 3), vec![0, 3, 6]);
    assert_eq!(sample_indices(0, 3), Vec::<usize>::new());
    assert_eq!(sample_indices(3, 0), vec![0, 1, 2]);
}

#[test]
fn order_labels_and_classes() {
    assert_eq!(order_action_label(OrderAction::Open), "open_position");
    assert_eq!(order_action_label(OrderAction::Close), "close_position");
    assert_eq!(order_action_label(OrderAction::Risk), "place_risk_order");
    assert_eq!(order_target_class(OrderAction::Risk), OrderManagementTargetClass::Algo);
    assert_eq!(order_target_class(OrderAction::Open), OrderManagementTargetClass::Exchange);
    assert!(management_target_matches_order(OrderAction::Risk, StrategyOrderTargetKind::Algo));
    assert!(!management_target_matches_order(OrderAction::Close, StrategyOrderTargetKind::Algo));
    assert!(management_target_matches_order(OrderAction::Close, StrategyOrderTargetKind::Any));
    assert!(!management_target_matches_order(OrderAction::Risk, StrategyOrderTargetKind::Exchange));
}

#[test]
fn text_normalisation_of_orders() {
    assert_eq!(norm_symbol(" btc-usdt "), "BTC-USDT");
    assert_eq!(norm_inst_type(" swap"), "SWAP");
    assert_eq!(norm_timeframe(" 1H "), "1h");
    assert_eq!(norm_pos_side(" Long "), "long");
    assert_eq!(normalized_position_side(" LONG "), Some("long"));
    assert_eq!(normalized_position_side("short"), Some("short"));
    assert_eq!(normalized_position_side("net"), None);
}

#[test]
fn unique_symbols_are_normalised_and_not_repeated() {
    let mut symbols = Vec::new();
    push_unique_symbol(&mut symbols, "btc-usdt");
    push_unique_symbol(&mut symbols, " BTC-USDT ");
    push_unique_symbol(&mut symbols, "   ");
    push_unique_symbol(&mut symbols, "eth-usdt");
    assert_eq!(symbols, vec!["BTC-USDT".to_string(), "ETH-USDT".to_string()]);
}

fn order(order_id: &str, client_order_id: &str, symbol: &str, action: OrderAction, open: bool) -> ManagedOrder {
    ManagedOrder {
        order_id: order_id.to_string(),
        client_order_id: client_order_id.to_string(),
        symbol: symbol.to_string(),
        action,
        open,
    }
}

#[test]
fn cross_symbol_identity_is_ambiguous_without_explicit_scope() {
    let orders = vec![
        order("o-1", "shared", "BTC-USDT-SWAP", OrderAction::Open, true),
        order("o-2", "shared", "eth-usdt-swap", OrderAction::Close, true),
    ];
    let reason = ambiguous_management_target_reason(
        &orders,
        StrategyOrderTargetKind::Any,
        "",
        "shared",
        false,
        "cancel_order",
    );
    assert_eq!(
        reason.as_deref(),
        Some("cancel_order 未显式提供 symbol 且目标普通订单身份同时命中多个交易对: BTC-USDT-SWAP, ETH-USDT-SWAP，已拒绝以避免误撤或误改")
    );
    assert_eq!(
        ambiguous_management_target_reason(&orders, StrategyOrderTargetKind::Any, "", "shared", true, "cancel_order"),
        None
    );
    assert_eq!(
        ambiguous_management_target_reason(&orders, StrategyOrderTargetKind::Algo, "", "shared", false, "cancel_order"),
        None
    );
    let resolved = resolve_management_target(
        &orders,
        StrategyOrderTargetKind::Any,
        "",
        "shared",
        false,
        "BTC-USDT-SWAP",
        "cancel_order",
    );
    assert!(matches!(resolved, ManagementTarget::Ambiguous(_)));
    let scoped = resolve_management_target(
        &orders,
        StrategyOrderTargetKind::Any,
        "",
        "shared",
        true,
        "ETH-USDT-SWAP",
        "cancel_order",
    );
    assert!(matches!(scoped, ManagementTarget::Found(1)));
}

#[test]
fn algo_ambiguity_counts_only_open_risk_orders() {
    let orders = vec![
        order("a-1", "", "BTC-USDT-SWAP", OrderAction::Risk, true),
        order("a-1", "", "ETH-USDT-SWAP", OrderAction::Risk, true),
        order("a-1", "", "SOL-USDT-SWAP", OrderAction::Risk, false),
    ];
    assert_eq!(
        ambiguous_management_target_reason(&orders, StrategyOrderTargetKind::Algo, "a-1", "", false, "modify_order")
            .as_deref(),
        Some("modify_order 未显式提供 symbol 且目标保护单身份同时命中多个交易对: BTC-USDT-SWAP, ETH-USDT-SWAP，已拒绝以避免误撤或误改")
    );
}

#[test]
fn any_target_kind_collision_between_exchange_and_algo_orders() {
    let orders = vec![
        order("same", "", "BTC-USDT-SWAP", OrderAction::Open, true),
        order("same", "", "BTC-USDT-SWAP", OrderAction::Risk, true),
    ];
    assert!(any_target_kind_hits_exchange_and_active_algo(
        &orders,
        StrategyOrderTargetKind::Any,
        "same",
        "",
        true,
        "BTC-USDT-SWAP",
    ));
    assert!(!any_target_kind_hits_exchange_and_active_algo(
        &orders,
        StrategyOrderTargetKind::Exchange,
        "same",
        "",
        true,
        "BTC-USDT-SWAP",
    ));
    let resolved = resolve_management_target(
        &orders,
        StrategyOrderTargetKind::Any,
        "same",
        "",
        true,
        "BTC-USDT-SWAP",
        "cancel_order",
    );
    assert!(matches!(resolved, ManagementTarget::ExchangeAlgoCollision));
    let exchange = resolve_management_target(
        &orders,
        StrategyOrderTargetKind::Exchange,
        "same",
        "",
        true,
        "BTC-USDT-SWAP",
        "cancel_order",
    );
    assert!(matches!(exchange, ManagementTarget::Found(0)));
    let algo = resolve_management_target(
        &orders,
        StrategyOrderTargetKind::Algo,
        "same",
        "",
        true,
        "BTC-USDT-SWAP",
        "cancel_order",
    );
    assert!(matches!(algo, ManagementTarget::Found(1)));
}

#[test]
fn missing_or_closed_targets_are_not_found() {
    let orders = vec![
        order("o-1", "c-1", "BTC-USDT-SWAP", OrderAction::Open, false),
        order("o-2", "c-2", "BTC-USDT-SWAP", OrderAction::Open, true),
    ];
    assert_eq!(
        find_management_target(&orders, StrategyOrderTargetKind::Any, "o-1", "", true, "BTC-USDT-SWAP"),
        None
    );
    assert_eq!(
        find_management_target(&orders, StrategyOrderTargetKind::Any, "", "c-2", true, "btc-usdt-swap"),
        Some(1)
    );
    assert_eq!(
        find_management_target(&orders, StrategyOrderTargetKind::Any, "o-2", "", true, "ETH-USDT-SWAP"),
        None
    );
    let resolved = resolve_management_target(
        &orders,
        StrategyOrderTargetKind::Any,
        "missing",
        "",
        false,
        "BTC-USDT-SWAP",
        "cancel_order",
    );
    assert!(matches!(resolved, ManagementTarget::Missing));
}

#[test]
fn target_kinds_and_intent_actions_have_stable_names() {
    assert_eq!(StrategyOrderTargetKind::default(), StrategyOrderTargetKind::Any);
    assert_eq!(StrategyOrderTargetKind::Any.as_str(), "any");
    assert_eq!(StrategyOrderTargetKind::Exchange.as_str(), "exchange");
    assert_eq!(StrategyOrderTargetKind::Algo.as_str(), "algo");
    assert!(StrategyOrderTargetKind::Any.allows_exchange() && StrategyOrderTargetKind::Any.allows_algo());
    assert!(!StrategyOrderTargetKind::Exchange.allows_algo());
    assert!(!StrategyOrderTargetKind::Algo.allows_exchange());
    assert!(StrategyIntentAction::ClosePosition.closes_position());
    assert!(!StrategyIntentAction::OpenPosition.closes_position());
    assert_eq!(StrategyIntentAction::OpenPosition.as_str(), "open_position");
}

#[test]
fn planned_exit_status_covers_each_case() {
    assert_eq!(planned_exit_contract_status(0, 0), "no_open_actions");
    assert_eq!(planned_exit_contract_status(3, 3), "planned_exit_complete");
    assert_eq!(planned_exit_contract_status(3, 1), "planned_exit_partial");
    assert_eq!(planned_exit_contract_status(3, 0), "planned_exit_missing");
}

#[test]
fn refused_intents_are_recorded_with_their_order_kind() {
    assert_eq!(rejected_order_action(StrategyIntentAction::ClosePosition), OrderAction::Close);
    assert_eq!(rejected_order_action(StrategyIntentAction::PlaceRiskOrder), OrderAction::Risk);
    assert_eq!(rejected_order_action(StrategyIntentAction::CancelOrder), OrderAction::Open);
    assert!(intent_requires_matching_candle_series(StrategyIntentAction::OpenPosition));
    assert!(intent_requires_matching_candle_series(StrategyIntentAction::PlaceRiskOrder));
    assert!(!intent_requires_matching_candle_series(StrategyIntentAction::ModifyOrder));
    assert!(!intent_requires_matching_candle_series(StrategyIntentAction::Hold));
    assert!(missing_candle_series_reason(SYMBOL, "5m").contains("回测缺少订单撮合K线序列 BTC-USDT-SWAP 5m"));
}

#[test]
fn management_target_prefers_cancel_over_modify() {
    let cancel = ManagementTargetFields {
        target_kind: StrategyOrderTargetKind::Exchange,
        order_id: "o-1".to_string(),
        client_order_id: String::new(),
    };
    let modify = ManagementTargetFields {
        target_kind: StrategyOrderTargetKind::Algo,
        order_id: String::new(),
        client_order_id: "c-2".to_string(),
    };
    assert_eq!(
        management_target(Some(&cancel), Some(&modify)),
        (StrategyOrderTargetKind::Exchange, "o-1".to_string(), String::new())
    );
    assert_eq!(
        management_target(None, Some(&modify)),
        (StrategyOrderTargetKind::Algo, String::new(), "c-2".to_string())
    );
    assert_eq!(
        management_target(None, None),
        (StrategyOrderTargetKind::Any, String::new(), String::new())
    );
}

#[test]
fn funding_points_need_a_time_a_symbol_and_an_instrument_type() {
    let points = [
        (1, "BTC-USDT-SWAP", "SWAP"),
        (0, "BTC-USDT-SWAP", "SWAP"),
        (2, "  ", "SWAP"),
        (3, "BTC-USDT-SWAP", ""),
        (-4, "BTC-USDT-SWAP", "SWAP"),
        (5, "BTC-USDT-SWAP", "SWAP"),
    ];
    assert_eq!(usable_funding_points(&points), vec![0, 5]);
}

#[test]
fn runtime_action_counts_tally_actions_and_closes() {
    let actions = [
        (" Open_Position ", true),
        ("open_position", false),
        ("close_position", false),
        ("PLACE_RISK_ORDER", false),
        ("cancel_order", false),
        ("modify_order", false),
        ("hold", false),
        ("hold", false),
        ("rebalance", false),
        ("", false),
    ];
    let trades = [
        (true, Some("close_position"), " planned_exit:take_profit "),
        (true, Some(" Place_Risk_Order "), "filled"),
        (true, None, "stop_loss"),
        (true, Some("close_position"), " take_profit"),
        (true, Some("close_position"), "signal"),
        (false, Some("place_risk_order"), "planned_exit:stop"),
    ];
    let c = runtime_action_counts(&actions, &trades, 0, 0, 0, 0);
    assert_eq!(c.open_position, 2);
    assert_eq!(c.close_position, 1);
    assert_eq!(c.place_risk_order, 1);
    assert_eq!(c.cancel_order, 1);
    assert_eq!(c.modify_order, 1);
    assert_eq!(c.hold, 2);
    assert_eq!(c.unsupported, 2);
    assert_eq!(c.total, 10);
    assert_eq!(c.open_action_count, 2);
    assert_eq!(c.open_actions_with_planned_exit, 1);
    assert_eq!(c.planned_exit_contract, "planned_exit_partial");
    assert_eq!(c.planned_close_count, 1);
    assert_eq!(c.risk_close_count, 3);
    assert!(c.warnings.is_empty());
}

#[test]
fn runtime_action_counts_warn_in_a_fixed_order() {
    let actions = [("open_position", false)];
    let c = runtime_action_counts(&actions, &[], 2, 1, 3, 4);
    assert_eq!(c.planned_exit_contract, "planned_exit_missing");
    assert_eq!(c.open_positions_missing_mark_count, 1);
    assert_eq!(c.funding_mark_price_fallback_count, 3);
    assert_eq!(c.planned_exit_reference_price_fallback_count, 4);
    assert_eq!(
        c.warnings,
        vec![
            "open_actions_missing_planned_exit",
            "open_trades_without_close_events",
            "open_positions_missing_mark_price",
            "funding_mark_price_fallback",
            "planned_exit_reference_price_fallback",
        ]
    );
    let none = runtime_action_counts(&[], &[], 0, 0, 0, 0);
    assert_eq!(none.planned_exit_contract, "no_open_actions");
    assert_eq!(none.total, 0);
    assert!(none.warnings.is_empty());
}
