use trading_core::contract::{StrategyIntentAction, StrategyOrderTargetKind};
use trading_core::semantics::{
    action_dedupe_identity, action_submission_key, signed_decimal_text, ActionDedupeIdentityInput,
    ActionSubmissionKeyInput, RiskOrderIdentity, action_index_submission_key, normalize_action_name, normalize_identity_text,
    normalize_key_text, normalize_order_management_decimal, trim_decimal_fraction, order_management_action_identity, order_management_identity_matches,
    order_management_scope_matches, order_management_target_kind_allows_class,
    OrderManagementCancelIdentity, OrderManagementModifyIdentity, OrderManagementTargetClass,
};

/// A modify action's size or price in key form, rendered through `f64` as
/// the library's callers do.
fn modify_decimal(value: &str) -> String {
    let rendered = value
        .trim()
        .parse::<f64>()
        .ok()
        .filter(|parsed| parsed.is_finite())
        .map(|parsed| format!("{parsed:.12}"));
    normalize_order_management_decimal(value, rendered.as_deref())
}

#[test]
fn order_management_identity_normalizes_modify_decimals_and_target_kind() {
    let (size_a, price_a) = (modify_decimal("2.0000"), modify_decimal("101.250000"));
    let (size_b, price_b) = (modify_decimal("2"), modify_decimal("101.25"));
    let first = OrderManagementModifyIdentity {
        target_kind: "Algo",
        target_order_type: Some("stop_market"),
        order_id: "ord-1",
        client_order_id: "cl-1",
        new_size: Some(&size_a),
        new_price: Some(&price_a),
        cancel_on_fail: false,
    };
    let second = OrderManagementModifyIdentity {
        new_size: Some(&size_b),
        new_price: Some(&price_b),
        ..first
    };

    assert_eq!(
        order_management_action_identity(None, Some(first)),
        order_management_action_identity(None, Some(second))
    );
    assert_eq!(
        order_management_action_identity(None, Some(first)).as_deref(),
        Some("modify|kind=algo|target_type=stop_market|ord=ord-1|cl=cl-1|new_size=2|new_price=101.25|cancel_on_fail=false")
    );
}

#[test]
fn order_management_target_matching_rules_are_shared() {
    assert!(order_management_identity_matches(
        "ord-1", "cl-1", "ord-1", ""
    ));
    assert!(order_management_identity_matches(
        "ord-1", "cl-1", "", "cl-1"
    ));
    assert!(!order_management_identity_matches("ord-1", "cl-1", "", ""));
    assert!(order_management_scope_matches(
        "BTC-USDT-SWAP",
        "btc-usdt-swap",
        true
    ));
    assert!(!order_management_scope_matches(
        "BTC-USDT-SWAP",
        "ETH-USDT-SWAP",
        true
    ));
    assert!(order_management_scope_matches(
        "BTC-USDT-SWAP",
        "ETH-USDT-SWAP",
        false
    ));
    assert!(order_management_target_kind_allows_class(
        "any",
        OrderManagementTargetClass::Exchange
    ));
    assert!(order_management_target_kind_allows_class(
        "algo",
        OrderManagementTargetClass::Algo
    ));
    assert!(!order_management_target_kind_allows_class(
        "exchange",
        OrderManagementTargetClass::Algo
    ));
}

#[test]
fn cancel_identity_wins_over_modify_and_trims_ids() {
    let cancel = OrderManagementCancelIdentity {
        target_kind: " Exchange ",
        order_id: " ord-9 ",
        client_order_id: "",
    };
    let modify = OrderManagementModifyIdentity {
        target_kind: "algo",
        target_order_type: None,
        order_id: "x",
        client_order_id: "y",
        new_size: None,
        new_price: None,
        cancel_on_fail: true,
    };
    assert_eq!(
        order_management_action_identity(Some(cancel), Some(modify)).as_deref(),
        Some("cancel|kind=exchange|ord=ord-9|cl=")
    );
    assert_eq!(
        order_management_action_identity(None, Some(modify)).as_deref(),
        Some("modify|kind=algo|target_type=|ord=x|cl=y|new_size=|new_price=|cancel_on_fail=true")
    );
    assert_eq!(order_management_action_identity(None, None), None);
}

#[test]
fn identity_needs_non_blank_targets() {
    assert!(!order_management_identity_matches("", "", "  ", "  "));
    assert!(order_management_identity_matches("a", "b", "zz", "b"));
    assert!(!order_management_identity_matches("a", "b", "A", ""));
    assert!(!order_management_target_kind_allows_class(
        "everything",
        OrderManagementTargetClass::Exchange
    ));
    assert!(order_management_target_kind_allows_class(
        " EXCHANGE ",
        OrderManagementTargetClass::Exchange
    ));
}

#[test]
fn submission_index_key_is_blank_for_identified_non_open_actions() {
    assert_eq!(action_index_submission_key("cancel_order", Some("cancel|ord=1"), 9), "");
    assert_eq!(action_index_submission_key(" Open_Position ", Some("x"), 9), "9");
    assert_eq!(action_index_submission_key("cancel_order", None, 1234), "1234");
    assert_eq!(action_index_submission_key("hold", None, 0), "0");
}

#[test]
fn key_texts_are_trimmed_lowercase() {
    assert_eq!(normalize_key_text("  Stop_Market "), "stop_market");
    assert_eq!(normalize_identity_text("\tSELL\n"), "sell");
    assert_eq!(normalize_action_name(" CANCEL_ORDER"), "cancel_order");
}

#[test]
fn intent_vocabulary_names() {
    assert_eq!(StrategyOrderTargetKind::Any.as_str(), "any");
    assert_eq!(StrategyOrderTargetKind::Exchange.as_str(), "exchange");
    assert_eq!(StrategyOrderTargetKind::Algo.as_str(), "algo");
    assert!(StrategyOrderTargetKind::Any.allows_exchange());
    assert!(StrategyOrderTargetKind::Any.allows_algo());
    assert!(!StrategyOrderTargetKind::Exchange.allows_algo());
    assert!(!StrategyOrderTargetKind::Algo.allows_exchange());
    assert_eq!(StrategyOrderTargetKind::default(), StrategyOrderTargetKind::Any);
    assert_eq!(StrategyIntentAction::PlaceRiskOrder.as_str(), "place_risk_order");
    assert_eq!(StrategyIntentAction::Hold.as_str(), "hold");
    assert!(StrategyIntentAction::ClosePosition.closes_position());
    assert!(!StrategyIntentAction::OpenPosition.closes_position());
}

/// Key form of a number: twelve decimals, trailing zeros and point stripped;
/// empty when it is not finite.
fn key_number(value: f64) -> String {
    if !value.is_finite() {
        return String::new();
    }
    trim_decimal_fraction(&format!("{value:.12}"))
}

#[test]
fn action_identity_includes_open_and_standalone_risk_details() {
    let trigger = key_number(94.0);
    let stop = key_number(0.06);
    let slippage = key_number(0.002);
    let risk_orders = [RiskOrderIdentity {
        symbol: "BTC-USDT-SWAP",
        side: "sell",
        order_type: "stop_market",
        trigger_price: Some(&trigger),
        stop_loss: Some(&stop),
        take_profit: None,
    }];

    assert_eq!(
        action_dedupe_identity(ActionDedupeIdentityInput {
            action: "open_position",
            cancel_order: None,
            modify_order: None,
            stop_loss: Some(&stop),
            take_profit: None,
            max_slippage: Some(&slippage),
            attached_risk_orders: &risk_orders,
        })
        .as_deref(),
        Some("open_risk|sl=0.06|tp=|slip=0.002|attached=sym=BTC-USDT-SWAP|side=sell|type=stop_market|trigger=94|sl=0.06|tp=")
    );
    assert_eq!(
        action_dedupe_identity(ActionDedupeIdentityInput {
            action: "place_risk_order",
            cancel_order: None,
            modify_order: None,
            stop_loss: None,
            take_profit: None,
            max_slippage: None,
            attached_risk_orders: &risk_orders,
        })
        .as_deref(),
        Some("place_risk_order|attached=sym=BTC-USDT-SWAP|side=sell|type=stop_market|trigger=94|sl=0.06|tp=")
    );
}

#[test]
fn action_submission_key_omits_market_price_and_ignores_index_for_identified_non_open() {
    let price = key_number(100.0);
    let size = key_number(0.2);
    let key = action_submission_key(ActionSubmissionKeyInput {
        symbol: "btc-usdt-swap",
        action: "cancel_order",
        order_type: "market",
        action_side: "buy",
        action_price: &price,
        order_type_omits_price: true,
        action_position_size: Some(&size),
        action_timestamp: 123,
        order_side: Some("sell"),
        exchange_size: Some("2"),
        planned_exit_timestamp: Some(456),
        action_identity: Some("cancel|ord=1"),
        action_index: 9,
    });

    assert_eq!(
        key,
        "BTC-USDT-SWAP|123|cancel_order|market|buy||0.2|sell|2|456|cancel|ord=1|"
    );
}

#[test]
fn open_actions_keep_their_index_and_default_planned_exit() {
    let price = key_number(101.5);
    let key = action_submission_key(ActionSubmissionKeyInput {
        symbol: " eth-usdt ",
        action: " Open_Position ",
        order_type: "LIMIT",
        action_side: "Buy",
        action_price: &price,
        order_type_omits_price: false,
        action_position_size: None,
        action_timestamp: -5,
        order_side: None,
        exchange_size: None,
        planned_exit_timestamp: None,
        action_identity: Some("open_risk|x"),
        action_index: 12,
    });
    assert_eq!(key, "ETH-USDT|-5|open_position|limit|buy|101.5||||0|open_risk|x|12");
}

#[test]
fn dedupe_identity_is_absent_without_risk_details() {
    let empty: [RiskOrderIdentity; 0] = [];
    let input = ActionDedupeIdentityInput {
        action: "open_position",
        cancel_order: None,
        modify_order: None,
        stop_loss: None,
        take_profit: None,
        max_slippage: None,
        attached_risk_orders: &empty,
    };
    assert_eq!(action_dedupe_identity(input), None);
    assert_eq!(action_dedupe_identity(ActionDedupeIdentityInput { action: "place_risk_order", ..input }), None);
    assert_eq!(action_dedupe_identity(ActionDedupeIdentityInput { action: "close_position", ..input }), None);
    assert_eq!(
        action_dedupe_identity(ActionDedupeIdentityInput {
            cancel_order: Some(OrderManagementCancelIdentity {
                target_kind: "Any",
                order_id: " 7 ",
                client_order_id: "",
            }),
            ..input
        })
        .as_deref(),
        Some("cancel|kind=any|ord=7|cl=")
    );
}

#[test]
fn signed_decimals() {
    assert_eq!(signed_decimal_text(0), "0");
    assert_eq!(signed_decimal_text(-42), "-42");
    assert_eq!(signed_decimal_text(i64::MIN), "-9223372036854775808");
    assert_eq!(signed_decimal_text(i64::MAX), "9223372036854775807");
}

#[test]
fn modify_decimals_in_key_form() {
    assert_eq!(modify_decimal(" 2.0000 "), "2");
    assert_eq!(modify_decimal("101.250000"), "101.25");
    assert_eq!(modify_decimal("1e2"), "100");
    assert_eq!(modify_decimal("+2"), "2");
    assert_eq!(modify_decimal("02.50"), "2.5");
    assert_eq!(modify_decimal(".5"), "0.5");
    assert_eq!(modify_decimal("0.1234567890123"), "0.123456789012");
    assert_eq!(modify_decimal("   "), "");
    assert_eq!(modify_decimal(" abc "), "abc");
    assert_eq!(normalize_order_management_decimal(" 7 ", Some("7.000000000000")), "7");
    assert_eq!(normalize_order_management_decimal(" inf ", None), "inf");
    assert_eq!(normalize_order_management_decimal("  ", Some("1.0")), "");
}

#[test]
fn fixed_point_renderings_lose_trailing_zeros_and_point() {
    assert_eq!(trim_decimal_fraction("100.000000000000"), "100");
    assert_eq!(trim_decimal_fraction("101.250000000000"), "101.25");
    assert_eq!(trim_decimal_fraction("0.000000000000"), "0");
    assert_eq!(trim_decimal_fraction("-0.500000000000"), "-0.5");
}
