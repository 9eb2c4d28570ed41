use trading_core::orders::aggregate_position_side;
use trading_core::risk_params::{
    allow_short, bool_param, bool_param_any, correlation_group, position_size_mode, require_stop_loss,
    same_direction_positions, value_matches_symbol, ParamValue, PositionSizeMode,
};

fn text(s: &str) -> ParamValue {
    ParamValue::Text(s.to_string())
}

fn object(entries: Vec<(&str, ParamValue)>) -> ParamValue {
    ParamValue::Object(entries.into_iter().map(|(k, v)| (k.to_string(), v)).collect())
}

#[test]
fn boolean_parameters_are_read_from_booleans_or_texts() {
    let params = object(vec![
        ("a", ParamValue::Bool(true)),
        ("b", text(" No ")),
        ("c", text("maybe")),
        ("d", ParamValue::Number(None)),
    ]);
    assert_eq!(bool_param(&params, "a"), Some(true));
    assert_eq!(bool_param(&params, "b"), Some(false));
    assert_eq!(bool_param(&params, "c"), None);
    assert_eq!(bool_param(&params, "d"), None);
    assert_eq!(bool_param(&params, "missing"), None);
    assert_eq!(bool_param(&ParamValue::Null, "a"), None);
    assert_eq!(bool_param_any(&params, &["missing", "c", "b", "a"]), Some(false));
    assert_eq!(bool_param_any(&params, &[]), None);
}

#[test]
fn stop_loss_requirement_takes_the_first_key_set() {
    assert!(!require_stop_loss(&object(vec![])));
    assert!(require_stop_loss(&object(vec![("stop_loss_required", text("yes"))])));
    assert!(!require_stop_loss(&object(vec![
        ("require_protective_stop", ParamValue::Bool(false)),
        ("stop_loss_required", ParamValue::Bool(true)),
    ])));
}

#[test]
fn sizing_mode_from_parameters() {
    assert_eq!(position_size_mode(&object(vec![])), PositionSizeMode::MarginFraction);
    assert_eq!(
        position_size_mode(&object(vec![("position_size_is_notional", text("true"))])),
        PositionSizeMode::NotionalFraction
    );
    assert_eq!(
        position_size_mode(&object(vec![("position_sizing", text(" Exposure "))])),
        PositionSizeMode::NotionalFraction
    );
    assert_eq!(
        position_size_mode(&object(vec![
            ("position_size_mode", ParamValue::Number(None)),
            ("position_sizing", text("notional")),
        ])),
        PositionSizeMode::MarginFraction
    );
    assert_eq!(
        position_size_mode(&object(vec![
            ("position_size_is_notional", ParamValue::Bool(false)),
            ("position_size_is_effective_notional", ParamValue::Bool(true)),
        ])),
        PositionSizeMode::MarginFraction
    );
}

#[test]
fn symbols_are_matched_in_texts_lists_and_objects() {
    assert!(value_matches_symbol(&text(" btc-usdt "), "BTC-USDT"));
    assert!(value_matches_symbol(
        &ParamValue::List(vec![ParamValue::Number(None), text("eth-usdt"), text("BTC-USDT")]),
        "BTC-USDT"
    ));
    assert!(value_matches_symbol(
        &object(vec![("symbols", ParamValue::List(vec![text("BTC-USDT")]))]),
        "BTC-USDT"
    ));
    assert!(!value_matches_symbol(&object(vec![("other", text("BTC-USDT"))]), "BTC-USDT"));
    assert!(!value_matches_symbol(&ParamValue::Bool(true), "BTC-USDT"));
}

#[test]
fn correlation_groups_from_objects_and_lists() {
    let by_object = object(vec![(
        "correlation_groups",
        object(vec![
            ("Majors", ParamValue::List(vec![text("BTC-USDT"), text("ETH-USDT")])),
            ("SOL-USDT", text(" Alts ")),
        ]),
    )]);
    assert_eq!(correlation_group(&by_object, "eth-usdt"), Some("majors".to_string()));
    assert_eq!(correlation_group(&by_object, "sol-usdt"), Some("alts".to_string()));
    assert_eq!(correlation_group(&by_object, "doge-usdt"), None);
    assert_eq!(correlation_group(&by_object, "  "), None);

    let by_list = object(vec![(
        "correlation_groups",
        ParamValue::List(vec![
            object(vec![("symbols", ParamValue::List(vec![text("BTC-USDT")]))]),
            object(vec![("group", text(" L1 ")), ("symbols", text("btc-usdt"))]),
            object(vec![("name", text("second")), ("symbols", text("BTC-USDT"))]),
        ]),
    )]);
    assert_eq!(correlation_group(&by_list, "BTC-USDT"), Some("l1".to_string()));
    assert_eq!(correlation_group(&object(vec![]), "BTC-USDT"), None);
}

#[test]
fn same_direction_exposure_counts_positions_of_the_group() {
    let params = object(vec![(
        "correlation_groups",
        object(vec![("majors", ParamValue::List(vec![text("BTC-USDT"), text("ETH-USDT")]))]),
    )]);
    let held = [(1, "ETH-USDT"), (-1, "BTC-USDT"), (1, "SOL-USDT"), (1, "BTC-USDT")];
    assert_eq!(same_direction_positions(&params, &held, "BTC-USDT", 1), vec![0, 3]);
    assert_eq!(same_direction_positions(&params, &held, "SOL-USDT", 1), vec![0, 2, 3]);
    assert_eq!(same_direction_positions(&params, &held, "BTC-USDT", 0), Vec::<usize>::new());
}

#[test]
fn positions_aggregate_to_one_side() {
    assert_eq!(aggregate_position_side(&[]), "flat");
    assert_eq!(aggregate_position_side(&[(false, "long"), (true, "short")]), "short");
    assert_eq!(aggregate_position_side(&[(true, "long")]), "long");
    assert_eq!(aggregate_position_side(&[(true, "long"), (true, "short")]), "mixed");
}

/// Whether an instrument type trades as a contract (swaps and futures).
fn contract_inst_type(inst_type: &str) -> bool {
    matches!(inst_type, "SWAP" | "FUTURES")
}

#[test]
fn allow_short_defaults_to_contract_instruments_and_accepts_string_override() {
    assert!(allow_short(&object(vec![]), contract_inst_type("SWAP")));
    assert!(allow_short(&object(vec![]), contract_inst_type("FUTURES")));
    assert!(!allow_short(&object(vec![]), contract_inst_type("SPOT")));
    assert!(!allow_short(&object(vec![("allow_short", text("false"))]), contract_inst_type("SWAP")));
    assert!(allow_short(&object(vec![("allow_short", text("true"))]), contract_inst_type("SPOT")));
}
