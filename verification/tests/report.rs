use trading_core::report::validate_report_detail;
use trading_core::risk_params::ParamValue;

fn complete_detail() -> Vec<(String, ParamValue)> {
    vec![
        ("candles".to_string(), ParamValue::List(vec![])),
        ("equity_curve".to_string(), ParamValue::List(vec![])),
        ("equity_curve_sampled".to_string(), ParamValue::Bool(false)),
        ("equity_points_total".to_string(), ParamValue::Number(Some(0))),
        ("trades".to_string(), ParamValue::List(vec![])),
        ("trade_cashflows".to_string(), ParamValue::List(vec![])),
        ("trade_cashflows_total".to_string(), ParamValue::Number(Some(0))),
        ("trade_events_total".to_string(), ParamValue::Number(Some(0))),
        ("trades_truncated".to_string(), ParamValue::Bool(false)),
        ("indicators".to_string(), ParamValue::Object(vec![])),
        ("strategy_actions".to_string(), ParamValue::List(vec![])),
        ("strategy_diagnostics".to_string(), ParamValue::Object(vec![])),
    ]
}

#[test]
fn backtest_report_to_value_rejects_missing_generated_detail_field() {
    let mut detail = complete_detail();
    detail.retain(|(key, _)| key != "trade_cashflows");

    let error = validate_report_detail(&ParamValue::Object(detail)).unwrap_err();

    assert!(error.message_text().contains("trade_cashflows"));
}

#[test]
fn backtest_report_to_value_rejects_invalid_generated_detail_field_type() {
    let mut detail = complete_detail();
    for (key, value) in detail.iter_mut() {
        if key == "trade_events_total" {
            // -1 is a number but not a non-negative integer.
            *value = ParamValue::Number(None);
        }
    }

    let error = validate_report_detail(&ParamValue::Object(detail)).unwrap_err();

    assert!(error.message_text().contains("trade_events_total"));
}

#[test]
fn report_detail_errors_name_the_field_and_its_kind() {
    assert!(validate_report_detail(&ParamValue::Object(complete_detail())).is_ok());
    assert_eq!(
        validate_report_detail(&ParamValue::Null).unwrap_err().message_text(),
        "backtest report detail 不是 JSON 对象"
    );
    let mut detail = complete_detail();
    detail.retain(|(key, _)| key != "strategy_diagnostics");
    assert_eq!(
        validate_report_detail(&ParamValue::Object(detail)).unwrap_err().message_text(),
        "backtest report detail 缺少 strategy_diagnostics"
    );
    let mut detail = complete_detail();
    detail[2].1 = ParamValue::Null;
    assert_eq!(
        validate_report_detail(&ParamValue::Object(detail)).unwrap_err().message_text(),
        "backtest report detail.equity_curve_sampled 不是 布尔值"
    );
    let mut detail = complete_detail();
    detail[8].1 = ParamValue::Number(Some(1));
    assert_eq!(
        validate_report_detail(&ParamValue::Object(detail)).unwrap_err().message_text(),
        "backtest report detail.trades_truncated 不是布尔值"
    );
    let mut detail = complete_detail();
    detail[9].1 = ParamValue::List(vec![]);
    assert_eq!(
        validate_report_detail(&ParamValue::Object(detail)).unwrap_err().message_text(),
        "backtest report detail.indicators 不是 JSON 对象"
    );
}
