use trading_core::feed_status::{after_connection_run, next_reconnect_delay, WorkerStep};
use trading_core::private_cache::{
    confirmed_candle_event, private_algo_order_cache_key, private_order_cache_key,
    private_order_cache_timestamp, private_position_cache_key, prune_plan,
};
use trading_core::risk_params::{parse_bool_text, sizing_mode_from_flags, PositionSizeMode};
use trading_core::schema::{core_statements, post_migration_statements, MARKET_SCHEMA, RESEARCH_SCHEMA};
use trading_core::storage::{
    plan_additive_columns, plan_conditional_indexes, quote_identifier, record_added_columns,
    AddColumnMigration, ConditionalIndex, SchemaSnapshot, TableColumns, realtime_sync_can_increment,
    SyncRecordSpan,
};

fn some(text: &str) -> Option<String> {
    Some(text.to_string())
}

#[test]
fn order_cache_keys_prefer_exchange_ids() {
    assert_eq!(private_order_cache_key(some("abc"), some("cl-1")), some("ord:ABC"));
    assert_eq!(private_order_cache_key(some(""), some("cl-1")), some("cl:cl-1"));
    assert_eq!(private_order_cache_key(None, some("cl-1")), some("cl:cl-1"));
    assert_eq!(private_order_cache_key(None, Some(String::new())), None);
    assert_eq!(private_algo_order_cache_key(some("a9x"), None), some("algo:A9X"));
    assert_eq!(private_algo_order_cache_key(None, some("mine")), some("algo_cl:mine"));
    assert_eq!(private_algo_order_cache_key(None, None), None);
}

#[test]
fn position_cache_key_joins_instrument_and_side() {
    assert_eq!(private_position_cache_key("btc-usdt-swap", "LONG"), "BTC-USDT-SWAP|long");
    assert_eq!(private_position_cache_key("", ""), "|");
}

#[test]
fn order_cache_timestamp_prefers_update_time() {
    assert_eq!(private_order_cache_timestamp(Some(20), Some(10)), 20);
    assert_eq!(private_order_cache_timestamp(None, Some(10)), 10);
    assert_eq!(private_order_cache_timestamp(None, None), 0);
}

#[test]
fn pruning_drops_the_oldest_entries_ties_by_key() {
    let entries = vec![
        (3, "b".to_string()),
        (1, "z".to_string()),
        (1, "a".to_string()),
        (5, "c".to_string()),
    ];
    let mut removed = prune_plan(entries.clone(), 2);
    removed.sort();
    assert_eq!(removed, vec!["a".to_string(), "z".to_string()]);
    let mut removed = prune_plan(entries.clone(), 1);
    removed.sort();
    assert_eq!(removed, vec!["a".to_string(), "b".to_string(), "z".to_string()]);
    assert!(prune_plan(entries.clone(), 4).is_empty());
    assert!(prune_plan(entries, 10).is_empty());
    assert_eq!(prune_plan(vec![(7, "only".to_string())], 0), vec!["only".to_string()]);
}

#[test]
fn confirmed_candles_need_confirm_flag_and_fields() {
    let event = confirmed_candle_event(Some("1"), " btc-usdt ", " 1m ", 1_700_000_000_000).unwrap();
    assert_eq!(event.inst_id, "BTC-USDT");
    assert_eq!(event.timeframe, "1m");
    assert_eq!(event.timestamp, 1_700_000_000_000);
    assert!(confirmed_candle_event(Some("0"), "BTC-USDT", "1m", 1).is_none());
    assert!(confirmed_candle_event(None, "BTC-USDT", "1m", 1).is_none());
    assert!(confirmed_candle_event(Some("1"), "  ", "1m", 1).is_none());
    assert!(confirmed_candle_event(Some("1"), "BTC-USDT", "", 1).is_none());
    assert!(confirmed_candle_event(Some("1"), "BTC-USDT", "1m", 0).is_none());
}

#[test]
fn boolean_parameters_accept_common_spellings() {
    for text in ["true", " TRUE ", "1", "yes", "On"] {
        assert_eq!(parse_bool_text(text), Some(true), "{text}");
    }
    for text in ["false", "0", " no", "OFF"] {
        assert_eq!(parse_bool_text(text), Some(false), "{text}");
    }
    assert_eq!(parse_bool_text("maybe"), None);
    assert_eq!(parse_bool_text(""), None);
}

#[test]
fn position_size_mode_flags_override_the_text() {
    assert_eq!(sizing_mode_from_flags(Some(true), None, None), PositionSizeMode::NotionalFraction);
    assert_eq!(sizing_mode_from_flags(None, Some(true), Some("margin")), PositionSizeMode::NotionalFraction);
    assert_eq!(sizing_mode_from_flags(Some(false), Some(true), None), PositionSizeMode::MarginFraction);
    assert_eq!(sizing_mode_from_flags(None, None, Some(" Effective_Notional ")), PositionSizeMode::NotionalFraction);
    assert_eq!(sizing_mode_from_flags(None, None, Some("exposure")), PositionSizeMode::NotionalFraction);
    assert_eq!(sizing_mode_from_flags(None, None, Some("margin")), PositionSizeMode::MarginFraction);
    assert_eq!(sizing_mode_from_flags(None, None, None), PositionSizeMode::MarginFraction);
}

#[test]
fn reconnect_delay_doubles_up_to_the_cap() {
    assert_eq!(next_reconnect_delay(1_000, 30_000), 2_000);
    assert_eq!(next_reconnect_delay(20_000, 30_000), 30_000);
    assert_eq!(next_reconnect_delay(15_000, 30_000), 30_000);
    assert!(matches!(
        after_connection_run(false, true, 8_000, 1_000, 30_000),
        WorkerStep::Reconnect { next_delay_ms: 1_000 }
    ));
    assert!(matches!(after_connection_run(true, false, 8_000, 1_000, 30_000), WorkerStep::Stop));
    assert!(matches!(
        after_connection_run(true, true, 8_000, 1_000, 30_000),
        WorkerStep::Retry { sleep_ms: 8_000, next_delay_ms: 16_000 }
    ));
}

fn table(name: &str, columns: &[&str]) -> TableColumns {
    TableColumns {
        name: name.to_string(),
        columns: columns.iter().map(|c| c.to_string()).collect(),
    }
}

#[test]
fn additive_columns_are_planned_only_for_existing_tables_missing_the_column() {
    let mut schema = SchemaSnapshot {
        tables: vec![table("orders", &["id", "symbol"]), table("fills", &["id"])],
    };
    let migrations = [
        AddColumnMigration { table: "orders", column: "symbol", statement: "ALTER TABLE orders ADD COLUMN symbol TEXT" },
        AddColumnMigration { table: "orders", column: "mode", statement: "ALTER TABLE orders ADD COLUMN mode TEXT" },
        AddColumnMigration { table: "missing", column: "x", statement: "ALTER TABLE missing ADD COLUMN x TEXT" },
        AddColumnMigration { table: "fills", column: "fee", statement: "ALTER TABLE fills ADD COLUMN fee REAL" },
    ];
    let plan = plan_additive_columns(&schema, &migrations);
    assert_eq!(plan, vec![1, 3]);
    assert!(schema.table_exists("orders"));
    assert!(!schema.column_exists("orders", "mode"));
    record_added_columns(&mut schema, &migrations, &plan);
    assert!(schema.column_exists("orders", "mode"));
    assert!(schema.column_exists("fills", "fee"));
    assert!(plan_additive_columns(&schema, &migrations).is_empty());
}

#[test]
fn conditional_indexes_wait_for_their_table_and_columns() {
    let schema = SchemaSnapshot {
        tables: vec![table("orders", &["id", "mode", "symbol"])],
    };
    let indexes = vec![
        ConditionalIndex { table: "orders", columns: vec!["mode", "symbol"], statement: "CREATE INDEX a" },
        ConditionalIndex { table: "orders", columns: vec!["mode", "created_at"], statement: "CREATE INDEX b" },
        ConditionalIndex { table: "logs", columns: vec![], statement: "CREATE INDEX c" },
        ConditionalIndex { table: "orders", columns: vec![], statement: "CREATE INDEX d" },
    ];
    assert_eq!(plan_conditional_indexes(&schema, &indexes), vec![0, 3]);
}

#[test]
fn identifiers_are_double_quoted_with_quotes_doubled() {
    assert_eq!(quote_identifier("orders"), "\"orders\"");
    assert_eq!(quote_identifier("we\"ird"), "\"we\"\"ird\"");
    assert_eq!(quote_identifier(""), "\"\"");
}

#[test]
fn realtime_sync_record_is_updated_in_place_only_within_a_known_span() {
    let span = SyncRecordSpan { oldest_timestamp: Some(100), newest_timestamp: Some(200), candle_count: 2 };
    assert!(realtime_sync_can_increment(Some(span), true, 300));
    assert!(realtime_sync_can_increment(Some(span), false, 100));
    assert!(realtime_sync_can_increment(Some(span), false, 200));
    assert!(!realtime_sync_can_increment(Some(span), false, 201));
    assert!(!realtime_sync_can_increment(Some(span), false, 99));
    assert!(!realtime_sync_can_increment(None, true, 150));
    let empty = SyncRecordSpan { candle_count: 0, ..span };
    assert!(!realtime_sync_can_increment(Some(empty), true, 150));
    let open_ended = SyncRecordSpan { newest_timestamp: None, ..span };
    assert!(!realtime_sync_can_increment(Some(open_ended), true, 150));
}

#[test]
fn quoted_identifiers_read_back() {
    for name in ["plain", "a\"b", "\"\"", ""] {
        let quoted = quote_identifier(name);
        assert_eq!(quoted.matches('"').count(), 2 + 2 * name.matches('"').count());
        assert_eq!(quoted[1..quoted.len() - 1].replace("\"\"", "\""), name);
    }
}

#[test]
fn a_clean_run_reconnects_whatever_the_delay() {
    assert!(matches!(
        after_connection_run(false, true, u64::MAX, 1_000, 30_000),
        WorkerStep::Reconnect { next_delay_ms: 1_000 }
    ));
    assert!(matches!(after_connection_run(true, false, u64::MAX, 1_000, 30_000), WorkerStep::Stop));
}

#[test]
fn schema_statements_come_in_group_order() {
    let statements = core_statements();
    assert_eq!(statements.len(), 72);
    assert_eq!(statements[0], MARKET_SCHEMA[0]);
    assert!(statements[0].contains("CREATE TABLE IF NOT EXISTS candles"));
    assert_eq!(statements[71], RESEARCH_SCHEMA[19]);
    assert!(post_migration_statements().is_empty());
}
