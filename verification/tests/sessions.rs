use trading_core::keys::{normalize_inst_id, validate_inst_id};
use trading_core::contract::StrategyIntentAction;
use trading_core::orders::SubmittedActions;
use trading_core::private_feed::PrivateMessageKind;
use trading_core::realtime_state::{PrivateChannel, RealtimeSubscriptions};
use trading_core::refs::RefCounts;
use trading_core::text::{contains_text, starts_with_text};
use trading_core::ws_session::{
    after_private_message, candle_channel_timeframe, classify_private_event, event_error_message,
    is_nonfatal_private_ws_error, outbound_labels, private_data_channel, public_channel,
    react_to_frame, EventField, MarketFeed, PrivateEvent, PublicChannel, SubscribeStep, WsFrame,
    WsReaction,
};

#[test]
fn keep_alive_texts_are_answered_and_other_frames_routed() {
    assert!(matches!(react_to_frame(WsFrame::Text(" ping ".to_string())), WsReaction::ReplyPong));
    assert!(matches!(react_to_frame(WsFrame::Text("pong\n".to_string())), WsReaction::MarkMessage));
    match react_to_frame(WsFrame::Text("{\"event\":\"x\"}".to_string())) {
        WsReaction::Handle(text) => assert_eq!(text, "{\"event\":\"x\"}"),
        _ => panic!("expected the message to be handled"),
    }
    match react_to_frame(WsFrame::Binary(Some("ping".to_string()))) {
        WsReaction::Handle(text) => assert_eq!(text, "ping"),
        _ => panic!("binary text is always handled"),
    }
    assert!(matches!(react_to_frame(WsFrame::Binary(None)), WsReaction::Ignore));
    assert!(matches!(react_to_frame(WsFrame::Ping), WsReaction::EchoPong));
    assert!(matches!(react_to_frame(WsFrame::Pong), WsReaction::MarkMessage));
    assert!(matches!(react_to_frame(WsFrame::Close), WsReaction::Closed));
    assert!(matches!(react_to_frame(WsFrame::Other), WsReaction::Ignore));
    assert!(matches!(react_to_frame(WsFrame::Failed), WsReaction::ReadFailed));
    assert!(matches!(react_to_frame(WsFrame::Ended), WsReaction::Ended));
    assert!(matches!(react_to_frame(WsFrame::Idle), WsReaction::SendPing));
}

#[test]
fn market_feeds_name_their_errors() {
    assert_eq!(MarketFeed::Public.connect_mode(), "public");
    assert_eq!(MarketFeed::Candles.connect_mode(), "business");
    assert_eq!(MarketFeed::Public.error_fallback(), "OKX websocket error");
    assert_eq!(MarketFeed::Candles.error_fallback(), "OKX business websocket error");
    assert_eq!(MarketFeed::Public.closed_prefix(), "OKX websocket closed");
    assert_eq!(MarketFeed::Candles.ended_message(), "OKX business websocket stream ended");
}

#[test]
fn error_events_report_their_message_or_a_fallback() {
    assert_eq!(
        event_error_message(Some("error"), Some("bad arg"), "OKX websocket error"),
        Some("bad arg".to_string())
    );
    assert_eq!(
        event_error_message(Some("error"), None, "OKX websocket error"),
        Some("OKX websocket error".to_string())
    );
    assert_eq!(event_error_message(Some("subscribe"), Some("x"), "f"), None);
    assert_eq!(event_error_message(None, Some("x"), "f"), None);
}

#[test]
fn public_channels_are_routed_by_name() {
    assert_eq!(public_channel("tickers"), Some(PublicChannel::Tickers));
    assert_eq!(public_channel("trades"), Some(PublicChannel::Trades));
    assert_eq!(public_channel("books5"), Some(PublicChannel::Books));
    assert_eq!(public_channel("books-l2-tbt"), Some(PublicChannel::Books));
    assert_eq!(public_channel("book"), None);
    assert_eq!(public_channel(""), None);
}

#[test]
fn candle_channels_yield_their_timeframe() {
    assert!(candle_channel_timeframe("tickers").is_none());
    assert_eq!(candle_channel_timeframe("candle1H").unwrap().unwrap(), "1H");
    assert!(candle_channel_timeframe("candle").unwrap().is_err());
    assert!(candle_channel_timeframe("candle1-m").unwrap().is_err());
}

#[test]
fn fee_tier_warnings_are_not_fatal() {
    assert!(is_nonfatal_private_ws_error(Some("64003"), Some("Your Trading Fee Tier does not support this")));
    assert!(!is_nonfatal_private_ws_error(Some("64002"), Some("trading fee tier")));
    assert!(!is_nonfatal_private_ws_error(None, Some("trading fee tier")));
    assert!(!is_nonfatal_private_ws_error(Some("64003"), None));
}

#[test]
fn private_events_are_classified() {
    let regular = PrivateMessageKind::Regular;
    let business = PrivateMessageKind::Business;
    assert!(matches!(classify_private_event(regular, EventField::Absent, None, None), PrivateEvent::Data));
    assert!(matches!(
        classify_private_event(regular, EventField::Text("subscribe"), None, None),
        PrivateEvent::Ignore
    ));
    assert!(matches!(classify_private_event(regular, EventField::NotText, None, None), PrivateEvent::Ignore));
    assert!(matches!(
        classify_private_event(regular, EventField::Text("login"), Some("0"), None),
        PrivateEvent::Subscribe
    ));
    assert!(matches!(classify_private_event(regular, EventField::Text("login"), None, None), PrivateEvent::Subscribe));
    match classify_private_event(business, EventField::Text("login"), Some("60009"), None) {
        PrivateEvent::Fail(m) => assert_eq!(m, "OKX business private websocket login failed"),
        _ => panic!("login with a non-zero code fails"),
    }
    match classify_private_event(regular, EventField::Text("login"), Some("60009"), Some("Login failed.")) {
        PrivateEvent::Fail(m) => assert_eq!(m, "Login failed."),
        _ => panic!("login with a non-zero code fails"),
    }
    assert!(matches!(
        classify_private_event(regular, EventField::Text("error"), Some("64003"), Some("trading fee tier")),
        PrivateEvent::Ignore
    ));
    match classify_private_event(business, EventField::Text("error"), Some("64003"), Some("trading fee tier")) {
        PrivateEvent::Fail(m) => assert_eq!(m, "trading fee tier"),
        _ => panic!("the business feed has no warnings"),
    }
    match classify_private_event(regular, EventField::Text("error"), None, None) {
        PrivateEvent::Fail(m) => assert_eq!(m, "OKX private websocket error"),
        _ => panic!("errors fail"),
    }
}

#[test]
fn private_data_goes_to_its_channel() {
    let regular = PrivateMessageKind::Regular;
    let business = PrivateMessageKind::Business;
    assert_eq!(private_data_channel(regular, "account"), Some(PrivateChannel::Account));
    assert_eq!(private_data_channel(regular, "orders"), Some(PrivateChannel::Orders));
    assert_eq!(private_data_channel(regular, "fills"), Some(PrivateChannel::Fills));
    assert_eq!(private_data_channel(regular, "positions"), Some(PrivateChannel::Positions));
    assert_eq!(private_data_channel(regular, "orders-algo"), None);
    assert_eq!(private_data_channel(business, "orders-algo"), Some(PrivateChannel::AlgoOrders));
    assert_eq!(private_data_channel(business, "orders"), None);
}

#[test]
fn private_feed_subscribes_once_after_login() {
    assert_eq!(after_private_message(false, false, false), SubscribeStep::Keep(false));
    assert_eq!(after_private_message(true, true, false), SubscribeStep::Keep(true));
    assert_eq!(after_private_message(true, false, true), SubscribeStep::Stop);
    assert_eq!(after_private_message(true, false, false), SubscribeStep::Subscribe);
}

#[test]
fn outbound_operations_are_labelled_by_their_rule() {
    let labels = outbound_labels(Some(("ws_conn_ops", "ws_private", "ws")), "live");
    assert_eq!(labels.rule_key, "ws_conn_ops");
    assert_eq!(labels.target_group, "ws_private");
    assert_eq!(labels.channel, "ws");
    assert_eq!(labels.scope_key, "ws_conn:live");
    let labels = outbound_labels(Some(("ws_connect_ip", "ws_control", "ws")), "live");
    assert_eq!(labels.scope_key, "ws_connect_ip");
    let labels = outbound_labels(None, "simulated");
    assert_eq!(labels.rule_key, "ws_unknown");
    assert_eq!(labels.target_group, "ws_control");
    assert_eq!(labels.channel, "ws");
    assert_eq!(labels.scope_key, "ws_unknown");
}

#[test]
fn text_search_helpers() {
    assert!(starts_with_text("books5", "books"));
    assert!(!starts_with_text("book", "books"));
    assert!(starts_with_text("x", ""));
    assert!(contains_text("abc trading fee tier", "trading fee tier"));
    assert!(!contains_text("trading fee", "trading fee tier"));
    assert!(contains_text("", ""));
}

fn ids(items: &[&str]) -> Vec<String> {
    items.iter().map(|s| s.to_string()).collect()
}

#[test]
fn collection_feeds_release_only_their_own_references() {
    let mut subs = RealtimeSubscriptions::new();
    subs.add_trades("BTC-USDT").unwrap();
    subs.add_orderbook("BTC-USDT", "books5").unwrap();
    subs.add_collection_feeds(&ids(&["btc-usdt", "eth-usdt", "BTC-USDT"]), "").unwrap();
    assert_eq!(subs.trades.count("BTC-USDT"), 2);
    assert_eq!(subs.trades.count("ETH-USDT"), 1);
    assert_eq!(subs.orderbooks.count("BTC-USDT|books5"), 2);
    assert_eq!(subs.orderbooks.count("ETH-USDT|books5"), 1);
    subs.remove_collection_feeds(&ids(&["eth-usdt", "btc-usdt"]), "books5").unwrap();
    assert_eq!(subs.trades.keys(), vec!["BTC-USDT".to_string()]);
    assert_eq!(subs.trades.count("BTC-USDT"), 1);
    assert_eq!(subs.orderbooks.keys(), vec!["BTC-USDT|books5".to_string()]);
    assert!(subs.add_collection_feeds(&ids(&["btc-usdt"]), "books50").is_err());
    assert!(subs.add_collection_feeds(&ids(&["btc"]), "books5").is_err());
    assert_eq!(subs.trades.count("BTC-USDT"), 1);
}

#[test]
fn subscription_counts_leave_candles_out_of_the_active_total() {
    let mut subs = RealtimeSubscriptions::new();
    subs.add_ticker("BTC-USDT").unwrap();
    subs.add_ticker("ETH-USDT").unwrap();
    subs.add_candle("BTC-USDT", "1m").unwrap();
    subs.add_private("live", PrivateChannel::Orders, true).unwrap();
    let counts = subs.subscription_counts();
    assert_eq!(counts.tickers, 2);
    assert_eq!(counts.candles, 1);
    assert_eq!(counts.orders, 1);
    assert_eq!(counts.active, 3);
    let empty = RefCounts::new();
    assert_eq!(empty.len(), 0);
}

#[test]
fn active_subscription_lists() {
    let mut subs = RealtimeSubscriptions::new();
    subs.add_trades("ETH-USDT").unwrap();
    subs.add_ticker("BTC-USDT").unwrap();
    subs.add_orderbook("BTC-USDT", "").unwrap();
    subs.add_candle("ETH-USDT", "5m").unwrap();
    subs.add_candle("BTC-USDT", "1m").unwrap();
    assert_eq!(
        subs.public_subscription_args(),
        vec![
            ("tickers".to_string(), "BTC-USDT".to_string()),
            ("trades".to_string(), "ETH-USDT".to_string()),
            ("books5".to_string(), "BTC-USDT".to_string()),
        ]
    );
    assert_eq!(
        subs.active_candles(),
        vec![
            ("BTC-USDT".to_string(), "1m".to_string()),
            ("ETH-USDT".to_string(), "5m".to_string()),
        ]
    );
    subs.add_private("live", PrivateChannel::Positions, true).unwrap();
    subs.add_private("live", PrivateChannel::Account, true).unwrap();
    subs.add_private("live", PrivateChannel::AlgoOrders, true).unwrap();
    assert_eq!(
        subs.active_private_channels("live"),
        vec![PrivateChannel::Account, PrivateChannel::Positions]
    );
    assert_eq!(subs.active_private_business_channels("live"), vec![PrivateChannel::AlgoOrders]);
    assert!(subs.active_private_channels("simulated").is_empty());
}

#[test]
fn repeated_actions_are_skipped_but_hold_always_goes() {
    let mut seen = SubmittedActions::new();
    assert!(seen.should_submit(StrategyIntentAction::OpenPosition, "k1"));
    assert!(!seen.should_submit(StrategyIntentAction::OpenPosition, "k1"));
    assert!(seen.should_submit(StrategyIntentAction::CancelOrder, "k2"));
    assert!(seen.should_submit(StrategyIntentAction::Hold, "k1"));
    assert!(seen.should_submit(StrategyIntentAction::Hold, "k1"));
}

#[test]
fn instrument_ids_need_a_dash_once_upper_cased() {
    assert_eq!(validate_inst_id("BTC-USDT".to_string()).unwrap(), "BTC-USDT");
    assert!(validate_inst_id(String::new()).is_err());
    assert!(validate_inst_id("BTCUSDT".to_string()).is_err());
    assert_eq!(normalize_inst_id(" eth-usdt-swap ").unwrap(), "ETH-USDT-SWAP");
}
