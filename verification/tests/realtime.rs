use trading_core::feed_status::{FeedStatus, ModeFeedStatus};
use trading_core::keys::{
    candle_channel, candle_key, normalize_inst_id, normalize_orderbook_channel,
    normalize_timeframe, orderbook_key, parse_candle_key, parse_orderbook_key,
    timeframe_from_channel,
};
use trading_core::private_feed::{
    normalize_private_mode, private_business_ws_url, private_ws_url, sign_private_ws_login,
    PrivateMessageKind, PrivateWsKind, OKX_BUSINESS_WS_URL_SIMULATED, OKX_PRIVATE_WS_URL_LIVE,
};
use trading_core::realtime_state::{PrivateChannel, RealtimeSubscriptions};
use trading_core::refs::{decrement_ref, increment_ref, RefCounts};
use trading_core::subscriptions::{normalize_candle_subscriptions, normalize_inst_ids};

#[test]
fn private_realtime_mode_rejects_removed_aliases() {
    assert_eq!(normalize_private_mode("live").unwrap(), "live");
    assert_eq!(normalize_private_mode("simulated").unwrap(), "simulated");
    assert_eq!(private_ws_url("live").unwrap(), OKX_PRIVATE_WS_URL_LIVE);
    assert_eq!(
        private_business_ws_url("simulated").unwrap(),
        OKX_BUSINESS_WS_URL_SIMULATED
    );
    for mode in ["paper", "demo", "simulation", "real", ""] {
        assert!(normalize_private_mode(mode).is_err());
        assert!(private_ws_url(mode).is_err());
        assert!(private_business_ws_url(mode).is_err());
    }
}

#[test]
fn private_mode_is_trimmed_and_case_insensitive() {
    assert_eq!(normalize_private_mode("  LIVE ").unwrap(), "live");
    assert_eq!(normalize_private_mode("Simulated").unwrap(), "simulated");
    let err = normalize_private_mode(" Paper ").unwrap_err();
    assert_eq!(
        err.message_text(),
        "OKX 私有实时模式只支持 live 或 simulated，收到 paper"
    );
}

#[test]
fn inst_id_is_trimmed_uppercased_and_needs_a_dash() {
    assert_eq!(normalize_inst_id("  btc-usdt-swap ").unwrap(), "BTC-USDT-SWAP");
    assert_eq!(
        normalize_inst_id("   ").unwrap_err().message_text(),
        "inst_id 不能为空"
    );
    assert_eq!(
        normalize_inst_id("btcusdt").unwrap_err().message_text(),
        "inst_id 必须是 OKX 交易对格式，例如 BTC-USDT"
    );
}

#[test]
fn orderbook_channel_defaults_to_books5_only() {
    assert_eq!(normalize_orderbook_channel("").unwrap(), "books5");
    assert_eq!(normalize_orderbook_channel(" books5 ").unwrap(), "books5");
    assert_eq!(
        normalize_orderbook_channel("books").unwrap_err().message_text(),
        "盘口实时通道当前仅支持 OKX books5"
    );
}

#[test]
fn timeframe_drops_candle_prefix_and_checks_characters() {
    assert_eq!(normalize_timeframe(" candle1m ").unwrap(), "1m");
    assert_eq!(normalize_timeframe("1H").unwrap(), "1H");
    assert_eq!(
        normalize_timeframe("candle").unwrap_err().message_text(),
        "timeframe 不能为空"
    );
    assert_eq!(
        normalize_timeframe("1 m").unwrap_err().message_text(),
        "timeframe 必须是 OKX K 线周期，例如 1m、5m、1H、1D"
    );
    assert_eq!(normalize_timeframe("candlecandle1m").unwrap(), "candle1m");
}

#[test]
fn keys_round_trip() {
    let key = candle_key("BTC-USDT", "5m");
    assert_eq!(key, "BTC-USDT|5m");
    assert_eq!(
        parse_candle_key(&key),
        Some(("BTC-USDT".to_string(), "5m".to_string()))
    );
    let key = orderbook_key("ETH-USDT", "books5");
    assert_eq!(
        parse_orderbook_key(&key),
        Some(("ETH-USDT".to_string(), "books5".to_string()))
    );
    assert_eq!(parse_candle_key("|5m"), None);
    assert_eq!(parse_candle_key("BTC-USDT|"), None);
    assert_eq!(parse_candle_key("BTC-USDT"), None);
    assert_eq!(
        parse_candle_key("a|b|c"),
        Some(("a".to_string(), "b|c".to_string()))
    );
    assert_eq!(candle_channel("1D"), "candle1D");
    assert_eq!(timeframe_from_channel(&candle_channel("15m")).unwrap(), "15m");
}

#[test]
fn private_kinds_name_their_endpoints_and_messages() {
    assert_eq!(
        PrivateWsKind::Regular.url("live").unwrap(),
        "wss://ws.okx.com:8443/ws/v5/private"
    );
    assert_eq!(
        PrivateWsKind::Business.url("simulated").unwrap(),
        "wss://wspap.okx.com:8443/ws/v5/business?brokerId=9999"
    );
    assert!(PrivateWsKind::Business.url("demo").is_err());
    assert_eq!(PrivateWsKind::Regular.connect_mode("live"), "live");
    assert_eq!(PrivateWsKind::Business.connect_mode("live"), "business:live");
    assert_eq!(
        PrivateWsKind::Business.closed_prefix(),
        "OKX business private websocket closed"
    );
    assert_eq!(
        PrivateWsKind::Regular.ended_message(),
        "OKX private websocket stream ended"
    );
    assert_eq!(
        PrivateMessageKind::Regular.error_message(),
        "OKX private websocket error"
    );
    assert_eq!(
        PrivateMessageKind::Business.login_error_message(),
        "OKX business private websocket login failed"
    );
}

#[test]
fn login_signature_is_base64_hmac_sha256() {
    let signature = sign_private_ws_login("secret", "1538054050").unwrap();
    assert_eq!(signature, "Gj2hQIVKFcXbiwCak8SmVOu5mxPCizWDdmUAhbx8Z+s=");
    assert_ne!(
        signature,
        sign_private_ws_login("secret", "1538054051").unwrap()
    );
}

#[test]
fn ref_counts_increment_and_decrement() {
    let mut refs = RefCounts::new();
    increment_ref(&mut refs, "BTC-USDT");
    increment_ref(&mut refs, "BTC-USDT");
    increment_ref(&mut refs, "ADA-USDT");
    assert_eq!(refs.count("BTC-USDT"), 2);
    assert_eq!(refs.keys(), vec!["ADA-USDT".to_string(), "BTC-USDT".to_string()]);
    decrement_ref(&mut refs, "BTC-USDT");
    assert_eq!(refs.count("BTC-USDT"), 1);
    decrement_ref(&mut refs, "BTC-USDT");
    assert!(!refs.contains_key("BTC-USDT"));
    decrement_ref(&mut refs, "missing");
    assert_eq!(refs.keys(), vec!["ADA-USDT".to_string()]);
    decrement_ref(&mut refs, "ADA-USDT");
    assert!(refs.is_empty());
}

#[test]
fn request_lists_are_normalized_and_deduplicated() {
    let ids = vec![
        "btc-usdt".to_string(),
        " BTC-USDT ".to_string(),
        "eth-usdt".to_string(),
    ];
    assert_eq!(
        normalize_inst_ids(&ids).unwrap(),
        vec!["BTC-USDT".to_string(), "ETH-USDT".to_string()]
    );
    let bad = vec!["btc-usdt".to_string(), "nodash".to_string(), "".to_string()];
    assert_eq!(
        normalize_inst_ids(&bad).unwrap_err().message_text(),
        "inst_id 必须是 OKX 交易对格式，例如 BTC-USDT"
    );
    let subs = vec![
        ("btc-usdt".to_string(), "candle1m".to_string()),
        ("BTC-USDT".to_string(), "1m".to_string()),
        ("BTC-USDT".to_string(), "5m".to_string()),
    ];
    assert_eq!(
        normalize_candle_subscriptions(&subs).unwrap(),
        vec![
            ("BTC-USDT".to_string(), "1m".to_string()),
            ("BTC-USDT".to_string(), "5m".to_string())
        ]
    );
    let bad = vec![("BTC-USDT".to_string(), "".to_string())];
    assert_eq!(
        normalize_candle_subscriptions(&bad).unwrap_err().message_text(),
        "timeframe 不能为空"
    );
}

#[test]
fn subscriptions_track_public_and_private_references() {
    let mut subs = RealtimeSubscriptions::new();
    assert!(!subs.has_public_subscriptions());
    subs.add_ticker("btc-usdt").unwrap();
    subs.add_ticker("BTC-USDT").unwrap();
    assert!(subs.add_ticker("btc").is_err());
    assert!(subs.has_public_subscriptions());
    subs.remove_ticker("btc-usdt").unwrap();
    assert!(subs.has_public_subscriptions());
    subs.remove_ticker("btc-usdt").unwrap();
    assert!(!subs.has_public_subscriptions());
    subs.add_orderbook("eth-usdt", "").unwrap();
    assert_eq!(subs.orderbooks.keys(), vec!["ETH-USDT|books5".to_string()]);
    subs.add_candle("eth-usdt", "candle5m").unwrap();
    assert!(subs.has_candle_subscriptions());
    assert_eq!(subs.candles.keys(), vec!["ETH-USDT|5m".to_string()]);

    let err = subs
        .add_private("live", PrivateChannel::Orders, false)
        .unwrap_err();
    assert_eq!(
        err.message_text(),
        "live OKX API 密钥未配置完整，无法订阅私有实时通道"
    );
    let err = subs
        .add_private("live", PrivateChannel::AlgoOrders, false)
        .unwrap_err();
    assert_eq!(
        err.message_text(),
        "live OKX API 密钥未配置完整，无法订阅私有实时业务通道"
    );
    assert_eq!(
        subs.add_private(" LIVE", PrivateChannel::Orders, true).unwrap(),
        "live"
    );
    subs.add_private("live", PrivateChannel::AlgoOrders, true).unwrap();
    assert!(subs.has_private_subscriptions_for_mode("live"));
    assert!(subs.has_private_business_subscriptions_for_mode("live"));
    let (mode, cleanup) = subs.remove_private("live", PrivateChannel::Orders).unwrap();
    assert_eq!(mode, "live");
    assert!(cleanup.clear_private_caches);
    assert!(!cleanup.clear_credentials);
    assert!(!cleanup.clear_algo_order_cache);
    let (_, cleanup) = subs
        .remove_private("live", PrivateChannel::AlgoOrders)
        .unwrap();
    assert!(cleanup.clear_credentials);
    assert!(cleanup.clear_algo_order_cache);
    assert!(!subs.has_any_private_subscriptions_for_mode("live"));
    assert!(subs.remove_private("paper", PrivateChannel::Fills).is_err());
}

#[test]
fn stale_generations_do_not_touch_feed_status() {
    let mut status = FeedStatus::new();
    let first = status.restart();
    assert_eq!(first, 1);
    assert!(status.register_task(first));
    status.mark_connected(first, 100);
    assert!(status.connected);
    assert_eq!(status.last_connected_at, Some(100));
    let second = status.restart();
    assert_eq!(second, 2);
    assert!(!status.connected);
    assert!(!status.task_running);
    status.mark_connected(first, 200);
    status.mark_disconnected(first, Some("old".to_string()));
    assert!(!status.connected);
    assert_eq!(status.reconnect_count, 0);
    status.mark_connected(second, 300);
    status.mark_message(second, 350);
    assert_eq!(status.last_message_at, Some(350));
    status.mark_disconnected(second, Some("closed".to_string()));
    assert_eq!(status.reconnect_count, 1);
    assert_eq!(status.last_error.as_deref(), Some("closed"));
    status.mark_worker_finished(second);
    assert!(!status.task_running);
    assert!(status.should_continue(second, true));
    assert!(!status.should_continue(first, true));
    assert!(!status.should_continue(second, false));
}

#[test]
fn mode_feed_status_keeps_error_when_disconnect_has_none() {
    let mut status = ModeFeedStatus::new();
    status.mark_connected(1, 5);
    assert_eq!(status.connected, None);
    let generation = status.restart();
    assert_eq!(generation, 1);
    assert_eq!(status.connected, Some(false));
    status.set_last_error(generation, Some("boom".to_string()));
    status.mark_disconnected(generation, None);
    assert_eq!(status.last_error.as_deref(), Some("boom"));
    assert_eq!(status.reconnect_count, Some(1));
    status.set_last_error(generation, None);
    assert_eq!(status.last_error, None);
    assert_eq!(status.restart(), 2);
}

#[test]
fn status_lists_each_channel_in_key_order_and_leaves_candles_out_of_the_total() {
    let mut subs = RealtimeSubscriptions::new();
    subs.add_ticker("eth-usdt").unwrap();
    subs.add_ticker("btc-usdt").unwrap();
    subs.add_ticker("BTC-USDT").unwrap();
    subs.add_candle("btc-usdt", "1m").unwrap();
    subs.add_private("live", PrivateChannel::Orders, true).unwrap();
    let status = subs.status().unwrap();
    assert_eq!(status.counts.active, 3);
    assert_eq!(status.counts.tickers, 2);
    assert_eq!(status.counts.candles, 1);
    assert_eq!(status.tickers.keys, vec!["BTC-USDT".to_string(), "ETH-USDT".to_string()]);
    assert_eq!(
        status.tickers.ref_counts,
        vec![("BTC-USDT".to_string(), 2), ("ETH-USDT".to_string(), 1)]
    );
    assert_eq!(status.orders.keys, vec!["live".to_string()]);
    assert_eq!(status.candles.ref_counts.len(), 1);
    assert!(status.trades.keys.is_empty());
}
