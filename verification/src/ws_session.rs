//! The decisions of a websocket worker: what to do with each frame it
//! reads, how the exchange's event messages are read, and which handler a
//! data message goes to. The worker itself (connecting, reading, sending)
//! runs elsewhere and hands each frame here.
use vstd::prelude::*;

use crate::error::{text_outcome, AppResult};
use crate::keys::{timeframe_from_channel, timeframe_outcome};
use crate::private_feed::PrivateMessageKind;
use crate::realtime_state::PrivateChannel;
use crate::text::{
    contains_sub, has_prefix, owned, starts_with_text, str_eq, to_unicode_lowercase, trim_owned,
    trimmed, unicode_lower,
};

verus! {

/// A frame read from a websocket, or why none was read.
pub enum WsFrame {
    Text(String),
    /// A binary frame: its text when it is valid UTF-8.
    Binary(Option<String>),
    Ping,
    Pong,
    Close,
    /// A frame of any other kind.
    Other,
    /// The read failed.
    Failed,
    /// The stream ended.
    Ended,
    /// Nothing arrived within the idle timeout.
    Idle,
}

/// What the worker does with a frame.
pub enum WsReaction {
    /// Answer a text `ping` with a text `pong`.
    ReplyPong,
    /// Answer a ping frame with a pong frame carrying its payload, and
    /// record that a message arrived.
    EchoPong,
    /// Record that a message arrived.
    MarkMessage,
    /// Hand the text to the message handler.
    Handle(String),
    /// Send a text `ping` to keep the connection alive.
    SendPing,
    /// Stop with an error: the server closed the connection.
    Closed,
    /// Stop with the read error.
    ReadFailed,
    /// Stop with an error: the stream ended.
    Ended,
    /// Nothing to do.
    Ignore,
}

/// Decides what to do with a frame. A text frame that is `ping` or `pong`
/// once trimmed is a keep-alive; any other text, and a binary frame that is
/// valid UTF-8, is a message.
pub fn react_to_frame(frame: WsFrame) -> (r: WsReaction)
    ensures
        match frame {
            WsFrame::Text(t) => if trimmed(t@) == "ping"@ {
                r is ReplyPong
            } else if trimmed(t@) == "pong"@ {
                r is MarkMessage
            } else {
                r matches WsReaction::Handle(h) && h@ == t@
            },
            WsFrame::Binary(Some(t)) => r matches WsReaction::Handle(h) && h@ == t@,
            WsFrame::Binary(None) => r is Ignore,
            WsFrame::Ping => r is EchoPong,
            WsFrame::Pong => r is MarkMessage,
            WsFrame::Close => r is Closed,
            WsFrame::Other => r is Ignore,
            WsFrame::Failed => r is ReadFailed,
            WsFrame::Ended => r is Ended,
            WsFrame::Idle => r is SendPing,
        },
{
    match frame {
        WsFrame::Text(t) => {
            let trimmed_text = trim_owned(t.as_str());
            if str_eq(trimmed_text.as_str(), "ping") {
                WsReaction::ReplyPong
            } else if str_eq(trimmed_text.as_str(), "pong") {
                WsReaction::MarkMessage
            } else {
                WsReaction::Handle(t)
            }
        },
        WsFrame::Binary(Some(t)) => WsReaction::Handle(t),
        WsFrame::Binary(None) => WsReaction::Ignore,
        WsFrame::Ping => WsReaction::EchoPong,
        WsFrame::Pong => WsReaction::MarkMessage,
        WsFrame::Close => WsReaction::Closed,
        WsFrame::Other => WsReaction::Ignore,
        WsFrame::Failed => WsReaction::ReadFailed,
        WsFrame::Ended => WsReaction::Ended,
        WsFrame::Idle => WsReaction::SendPing,
    }
}

/// The two market-data feeds: public channels, and candles on the business
/// endpoint.
#[derive(Clone, Copy, Debug, PartialEq, Eq, Structural)]
pub enum MarketFeed {
    Public,
    Candles,
}

impl MarketFeed {
    /// The label a connection of the feed is governed under.
    pub fn connect_mode(self) -> (out: &'static str)
        ensures
            self is Public ==> out@ == "public"@,
            self is Candles ==> out@ == "business"@,
    {
        match self {
            MarketFeed::Public => "public",
            MarketFeed::Candles => "business",
        }
    }

    /// The error reported for an error event without a message.
    pub fn error_fallback(self) -> (out: &'static str)
        ensures
            self is Public ==> out@ == "OKX websocket error"@,
            self is Candles ==> out@ == "OKX business websocket error"@,
    {
        match self {
            MarketFeed::Public => "OKX websocket error",
            MarketFeed::Candles => "OKX business websocket error",
        }
    }

    /// What the error for a closed connection starts with.
    pub fn closed_prefix(self) -> (out: &'static str)
        ensures
            self is Public ==> out@ == "OKX websocket closed"@,
            self is Candles ==> out@ == "OKX business websocket closed"@,
    {
        match self {
            MarketFeed::Public => "OKX websocket closed",
            MarketFeed::Candles => "OKX business websocket closed",
        }
    }

    /// The error for a stream that ended.
    pub fn ended_message(self) -> (out: &'static str)
        ensures
            self is Public ==> out@ == "OKX websocket stream ended"@,
            self is Candles ==> out@ == "OKX business websocket stream ended"@,
    {
        match self {
            MarketFeed::Public => "OKX websocket stream ended",
            MarketFeed::Candles => "OKX business websocket stream ended",
        }
    }
}

/// The text of an optional field, or `fallback` when it is missing.
pub open spec fn text_or(o: Option<&str>, fallback: Seq<char>) -> Seq<char> {
    match o {
        Some(t) => t@,
        None => fallback,
    }
}

fn text_or_owned(o: Option<&str>, fallback: &str) -> (out: String)
    ensures
        out@ == text_or(o, fallback@),
{
    match o {
        Some(t) => owned(t),
        None => owned(fallback),
    }
}

/// The error a message reports when its `event` is `error`: its `msg`, or
/// `fallback` when it has none. `None` for any other message.
pub fn event_error_message(event: Option<&str>, msg: Option<&str>, fallback: &str) -> (out: Option<String>)
    ensures
        out is Some <==> (event matches Some(e) && e@ == "error"@),
        out matches Some(m) ==> m@ == text_or(msg, fallback@),
{
    match event {
        Some(e) => {
            if str_eq(e, "error") {
                Some(text_or_owned(msg, fallback))
            } else {
                None
            }
        },
        None => None,
    }
}

/// The public channels whose data is forwarded.
#[derive(Clone, Copy, Debug, PartialEq, Eq, Structural)]
pub enum PublicChannel {
    Tickers,
    Trades,
    /// Any order book depth (`books`, `books5`, ...).
    Books,
}

/// Which handler the data of a public channel goes to, if any.
pub fn public_channel(channel: &str) -> (r: Option<PublicChannel>)
    ensures
        channel@ == "tickers"@ ==> r == Some(PublicChannel::Tickers),
        channel@ == "trades"@ ==> r == Some(PublicChannel::Trades),
        channel@ != "tickers"@ && channel@ != "trades"@ ==> (r == if has_prefix(channel@, "books"@) {
            Some(PublicChannel::Books)
        } else {
            None
        }),
{
    proof {
        reveal_strlit("tickers");
        reveal_strlit("trades");
        assert("tickers"@.len() == 7);
        assert("trades"@.len() == 6);
    }
    if str_eq(channel, "tickers") {
        Some(PublicChannel::Tickers)
    } else if str_eq(channel, "trades") {
        Some(PublicChannel::Trades)
    } else if starts_with_text(channel, "books") {
        Some(PublicChannel::Books)
    } else {
        None
    }
}

/// For a message of the candle feed: `None` when its channel is not a
/// candle channel (the message is skipped), else the timeframe the channel
/// names, or why it names none.
pub fn candle_channel_timeframe(channel: &str) -> (r: Option<AppResult<String>>)
    ensures
        r is None <==> !has_prefix(channel@, "candle"@),
        r matches Some(t) ==> text_outcome(t) == timeframe_outcome(channel@),
        r matches Some(Err(e)) ==> e is Validation,
{
    if starts_with_text(channel, "candle") {
        Some(timeframe_from_channel(channel))
    } else {
        None
    }
}

/// Whether an error of the private feed is only a warning: code `64003`
/// about the trading fee tier, judged on the lower-cased message.
pub open spec fn nonfatal_error(code: Option<&str>, lowered_msg: Seq<char>) -> bool {
    text_or(code, ""@) == "64003"@ && contains_sub(lowered_msg, "trading fee tier"@)
}

/// Whether an error of the private feed is only a warning, given its code
/// and its message already lower-cased.
pub fn nonfatal_error_lowered(code: Option<&str>, lowered_msg: &str) -> (b: bool)
    ensures
        b == nonfatal_error(code, lowered_msg@),
{
    let is_code = match code {
        Some(c) => str_eq(c, "64003"),
        None => false,
    };
    proof {
        reveal_strlit("64003");
        reveal_strlit("");
        assert(""@.len() == 0);
        assert("64003"@.len() == 5);
    }
    is_code && crate::text::contains_text(lowered_msg, "trading fee tier")
}

/// Whether an error of the private feed is only a warning: its code is
/// `64003` and its message, lower-cased, speaks of the trading fee tier.
pub fn is_nonfatal_private_ws_error(code: Option<&str>, msg: Option<&str>) -> (b: bool)
    ensures
        b == nonfatal_error(code, unicode_lower(text_or(msg, ""@))),
{
    let lowered = match msg {
        Some(m) => to_unicode_lowercase(m),
        None => to_unicode_lowercase(""),
    };
    nonfatal_error_lowered(code, lowered.as_str())
}

/// The `event` field of a message.
pub enum EventField<'a> {
    /// The message has no `event` field: it carries data.
    Absent,
    /// The field holds this text.
    Text(&'a str),
    /// The field holds something other than a text.
    NotText,
}

/// How the private feed reads a message.
pub enum PrivateEvent {
    /// Skip it.
    Ignore,
    /// Record the error and stop the connection.
    Fail(String),
    /// The login succeeded: mark the feed connected and subscribe.
    Subscribe,
    /// A data message.
    Data,
}

pub open spec fn kind_error_text(kind: PrivateMessageKind) -> Seq<char> {
    match kind {
        PrivateMessageKind::Regular => "OKX private websocket error"@,
        PrivateMessageKind::Business => "OKX business private websocket error"@,
    }
}

pub open spec fn kind_login_error_text(kind: PrivateMessageKind) -> Seq<char> {
    match kind {
        PrivateMessageKind::Regular => "OKX private websocket login failed"@,
        PrivateMessageKind::Business => "OKX business private websocket login failed"@,
    }
}

/// How a message of the private feed is read, given its event, code and
/// message, and the message lower-cased. An `error` event fails (with its
/// message, or the feed's default) unless it is a warning on the regular
/// feed; a `login` event subscribes when its code (default `0`) is `0`,
/// else fails; other events are skipped; messages without an event carry
/// data.
pub open spec fn private_event_is(
    r: PrivateEvent,
    kind: PrivateMessageKind,
    event: EventField,
    code: Option<&str>,
    msg: Option<&str>,
    lowered_msg: Seq<char>,
) -> bool {
    match event {
        EventField::Absent => r is Data,
        EventField::NotText => r is Ignore,
        EventField::Text(e) => if e@ == "error"@ {
            if kind is Regular && nonfatal_error(code, lowered_msg) {
                r is Ignore
            } else {
                r matches PrivateEvent::Fail(m) && m@ == text_or(msg, kind_error_text(kind))
            }
        } else if e@ == "login"@ {
            if text_or(code, "0"@) != "0"@ {
                r matches PrivateEvent::Fail(m) && m@ == text_or(msg, kind_login_error_text(kind))
            } else {
                r is Subscribe
            }
        } else {
            r is Ignore
        },
    }
}

/// Reads a message of the private feed, its message already lower-cased.
pub fn classify_private_event_lowered(
    kind: PrivateMessageKind,
    event: EventField,
    code: Option<&str>,
    msg: Option<&str>,
    lowered_msg: &str,
) -> (r: PrivateEvent)
    ensures
        private_event_is(r, kind, event, code, msg, lowered_msg@),
{
    match event {
        EventField::Absent => PrivateEvent::Data,
        EventField::NotText => PrivateEvent::Ignore,
        EventField::Text(e) => {
            if str_eq(e, "error") {
                let regular = match kind {
                    PrivateMessageKind::Regular => true,
                    PrivateMessageKind::Business => false,
                };
                if regular && nonfatal_error_lowered(code, lowered_msg) {
                    PrivateEvent::Ignore
                } else {
                    PrivateEvent::Fail(text_or_owned(msg, kind.error_message()))
                }
            } else if str_eq(e, "login") {
                let c = match code {
                    Some(c) => c,
                    None => "0",
                };
                if !str_eq(c, "0") {
                    PrivateEvent::Fail(text_or_owned(msg, kind.login_error_message()))
                } else {
                    PrivateEvent::Subscribe
                }
            } else {
                PrivateEvent::Ignore
            }
        },
    }
}

/// Reads a message of the private feed from its event, code and message.
pub fn classify_private_event(kind: PrivateMessageKind, event: EventField, code: Option<&str>, msg: Option<&str>) -> (r:
    PrivateEvent)
    ensures
        private_event_is(r, kind, event, code, msg, unicode_lower(text_or(msg, ""@))),
{
    let lowered = match msg {
        Some(m) => to_unicode_lowercase(m),
        None => to_unicode_lowercase(""),
    };
    classify_private_event_lowered(kind, event, code, msg, lowered.as_str())
}

/// Which private channel the data of a message goes to: account, orders,
/// fills and positions on the regular feed, algo orders on the business
/// feed; anything else is skipped.
pub fn private_data_channel(kind: PrivateMessageKind, channel: &str) -> (r: Option<PrivateChannel>)
    ensures
        r == (match kind {
            PrivateMessageKind::Regular => if channel@ == "account"@ {
                Some(PrivateChannel::Account)
            } else if channel@ == "orders"@ {
                Some(PrivateChannel::Orders)
            } else if channel@ == "fills"@ {
                Some(PrivateChannel::Fills)
            } else if channel@ == "positions"@ {
                Some(PrivateChannel::Positions)
            } else {
                None
            },
            PrivateMessageKind::Business => if channel@ == "orders-algo"@ {
                Some(PrivateChannel::AlgoOrders)
            } else {
                None
            },
        }),
{
    match kind {
        PrivateMessageKind::Regular => {
            if str_eq(channel, "account") {
                Some(PrivateChannel::Account)
            } else if str_eq(channel, "orders") {
                Some(PrivateChannel::Orders)
            } else if str_eq(channel, "fills") {
                Some(PrivateChannel::Fills)
            } else if str_eq(channel, "positions") {
                Some(PrivateChannel::Positions)
            } else {
                None
            }
        },
        PrivateMessageKind::Business => {
            if str_eq(channel, "orders-algo") {
                Some(PrivateChannel::AlgoOrders)
            } else {
                None
            }
        },
    }
}

/// What the private feed does after a message was handled.
#[derive(Clone, Copy, Debug, PartialEq, Eq, Structural)]
pub enum SubscribeStep {
    /// Go on reading; whether the feed is subscribed.
    Keep(bool),
    /// Nothing is left to subscribe to: end the connection cleanly.
    Stop,
    /// Send the subscription, then go on as subscribed.
    Subscribe,
}

/// After a message: subscribe once, after the login succeeded, when there
/// is something to subscribe to.
pub fn after_private_message(login_succeeded: bool, subscribed: bool, nothing_to_subscribe: bool) -> (r:
    SubscribeStep)
    ensures
        r == (if !login_succeeded || subscribed {
            SubscribeStep::Keep(subscribed)
        } else if nothing_to_subscribe {
            SubscribeStep::Stop
        } else {
            SubscribeStep::Subscribe
        }),
{
    if !login_succeeded || subscribed {
        SubscribeStep::Keep(subscribed)
    } else if nothing_to_subscribe {
        SubscribeStep::Stop
    } else {
        SubscribeStep::Subscribe
    }
}

} // verus!

verus! {

/// How an outbound websocket operation is labelled when it is recorded.
pub struct OutboundLabels {
    pub rule_key: String,
    pub target_group: String,
    pub channel: String,
    /// The rate-limit scope: per mode for connection operations.
    pub scope_key: String,
}

/// The labels of an outbound operation, from its rate rule (rule key,
/// target group, channel) when it has one: without a rule, `ws_unknown`,
/// `ws_control` and `ws`. Connection operations (`ws_conn_ops`) are scoped
/// per mode as `ws_conn:<mode>`; any other rule is its own scope.
pub fn outbound_labels(rule: Option<(&str, &str, &str)>, mode: &str) -> (out: OutboundLabels)
    ensures
        out.rule_key@ == (match rule {
            Some(r) => r.0@,
            None => "ws_unknown"@,
        }),
        out.target_group@ == (match rule {
            Some(r) => r.1@,
            None => "ws_control"@,
        }),
        out.channel@ == (match rule {
            Some(r) => r.2@,
            None => "ws"@,
        }),
        out.scope_key@ == (if out.rule_key@ == "ws_conn_ops"@ {
            "ws_conn:"@ + mode@
        } else {
            out.rule_key@
        }),
{
    let (rule_key, target_group, channel) = match rule {
        Some(r) => r,
        None => ("ws_unknown", "ws_control", "ws"),
    };
    let scope_key = if str_eq(rule_key, "ws_conn_ops") {
        let mut s = owned("ws_conn:");
        crate::text::append_str(&mut s, mode);
        s
    } else {
        owned(rule_key)
    };
    OutboundLabels {
        rule_key: owned(rule_key),
        target_group: owned(target_group),
        channel: owned(channel),
        scope_key,
    }
}

} // verus!
