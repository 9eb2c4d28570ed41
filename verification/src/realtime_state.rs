//! Subscription bookkeeping of the realtime manager.
use vstd::prelude::*;

use crate::error::{AppError, AppResult};
use crate::keys::{
    inst_id_outcome, joined_key, normalize_inst_id, normalize_orderbook_channel,
    normalize_timeframe, orderbook_channel_outcome, orderbook_key, candle_key, timeframe_outcome,
};
use crate::private_feed::{normalize_private_mode, private_mode_outcome};
use crate::refs::{
    counts_positive, decrement_all, decremented, increment_all, incremented, lemma_counts_positive,
    lemma_increment_all_then_decrement_all, lists_counts, lists_keys, text_lt, RefCounts,
};
use crate::keys::{parse_candle_key, parse_orderbook_key, split_key};
use crate::subscriptions::{distinct, inst_ids_outcome, normalize_inst_ids, text_pairs_view, texts_view};
use crate::text::owned;

verus! {

/// The private channels a mode can subscribe to.
#[derive(Clone, Copy, Debug, PartialEq, Eq, Structural)]
pub enum PrivateChannel {
    Account,
    Orders,
    AlgoOrders,
    Fills,
    Positions,
}

/// How many keys each channel holds, and how many subscriptions are active.
pub struct SubscriptionCounts {
    pub tickers: usize,
    pub trades: usize,
    pub orderbooks: usize,
    pub candles: usize,
    pub accounts: usize,
    pub orders: usize,
    pub algo_orders: usize,
    pub fills: usize,
    pub positions: usize,
    /// Every channel but candles, summed.
    pub active: usize,
}

/// One channel's subscriptions as reported: its keys, and each key with its
/// count, both in increasing key order.
pub struct ChannelStatus {
    pub keys: Vec<String>,
    pub ref_counts: Vec<(String, usize)>,
}

/// Whether a channel report shows exactly the reference counts `m`.
pub open spec fn describes(c: ChannelStatus, m: Map<Seq<char>, nat>) -> bool {
    lists_keys(c.keys@, m) && lists_counts(c.ref_counts@, m)
}

/// The status of every subscription channel: the counts, and each channel's
/// keys and reference counts.
pub struct SubscriptionStatus {
    pub counts: SubscriptionCounts,
    pub tickers: ChannelStatus,
    pub trades: ChannelStatus,
    pub orderbooks: ChannelStatus,
    pub candles: ChannelStatus,
    pub accounts: ChannelStatus,
    pub orders: ChannelStatus,
    pub algo_orders: ChannelStatus,
    pub fills: ChannelStatus,
    pub positions: ChannelStatus,
}

/// Reference counts of every realtime subscription. Public channels are
/// keyed by instrument (and channel or timeframe), private ones by mode.
pub struct RealtimeSubscriptions {
    pub tickers: RefCounts,
    pub trades: RefCounts,
    pub orderbooks: RefCounts,
    pub candles: RefCounts,
    pub private_accounts: RefCounts,
    pub private_orders: RefCounts,
    pub private_algo_orders: RefCounts,
    pub private_fills: RefCounts,
    pub private_positions: RefCounts,
}

/// What has to be dropped once a private subscription is removed.
pub struct PrivateCleanup {
    /// The mode's account, order, fill and position caches.
    pub clear_private_caches: bool,
    /// The mode's algo-order cache.
    pub clear_algo_order_cache: bool,
    /// The mode's API credentials.
    pub clear_credentials: bool,
}

/// Whether `outcome` is an accepted key whose count can still grow.
pub open spec fn room_for(refs: Map<Seq<char>, nat>, outcome: Result<Seq<char>, Seq<char>>) -> bool {
    outcome matches Ok(k) ==> (!refs.contains_key(k) || refs[k] < usize::MAX)
}

/// The counts after a request that names `outcome`: one more reference to
/// an accepted key; nothing on a rejected one.
pub open spec fn after_add(refs: Map<Seq<char>, nat>, outcome: Result<Seq<char>, Seq<char>>) -> Map<
    Seq<char>,
    nat,
> {
    match outcome {
        Ok(k) => incremented(refs, k),
        Err(_) => refs,
    }
}

/// The counts after a request to drop `outcome`.
pub open spec fn after_remove(refs: Map<Seq<char>, nat>, outcome: Result<Seq<char>, Seq<char>>) -> Map<
    Seq<char>,
    nat,
> {
    match outcome {
        Ok(k) => decremented(refs, k),
        Err(_) => refs,
    }
}

/// Each instrument paired after a channel name.
pub open spec fn channel_args(channel: Seq<char>, ids: Seq<Seq<char>>) -> Seq<(Seq<char>, Seq<char>)> {
    ids.map_values(|k: Seq<char>| (channel, k))
}

/// The keys that split into two parts, split, in order.
pub open spec fn parsed_keys(keys: Seq<Seq<char>>) -> Seq<(Seq<char>, Seq<char>)>
    decreases keys.len(),
{
    if keys.len() == 0 {
        Seq::empty()
    } else {
        let before = parsed_keys(keys.drop_last());
        match split_key(keys.last()) {
            Some(p) => before.push(p),
            None => before,
        }
    }
}

/// Each pair with its parts exchanged.
pub open spec fn swapped(s: Seq<(Seq<char>, Seq<char>)>) -> Seq<(Seq<char>, Seq<char>)> {
    s.map_values(|p: (Seq<char>, Seq<char>)| (p.1, p.0))
}

/// The private-websocket channels a mode holds, in request order.
pub open spec fn present_channels(s: &RealtimeSubscriptions, mode: Seq<char>) -> Seq<PrivateChannel> {
    let a = if s.private_accounts@.contains_key(mode) {
        seq![PrivateChannel::Account]
    } else {
        Seq::empty()
    };
    let o = if s.private_orders@.contains_key(mode) {
        seq![PrivateChannel::Orders]
    } else {
        Seq::empty()
    };
    let f = if s.private_fills@.contains_key(mode) {
        seq![PrivateChannel::Fills]
    } else {
        Seq::empty()
    };
    let p = if s.private_positions@.contains_key(mode) {
        seq![PrivateChannel::Positions]
    } else {
        Seq::empty()
    };
    a + o + f + p
}

fn push_channel_args(out: &mut Vec<(String, String)>, channel: &str, ids: &Vec<String>)
    ensures
        text_pairs_view(final(out)@) == text_pairs_view(old(out)@) + channel_args(
            channel@,
            ids@.map_values(|s: String| s@),
        ),
{
    let ghost base = text_pairs_view(out@);
    let ghost keys = ids@.map_values(|s: String| s@);
    let mut i: usize = 0;
    assert(base + channel_args(channel@, keys.take(0)) =~= base);
    while i < ids.len()
        invariant
            i <= ids@.len(),
            keys == ids@.map_values(|s: String| s@),
            text_pairs_view(out@) == base + channel_args(channel@, keys.take(i as int)),
        decreases ids.len() - i,
    {
        let ghost before = text_pairs_view(out@);
        let id = ids[i].clone();
        out.push((owned(channel), id));
        assert(text_pairs_view(out@) =~= before.push((channel@, keys[i as int])));
        assert(channel_args(channel@, keys.take(i as int + 1)) =~= channel_args(channel@, keys.take(i as int)).push(
            (channel@, keys[i as int]),
        ));
        assert(text_pairs_view(out@) =~= base + channel_args(channel@, keys.take(i as int + 1)));
        i = i + 1;
    }
    assert(keys.take(i as int) =~= keys);
}

/// A collection request normalised: its instruments (each once) and its
/// order-book channel, or the error; the channel is checked first.
pub open spec fn collection_request(inst_ids: Seq<Seq<char>>, channel: Seq<char>) -> Result<
    (Seq<Seq<char>>, Seq<char>),
    Seq<char>,
> {
    match orderbook_channel_outcome(channel) {
        Err(e) => Err(e),
        Ok(c) => match inst_ids_outcome(inst_ids) {
            Err(e) => Err(e),
            Ok(ids) => Ok((ids, c)),
        },
    }
}

/// The order-book keys of instruments on one channel.
pub open spec fn orderbook_keys(ids: Seq<Seq<char>>, channel: Seq<char>) -> Seq<Seq<char>> {
    ids.map_values(|i: Seq<char>| joined_key(i, channel))
}

/// Whether the counts of the instruments' trades and of their order books
/// on channel `c` can all still grow.
pub open spec fn ids_room(trades: Map<Seq<char>, nat>, orderbooks: Map<Seq<char>, nat>, ids: Seq<Seq<char>>, c: Seq<char>) -> bool {
    forall|j: int|
        0 <= j < ids.len() ==> (!trades.contains_key(#[trigger] ids[j]) || trades[ids[j]] < usize::MAX) && (
        !orderbooks.contains_key(joined_key(ids[j], c)) || orderbooks[joined_key(ids[j], c)] < usize::MAX)
}

/// Whether every count a collection request adds to can still grow.
pub open spec fn collection_room(
    trades: Map<Seq<char>, nat>,
    orderbooks: Map<Seq<char>, nat>,
    request: Result<(Seq<Seq<char>>, Seq<char>), Seq<char>>,
) -> bool {
    match request {
        Ok((ids, c)) => ids_room(trades, orderbooks, ids, c),
        Err(_) => true,
    }
}

/// Keys joined to the same second part are equal only when their first
/// parts are.
proof fn lemma_joined_key_injective(a: Seq<char>, b: Seq<char>, c: Seq<char>)
    requires
        joined_key(a, c) == joined_key(b, c),
    ensures
        a == b,
{
    assert(joined_key(a, c).len() == a.len() + 1 + c.len());
    assert(joined_key(b, c).len() == b.len() + 1 + c.len());
    assert(a.len() == b.len());
    assert(a =~= joined_key(a, c).subrange(0, a.len() as int));
    assert(b =~= joined_key(b, c).subrange(0, b.len() as int));
}

/// A key not among those added keeps its count, so the room it had.
proof fn lemma_room_kept(m: Map<Seq<char>, nat>, ks: Seq<Seq<char>>, k: Seq<char>)
    requires
        counts_positive(m),
        !ks.contains(k),
    ensures
        increment_all(m, ks).contains_key(k) == m.contains_key(k),
        m.contains_key(k) ==> increment_all(m, ks)[k] == m[k],
    decreases ks.len(),
{
    if ks.len() > 0 {
        assert(!ks.drop_last().contains(k)) by {
            if ks.drop_last().contains(k) {
                let j = choose|j: int| 0 <= j < ks.drop_last().len() && ks.drop_last()[j] == k;
                assert(ks[j] == k);
            }
        }
        assert(ks.last() != k) by {
            assert(ks[ks.len() - 1] == ks.last());
        }
        lemma_room_kept(m, ks.drop_last(), k);
    }
}

/// Releasing a collection run right after it was added leaves the trade
/// and order-book references as they were: references held by anyone else
/// are not touched.
pub proof fn lemma_collection_round_trip(before: RealtimeSubscriptions, inst_ids: Seq<Seq<char>>, channel: Seq<char>)
    requires
        before.wf(),
    ensures
        collection_request(inst_ids, channel) matches Ok((ids, c)) ==> decrement_all(
            increment_all(before.trades@, ids),
            ids,
        ) == before.trades@ && decrement_all(
            increment_all(before.orderbooks@, orderbook_keys(ids, c)),
            orderbook_keys(ids, c),
        ) == before.orderbooks@,
{
    lemma_counts_positive(&before.trades);
    lemma_counts_positive(&before.orderbooks);
    if let Ok((ids, c)) = collection_request(inst_ids, channel) {
        lemma_increment_all_then_decrement_all(before.trades@, ids);
        lemma_increment_all_then_decrement_all(before.orderbooks@, orderbook_keys(ids, c));
    }
}

/// The key of an order-book request: instrument, then channel.
pub open spec fn orderbook_request_key(inst_id: Seq<char>, channel: Seq<char>) -> Result<
    Seq<char>,
    Seq<char>,
> {
    match inst_id_outcome(inst_id) {
        Err(e) => Err(e),
        Ok(i) => match orderbook_channel_outcome(channel) {
            Err(e) => Err(e),
            Ok(c) => Ok(joined_key(i, c)),
        },
    }
}

/// The key of a candle request: instrument, then timeframe.
pub open spec fn candle_request_key(inst_id: Seq<char>, timeframe: Seq<char>) -> Result<
    Seq<char>,
    Seq<char>,
> {
    match inst_id_outcome(inst_id) {
        Err(e) => Err(e),
        Ok(i) => match timeframe_outcome(timeframe) {
            Err(e) => Err(e),
            Ok(t) => Ok(joined_key(i, t)),
        },
    }
}

pub open spec fn unit_outcome(r: AppResult<()>, outcome: Result<Seq<char>, Seq<char>>) -> bool {
    match outcome {
        Ok(_) => r is Ok,
        Err(e) => r matches Err(x) && x.message() == e && x is Validation,
    }
}

impl RealtimeSubscriptions {
    pub open spec fn wf(&self) -> bool {
        &&& self.tickers.wf()
        &&& self.trades.wf()
        &&& self.orderbooks.wf()
        &&& self.candles.wf()
        &&& self.private_accounts.wf()
        &&& self.private_orders.wf()
        &&& self.private_algo_orders.wf()
        &&& self.private_fills.wf()
        &&& self.private_positions.wf()
    }

    /// The private reference counts of one channel.
    pub open spec fn private_refs(&self, channel: PrivateChannel) -> Map<Seq<char>, nat> {
        match channel {
            PrivateChannel::Account => self.private_accounts@,
            PrivateChannel::Orders => self.private_orders@,
            PrivateChannel::AlgoOrders => self.private_algo_orders@,
            PrivateChannel::Fills => self.private_fills@,
            PrivateChannel::Positions => self.private_positions@,
        }
    }

    /// Whether any public ticker, trade or order-book subscription is held.
    pub open spec fn public_active(&self) -> bool {
        self.tickers@.dom() != Set::<Seq<char>>::empty() || self.trades@.dom() != Set::<
            Seq<char>,
        >::empty() || self.orderbooks@.dom() != Set::<Seq<char>>::empty()
    }

    /// Whether the mode holds a subscription served by the private websocket.
    pub open spec fn private_active(&self, mode: Seq<char>) -> bool {
        self.private_accounts@.contains_key(mode) || self.private_orders@.contains_key(mode)
            || self.private_fills@.contains_key(mode) || self.private_positions@.contains_key(
            mode,
        )
    }

    /// Whether the mode holds a subscription served by the business websocket.
    pub open spec fn business_active(&self, mode: Seq<char>) -> bool {
        self.private_algo_orders@.contains_key(mode)
    }

    /// No subscriptions at all.
    pub fn new() -> (s: RealtimeSubscriptions)
        ensures
            s.wf(),
            s.tickers@ == Map::<Seq<char>, nat>::empty(),
            s.trades@ == Map::<Seq<char>, nat>::empty(),
            s.orderbooks@ == Map::<Seq<char>, nat>::empty(),
            s.candles@ == Map::<Seq<char>, nat>::empty(),
            forall|c: PrivateChannel| #[trigger] s.private_refs(c) == Map::<Seq<char>, nat>::empty(),
    {
        RealtimeSubscriptions {
            tickers: RefCounts::new(),
            trades: RefCounts::new(),
            orderbooks: RefCounts::new(),
            candles: RefCounts::new(),
            private_accounts: RefCounts::new(),
            private_orders: RefCounts::new(),
            private_algo_orders: RefCounts::new(),
            private_fills: RefCounts::new(),
            private_positions: RefCounts::new(),
        }
    }

    /// How many keys each channel holds, and how many subscriptions are
    /// active: every channel but candles counts.
    pub fn subscription_counts(&self) -> (c: SubscriptionCounts)
        requires
            self.wf(),
            self.tickers@.dom().len() + self.trades@.dom().len() + self.orderbooks@.dom().len()
                + self.private_accounts@.dom().len() + self.private_orders@.dom().len()
                + self.private_algo_orders@.dom().len() + self.private_fills@.dom().len()
                + self.private_positions@.dom().len() <= usize::MAX,
        ensures
            c.tickers == self.tickers@.dom().len(),
            c.trades == self.trades@.dom().len(),
            c.orderbooks == self.orderbooks@.dom().len(),
            c.candles == self.candles@.dom().len(),
            c.accounts == self.private_accounts@.dom().len(),
            c.orders == self.private_orders@.dom().len(),
            c.algo_orders == self.private_algo_orders@.dom().len(),
            c.fills == self.private_fills@.dom().len(),
            c.positions == self.private_positions@.dom().len(),
            c.active == c.tickers + c.trades + c.orderbooks + c.accounts + c.orders + c.algo_orders
                + c.fills + c.positions,
    {
        let tickers = self.tickers.len();
        let trades = self.trades.len();
        let orderbooks = self.orderbooks.len();
        let candles = self.candles.len();
        let accounts = self.private_accounts.len();
        let orders = self.private_orders.len();
        let algo_orders = self.private_algo_orders.len();
        let fills = self.private_fills.len();
        let positions = self.private_positions.len();
        let active = tickers + trades + orderbooks + accounts + orders + algo_orders + fills + positions;
        SubscriptionCounts {
            tickers,
            trades,
            orderbooks,
            candles,
            accounts,
            orders,
            algo_orders,
            fills,
            positions,
            active,
        }
    }

    /// The number of active subscription keys: every channel but candles.
    pub open spec fn active_total(&self) -> nat {
        self.tickers@.dom().len() + self.trades@.dom().len() + self.orderbooks@.dom().len()
            + self.private_accounts@.dom().len() + self.private_orders@.dom().len()
            + self.private_algo_orders@.dom().len() + self.private_fills@.dom().len()
            + self.private_positions@.dom().len()
    }

    /// Whether `c` holds each channel's key count and the active total.
    pub open spec fn counted_by(&self, c: SubscriptionCounts) -> bool {
        &&& c.tickers == self.tickers@.dom().len()
        &&& c.trades == self.trades@.dom().len()
        &&& c.orderbooks == self.orderbooks@.dom().len()
        &&& c.candles == self.candles@.dom().len()
        &&& c.accounts == self.private_accounts@.dom().len()
        &&& c.orders == self.private_orders@.dom().len()
        &&& c.algo_orders == self.private_algo_orders@.dom().len()
        &&& c.fills == self.private_fills@.dom().len()
        &&& c.positions == self.private_positions@.dom().len()
        &&& c.active == self.active_total()
    }

    fn channel_status(refs: &RefCounts) -> (c: ChannelStatus)
        requires
            refs.wf(),
        ensures
            describes(c, refs@),
    {
        ChannelStatus { keys: refs.keys(), ref_counts: refs.ref_counts() }
    }

    /// The status of every channel; `None` when the active total does not
    /// fit in a `usize`.
    pub fn status(&self) -> (out: Option<SubscriptionStatus>)
        requires
            self.wf(),
        ensures
            out is None <==> self.active_total() > usize::MAX,
            out matches Some(st) ==> {
                &&& self.counted_by(st.counts)
                &&& describes(st.tickers, self.tickers@)
                &&& describes(st.trades, self.trades@)
                &&& describes(st.orderbooks, self.orderbooks@)
                &&& describes(st.candles, self.candles@)
                &&& describes(st.accounts, self.private_accounts@)
                &&& describes(st.orders, self.private_orders@)
                &&& describes(st.algo_orders, self.private_algo_orders@)
                &&& describes(st.fills, self.private_fills@)
                &&& describes(st.positions, self.private_positions@)
            },
    {
        let total: u128 = self.tickers.len() as u128 + self.trades.len() as u128 + self.orderbooks.len() as u128
            + self.private_accounts.len() as u128 + self.private_orders.len() as u128
            + self.private_algo_orders.len() as u128 + self.private_fills.len() as u128
            + self.private_positions.len() as u128;
        if total > usize::MAX as u128 {
            return None;
        }
        let counts = self.subscription_counts();
        Some(SubscriptionStatus {
            counts,
            tickers: Self::channel_status(&self.tickers),
            trades: Self::channel_status(&self.trades),
            orderbooks: Self::channel_status(&self.orderbooks),
            candles: Self::channel_status(&self.candles),
            accounts: Self::channel_status(&self.private_accounts),
            orders: Self::channel_status(&self.private_orders),
            algo_orders: Self::channel_status(&self.private_algo_orders),
            fills: Self::channel_status(&self.private_fills),
            positions: Self::channel_status(&self.private_positions),
        })
    }

    /// Whether a public ticker, trade or order-book feed is wanted.
    pub fn has_public_subscriptions(&self) -> (b: bool)
        requires
            self.wf(),
        ensures
            b == self.public_active(),
    {
        !self.tickers.is_empty() || !self.trades.is_empty() || !self.orderbooks.is_empty()
    }

    /// Whether a candle feed is wanted.
    pub fn has_candle_subscriptions(&self) -> (b: bool)
        requires
            self.wf(),
        ensures
            b == (self.candles@.dom() != Set::<Seq<char>>::empty()),
    {
        !self.candles.is_empty()
    }

    /// Whether the mode needs its private websocket.
    pub fn has_private_subscriptions_for_mode(&self, mode: &str) -> (b: bool)
        requires
            self.wf(),
        ensures
            b == self.private_active(mode@),
    {
        self.private_accounts.contains_key(mode) || self.private_orders.contains_key(mode)
            || self.private_fills.contains_key(mode) || self.private_positions.contains_key(mode)
    }

    /// Whether the mode needs its business websocket.
    pub fn has_private_business_subscriptions_for_mode(&self, mode: &str) -> (b: bool)
        requires
            self.wf(),
        ensures
            b == self.business_active(mode@),
    {
        self.private_algo_orders.contains_key(mode)
    }

    /// Whether the mode needs either private websocket.
    pub fn has_any_private_subscriptions_for_mode(&self, mode: &str) -> (b: bool)
        requires
            self.wf(),
        ensures
            b == (self.private_active(mode@) || self.business_active(mode@)),
    {
        self.has_private_subscriptions_for_mode(mode)
            || self.has_private_business_subscriptions_for_mode(mode)
    }

    /// Adds a ticker subscription for an instrument.
    pub fn add_ticker(&mut self, inst_id: &str) -> (r: AppResult<()>)
        requires
            old(self).wf(),
            room_for(old(self).tickers@, inst_id_outcome(inst_id@)),
        ensures
            final(self).wf(),
            final(self).privates_same(old(self)),
            unit_outcome(r, inst_id_outcome(inst_id@)),
            final(self).tickers@ == after_add(old(self).tickers@, inst_id_outcome(inst_id@)),
            final(self).trades == old(self).trades,
            final(self).orderbooks == old(self).orderbooks,
            final(self).candles == old(self).candles,
    {
        let key = normalize_inst_id(inst_id)?;
        self.tickers.increment(key.as_str());
        Ok(())
    }

    /// Drops a ticker subscription for an instrument.
    pub fn remove_ticker(&mut self, inst_id: &str) -> (r: AppResult<()>)
        requires
            old(self).wf(),
        ensures
            final(self).wf(),
            final(self).privates_same(old(self)),
            unit_outcome(r, inst_id_outcome(inst_id@)),
            final(self).tickers@ == after_remove(old(self).tickers@, inst_id_outcome(inst_id@)),
            final(self).trades == old(self).trades,
            final(self).orderbooks == old(self).orderbooks,
            final(self).candles == old(self).candles,
    {
        let key = normalize_inst_id(inst_id)?;
        self.tickers.decrement(key.as_str());
        Ok(())
    }

    /// Adds a trade subscription for an instrument.
    pub fn add_trades(&mut self, inst_id: &str) -> (r: AppResult<()>)
        requires
            old(self).wf(),
            room_for(old(self).trades@, inst_id_outcome(inst_id@)),
        ensures
            final(self).wf(),
            final(self).privates_same(old(self)),
            unit_outcome(r, inst_id_outcome(inst_id@)),
            final(self).trades@ == after_add(old(self).trades@, inst_id_outcome(inst_id@)),
            final(self).tickers == old(self).tickers,
            final(self).orderbooks == old(self).orderbooks,
            final(self).candles == old(self).candles,
    {
        let key = normalize_inst_id(inst_id)?;
        self.trades.increment(key.as_str());
        Ok(())
    }

    /// Drops a trade subscription for an instrument.
    pub fn remove_trades(&mut self, inst_id: &str) -> (r: AppResult<()>)
        requires
            old(self).wf(),
        ensures
            final(self).wf(),
            final(self).privates_same(old(self)),
            unit_outcome(r, inst_id_outcome(inst_id@)),
            final(self).trades@ == after_remove(old(self).trades@, inst_id_outcome(inst_id@)),
            final(self).tickers == old(self).tickers,
            final(self).orderbooks == old(self).orderbooks,
            final(self).candles == old(self).candles,
    {
        let key = normalize_inst_id(inst_id)?;
        self.trades.decrement(key.as_str());
        Ok(())
    }

    fn orderbook_request(inst_id: &str, channel: &str) -> (r: AppResult<String>)
        ensures
            crate::error::text_outcome(r) == orderbook_request_key(inst_id@, channel@),
            r matches Err(e) ==> e is Validation,
    {
        let i = normalize_inst_id(inst_id)?;
        let c = normalize_orderbook_channel(channel)?;
        Ok(orderbook_key(i.as_str(), c.as_str()))
    }

    fn candle_request(inst_id: &str, timeframe: &str) -> (r: AppResult<String>)
        ensures
            crate::error::text_outcome(r) == candle_request_key(inst_id@, timeframe@),
            r matches Err(e) ==> e is Validation,
    {
        let i = normalize_inst_id(inst_id)?;
        let t = normalize_timeframe(timeframe)?;
        Ok(candle_key(i.as_str(), t.as_str()))
    }

    /// Adds an order-book subscription.
    pub fn add_orderbook(&mut self, inst_id: &str, channel: &str) -> (r: AppResult<()>)
        requires
            old(self).wf(),
            room_for(old(self).orderbooks@, orderbook_request_key(inst_id@, channel@)),
        ensures
            final(self).wf(),
            final(self).privates_same(old(self)),
            unit_outcome(r, orderbook_request_key(inst_id@, channel@)),
            final(self).orderbooks@ == after_add(
                old(self).orderbooks@,
                orderbook_request_key(inst_id@, channel@),
            ),
            final(self).tickers == old(self).tickers,
            final(self).trades == old(self).trades,
            final(self).candles == old(self).candles,
    {
        let key = Self::orderbook_request(inst_id, channel)?;
        self.orderbooks.increment(key.as_str());
        Ok(())
    }

    /// Drops an order-book subscription.
    pub fn remove_orderbook(&mut self, inst_id: &str, channel: &str) -> (r: AppResult<()>)
        requires
            old(self).wf(),
        ensures
            final(self).wf(),
            final(self).privates_same(old(self)),
            unit_outcome(r, orderbook_request_key(inst_id@, channel@)),
            final(self).orderbooks@ == after_remove(
                old(self).orderbooks@,
                orderbook_request_key(inst_id@, channel@),
            ),
            final(self).tickers == old(self).tickers,
            final(self).trades == old(self).trades,
            final(self).candles == old(self).candles,
    {
        let key = Self::orderbook_request(inst_id, channel)?;
        self.orderbooks.decrement(key.as_str());
        Ok(())
    }

    /// Adds a candle subscription.
    pub fn add_candle(&mut self, inst_id: &str, timeframe: &str) -> (r: AppResult<()>)
        requires
            old(self).wf(),
            room_for(old(self).candles@, candle_request_key(inst_id@, timeframe@)),
        ensures
            final(self).wf(),
            final(self).privates_same(old(self)),
            unit_outcome(r, candle_request_key(inst_id@, timeframe@)),
            final(self).candles@ == after_add(
                old(self).candles@,
                candle_request_key(inst_id@, timeframe@),
            ),
            final(self).tickers == old(self).tickers,
            final(self).trades == old(self).trades,
            final(self).orderbooks == old(self).orderbooks,
    {
        let key = Self::candle_request(inst_id, timeframe)?;
        self.candles.increment(key.as_str());
        Ok(())
    }

    /// Drops a candle subscription.
    pub fn remove_candle(&mut self, inst_id: &str, timeframe: &str) -> (r: AppResult<()>)
        requires
            old(self).wf(),
        ensures
            final(self).wf(),
            final(self).privates_same(old(self)),
            unit_outcome(r, candle_request_key(inst_id@, timeframe@)),
            final(self).candles@ == after_remove(
                old(self).candles@,
                candle_request_key(inst_id@, timeframe@),
            ),
            final(self).tickers == old(self).tickers,
            final(self).trades == old(self).trades,
            final(self).orderbooks == old(self).orderbooks,
    {
        let key = Self::candle_request(inst_id, timeframe)?;
        self.candles.decrement(key.as_str());
        Ok(())
    }

    /// Adds the trade and order-book subscriptions of a collection run: one
    /// reference per instrument (normalised, each once) to its trades and
    /// to its order book on `channel`. The channel is checked before the
    /// instruments; a rejected request changes nothing.
    pub fn add_collection_feeds(&mut self, inst_ids: &[String], channel: &str) -> (r: AppResult<()>)
        requires
            old(self).wf(),
            collection_room(
                old(self).trades@,
                old(self).orderbooks@,
                collection_request(texts_view(inst_ids@), channel@),
            ),
        ensures
            final(self).wf(),
            final(self).privates_same(old(self)),
            final(self).tickers == old(self).tickers,
            final(self).candles == old(self).candles,
            match collection_request(texts_view(inst_ids@), channel@) {
                Ok((ids, c)) => r is Ok && final(self).trades@ == increment_all(old(self).trades@, ids)
                    && final(self).orderbooks@ == increment_all(old(self).orderbooks@, orderbook_keys(ids, c)),
                Err(e) => r matches Err(x) && x.message() == e && final(self).trades == old(self).trades
                    && final(self).orderbooks == old(self).orderbooks,
            },
    {
        let c = normalize_orderbook_channel(channel)?;
        let ids = normalize_inst_ids(inst_ids)?;
        let ghost ids_v = texts_view(ids@);
        let ghost t0 = self.trades@;
        let ghost o0 = self.orderbooks@;
        let ghost before = *self;
        proof {
            assert(collection_request(texts_view(inst_ids@), channel@) == Ok::<(Seq<Seq<char>>, Seq<char>), Seq<char>>((ids_v, c@)));
            assert(t0 == old(self).trades@);
            assert(o0 == old(self).orderbooks@);
            lemma_counts_positive(&self.trades);
            lemma_counts_positive(&self.orderbooks);
            assert(ids_v.take(0) =~= Seq::<Seq<char>>::empty());
            assert(orderbook_keys(ids_v.take(0), c@) =~= Seq::<Seq<char>>::empty());
        }
        let mut i: usize = 0;
        while i < ids.len()
            invariant
                i <= ids@.len(),
                ids_v == texts_view(ids@),
                distinct(ids_v),
                counts_positive(t0),
                counts_positive(o0),
                ids_room(t0, o0, ids_v, c@),
                self.wf(),
                self.trades@ == increment_all(t0, ids_v.take(i as int)),
                self.orderbooks@ == increment_all(o0, orderbook_keys(ids_v.take(i as int), c@)),
                self.tickers == before.tickers,
                self.candles == before.candles,
                self.private_accounts == before.private_accounts,
                self.private_orders == before.private_orders,
                self.private_algo_orders == before.private_algo_orders,
                self.private_fills == before.private_fills,
                self.private_positions == before.private_positions,
            decreases ids.len() - i,
        {
            let key = orderbook_key(ids[i].as_str(), c.as_str());
            proof {
                let k = ids_v[i as int];
                let done = ids_v.take(i as int);
                let done_keys = orderbook_keys(done, c@);
                assert(!done.contains(k)) by {
                    if done.contains(k) {
                        let j = choose|j: int| 0 <= j < done.len() && done[j] == k;
                        assert(ids_v[j] == ids_v[i as int]);
                    }
                }
                assert(!done_keys.contains(key@)) by {
                    if done_keys.contains(key@) {
                        let j = choose|j: int| 0 <= j < done_keys.len() && done_keys[j] == key@;
                        lemma_joined_key_injective(done[j], k, c@);
                        assert(done.contains(done[j]));
                    }
                }
                lemma_room_kept(t0, done, k);
                lemma_room_kept(o0, done_keys, key@);
            }
            self.trades.increment(ids[i].as_str());
            self.orderbooks.increment(key.as_str());
            proof {
                assert(ids_v.take(i as int + 1).drop_last() =~= ids_v.take(i as int));
                assert(orderbook_keys(ids_v.take(i as int + 1), c@).drop_last() =~= orderbook_keys(
                    ids_v.take(i as int),
                    c@,
                ));
            }
            i = i + 1;
        }
        proof {
            assert(ids_v.take(i as int) =~= ids_v);
        }
        Ok(())
    }

    /// Drops the trade and order-book subscriptions of a collection run:
    /// one reference per instrument (normalised, each once) to its trades
    /// and to its order book on `channel`. A rejected request changes
    /// nothing.
    pub fn remove_collection_feeds(&mut self, inst_ids: &[String], channel: &str) -> (r: AppResult<()>)
        requires
            old(self).wf(),
        ensures
            final(self).wf(),
            final(self).privates_same(old(self)),
            final(self).tickers == old(self).tickers,
            final(self).candles == old(self).candles,
            match collection_request(texts_view(inst_ids@), channel@) {
                Ok((ids, c)) => r is Ok && final(self).trades@ == decrement_all(old(self).trades@, ids)
                    && final(self).orderbooks@ == decrement_all(old(self).orderbooks@, orderbook_keys(ids, c)),
                Err(e) => r matches Err(x) && x.message() == e && final(self).trades == old(self).trades
                    && final(self).orderbooks == old(self).orderbooks,
            },
    {
        let c = normalize_orderbook_channel(channel)?;
        let ids = normalize_inst_ids(inst_ids)?;
        let ghost ids_v = texts_view(ids@);
        let ghost t0 = self.trades@;
        let ghost o0 = self.orderbooks@;
        let ghost before = *self;
        proof {
            assert(ids_v.take(0) =~= Seq::<Seq<char>>::empty());
            assert(orderbook_keys(ids_v.take(0), c@) =~= Seq::<Seq<char>>::empty());
        }
        let mut i: usize = 0;
        while i < ids.len()
            invariant
                i <= ids@.len(),
                ids_v == texts_view(ids@),
                self.wf(),
                self.trades@ == decrement_all(t0, ids_v.take(i as int)),
                self.orderbooks@ == decrement_all(o0, orderbook_keys(ids_v.take(i as int), c@)),
                self.tickers == before.tickers,
                self.candles == before.candles,
                self.private_accounts == before.private_accounts,
                self.private_orders == before.private_orders,
                self.private_algo_orders == before.private_algo_orders,
                self.private_fills == before.private_fills,
                self.private_positions == before.private_positions,
            decreases ids.len() - i,
        {
            let key = orderbook_key(ids[i].as_str(), c.as_str());
            self.trades.decrement(ids[i].as_str());
            self.orderbooks.decrement(key.as_str());
            proof {
                assert(ids_v.take(i as int + 1).drop_last() =~= ids_v.take(i as int));
                assert(orderbook_keys(ids_v.take(i as int + 1), c@).drop_last() =~= orderbook_keys(
                    ids_v.take(i as int),
                    c@,
                ));
            }
            i = i + 1;
        }
        proof {
            assert(ids_v.take(i as int) =~= ids_v);
        }
        Ok(())
    }
    /// Whether the mode's count on `channel` can still grow.
    pub open spec fn private_room(&self, mode: Seq<char>, channel: PrivateChannel) -> bool {
        room_for(self.private_refs(channel), private_mode_outcome(mode))
    }

    /// Every private channel keeps its counts.
    pub open spec fn privates_same(&self, before: &RealtimeSubscriptions) -> bool {
        forall|c: PrivateChannel| #[trigger] self.private_refs(c) == before.private_refs(c)
    }

    /// Every private channel other than `channel` keeps its counts.
    pub open spec fn others_unchanged(&self, before: &RealtimeSubscriptions, channel: PrivateChannel) -> bool {
        &&& forall|c: PrivateChannel| c != channel ==> #[trigger] self.private_refs(c) == before.private_refs(c)
        &&& self.tickers == before.tickers
        &&& self.trades == before.trades
        &&& self.orderbooks == before.orderbooks
        &&& self.candles == before.candles
    }

    fn bump_private(&mut self, mode: &str, channel: PrivateChannel)
        requires
            old(self).wf(),
            !old(self).private_refs(channel).contains_key(mode@)
                || old(self).private_refs(channel)[mode@] < usize::MAX,
        ensures
            final(self).wf(),
            final(self).private_refs(channel) == incremented(old(self).private_refs(channel), mode@),
            final(self).others_unchanged(old(self), channel),
    {
        match channel {
            PrivateChannel::Account => self.private_accounts.increment(mode),
            PrivateChannel::Orders => self.private_orders.increment(mode),
            PrivateChannel::AlgoOrders => self.private_algo_orders.increment(mode),
            PrivateChannel::Fills => self.private_fills.increment(mode),
            PrivateChannel::Positions => self.private_positions.increment(mode),
        }
    }

    fn drop_private(&mut self, mode: &str, channel: PrivateChannel)
        requires
            old(self).wf(),
        ensures
            final(self).wf(),
            final(self).private_refs(channel) == decremented(old(self).private_refs(channel), mode@),
            final(self).others_unchanged(old(self), channel),
    {
        match channel {
            PrivateChannel::Account => self.private_accounts.decrement(mode),
            PrivateChannel::Orders => self.private_orders.decrement(mode),
            PrivateChannel::AlgoOrders => self.private_algo_orders.decrement(mode),
            PrivateChannel::Fills => self.private_fills.decrement(mode),
            PrivateChannel::Positions => self.private_positions.decrement(mode),
        }
    }

    /// Adds a private subscription of a mode. The mode must be `live` or
    /// `simulated` and its API credentials complete; algo orders go through
    /// the business websocket and say so in their error.
    pub fn add_private(&mut self, mode: &str, channel: PrivateChannel, credentials_valid: bool) -> (r: AppResult<String>)
        requires
            old(self).wf(),
            old(self).private_room(mode@, channel),
        ensures
            final(self).wf(),
            final(self).others_unchanged(old(self), channel),
            r matches Err(e) ==> e is Validation,
            match private_mode_outcome(mode@) {
                Err(e) => r matches Err(x) && x.message() == e && final(self).private_refs(channel) == old(self).private_refs(channel),
                Ok(m) => if credentials_valid {
                    r matches Ok(v) && v@ == m
                        && final(self).private_refs(channel) == incremented(old(self).private_refs(channel), m)
                } else {
                    r matches Err(x) && x.message() == m + (if channel is AlgoOrders {
                        " OKX API 密钥未配置完整，无法订阅私有实时业务通道"@
                    } else {
                        " OKX API 密钥未配置完整，无法订阅私有实时通道"@
                    }) && final(self).private_refs(channel) == old(self).private_refs(channel)
                },
            },
    {
        let m = normalize_private_mode(mode)?;
        if !credentials_valid {
            let mut msg = m.clone();
            if channel == PrivateChannel::AlgoOrders {
                crate::text::append_str(&mut msg, " OKX API 密钥未配置完整，无法订阅私有实时业务通道");
            } else {
                crate::text::append_str(&mut msg, " OKX API 密钥未配置完整，无法订阅私有实时通道");
            }
            return Err(AppError::Validation(msg));
        }
        self.bump_private(m.as_str(), channel);
        Ok(m)
    }

    /// Drops a private subscription of a mode and says which of the mode's
    /// caches and credentials are no longer needed.
    pub fn remove_private(&mut self, mode: &str, channel: PrivateChannel) -> (r: AppResult<(String, PrivateCleanup)>)
        requires
            old(self).wf(),
        ensures
            final(self).wf(),
            final(self).others_unchanged(old(self), channel),
            r matches Err(e) ==> e is Validation,
            match private_mode_outcome(mode@) {
                Err(e) => r matches Err(x) && x.message() == e && final(self).private_refs(channel) == old(self).private_refs(channel),
                Ok(m) => r matches Ok((v, cleanup)) && v@ == m
                    && final(self).private_refs(channel) == decremented(old(self).private_refs(channel), m)
                    && cleanup.clear_credentials == !(final(self).private_active(m) || final(self).business_active(m))
                    && cleanup.clear_private_caches == (!(channel is AlgoOrders) && !final(self).private_active(m))
                    && cleanup.clear_algo_order_cache == (channel is AlgoOrders && !final(self).business_active(m)),
            },
    {
        let m = normalize_private_mode(mode)?;
        self.drop_private(m.as_str(), channel);
        let any = self.has_any_private_subscriptions_for_mode(m.as_str());
        let cleanup = if channel == PrivateChannel::AlgoOrders {
            PrivateCleanup {
                clear_private_caches: false,
                clear_algo_order_cache: !self.has_private_business_subscriptions_for_mode(m.as_str()),
                clear_credentials: !any,
            }
        } else {
            PrivateCleanup {
                clear_private_caches: !self.has_private_subscriptions_for_mode(m.as_str()),
                clear_algo_order_cache: false,
                clear_credentials: !any,
            }
        };
        Ok((m, cleanup))
    }
    /// The public channels to subscribe to, as (channel, instrument) pairs:
    /// tickers, then trades, then order books, each in key order; an
    /// order-book key that does not split is skipped.
    pub fn public_subscription_args(&self) -> (out: Vec<(String, String)>)
        requires
            self.wf(),
        ensures
            text_pairs_view(out@) == channel_args("tickers"@, self.tickers.key_seq()) + channel_args(
                "trades"@,
                self.trades.key_seq(),
            ) + swapped(parsed_keys(self.orderbooks.key_seq())),
    {
        let mut out: Vec<(String, String)> = Vec::new();
        push_channel_args(&mut out, "tickers", &self.tickers.keys());
        push_channel_args(&mut out, "trades", &self.trades.keys());
        let books = self.orderbooks.keys();
        let ghost base = text_pairs_view(out@);
        let ghost keys = books@.map_values(|s: String| s@);
        let mut i: usize = 0;
        assert(swapped(parsed_keys(keys.take(0))) =~= Seq::<(Seq<char>, Seq<char>)>::empty());
        assert(base + swapped(parsed_keys(keys.take(0))) =~= base);
        while i < books.len()
            invariant
                i <= books@.len(),
                keys == books@.map_values(|s: String| s@),
                text_pairs_view(out@) == base + swapped(parsed_keys(keys.take(i as int))),
            decreases books.len() - i,
        {
            let ghost before = text_pairs_view(out@);
            assert(keys.take(i as int + 1).drop_last() =~= keys.take(i as int));
            match parse_orderbook_key(books[i].as_str()) {
                Some((inst_id, channel)) => {
                    let ghost pair = (inst_id@, channel@);
                    out.push((channel, inst_id));
                    assert(keys.take(i as int + 1).last() == keys[i as int]);
                    assert(parsed_keys(keys.take(i as int + 1)) == parsed_keys(keys.take(i as int)).push(pair));
                    assert(swapped(parsed_keys(keys.take(i as int + 1))) =~= swapped(parsed_keys(keys.take(i as int))).push(
                        (pair.1, pair.0),
                    ));
                    assert(text_pairs_view(out@) =~= before.push((pair.1, pair.0)));
                    assert(text_pairs_view(out@) =~= base + swapped(parsed_keys(keys.take(i as int + 1))));
                },
                None => {
                    assert(keys.take(i as int + 1).last() == keys[i as int]);
                    assert(text_pairs_view(out@) =~= base + swapped(parsed_keys(keys.take(i as int + 1))));
                },
            }
            i = i + 1;
        }
        assert(keys.take(i as int) =~= keys);
        out
    }

    /// The candle subscriptions, as (instrument, timeframe) pairs in key
    /// order; a key that does not split is skipped.
    pub fn active_candles(&self) -> (out: Vec<(String, String)>)
        requires
            self.wf(),
        ensures
            text_pairs_view(out@) == parsed_keys(self.candles.key_seq()),
    {
        let list = self.candles.keys();
        let ghost keys = list@.map_values(|s: String| s@);
        let mut out: Vec<(String, String)> = Vec::new();
        let mut i: usize = 0;
        assert(parsed_keys(keys.take(0)) =~= Seq::<(Seq<char>, Seq<char>)>::empty());
        while i < list.len()
            invariant
                i <= list@.len(),
                keys == list@.map_values(|s: String| s@),
                text_pairs_view(out@) == parsed_keys(keys.take(i as int)),
            decreases list.len() - i,
        {
            assert(keys.take(i as int + 1).drop_last() =~= keys.take(i as int));
            assert(keys.take(i as int + 1).last() == keys[i as int]);
            match parse_candle_key(list[i].as_str()) {
                Some(pair) => {
                    let ghost before = text_pairs_view(out@);
                    out.push(pair);
                    assert(text_pairs_view(out@) =~= before.push((pair.0@, pair.1@)));
                    assert(text_pairs_view(out@) =~= parsed_keys(keys.take(i as int + 1)));
                },
                None => {},
            }
            i = i + 1;
        }
        assert(keys.take(i as int) =~= keys);
        out
    }

    /// The private-websocket channels a mode subscribes to, in the order
    /// they are requested: account, orders, fills, positions.
    pub fn active_private_channels(&self, mode: &str) -> (out: Vec<PrivateChannel>)
        requires
            self.wf(),
        ensures
            out@ == present_channels(self, mode@),
    {
        let mut out: Vec<PrivateChannel> = Vec::new();
        if self.private_accounts.contains_key(mode) {
            out.push(PrivateChannel::Account);
        }
        if self.private_orders.contains_key(mode) {
            out.push(PrivateChannel::Orders);
        }
        if self.private_fills.contains_key(mode) {
            out.push(PrivateChannel::Fills);
        }
        if self.private_positions.contains_key(mode) {
            out.push(PrivateChannel::Positions);
        }
        assert(out@ =~= present_channels(self, mode@));
        out
    }

    /// The business-websocket channels a mode subscribes to: algo orders.
    pub fn active_private_business_channels(&self, mode: &str) -> (out: Vec<PrivateChannel>)
        requires
            self.wf(),
        ensures
            out@ == (if self.private_algo_orders@.contains_key(mode@) {
                seq![PrivateChannel::AlgoOrders]
            } else {
                Seq::empty()
            }),
    {
        let mut out: Vec<PrivateChannel> = Vec::new();
        if self.private_algo_orders.contains_key(mode) {
            out.push(PrivateChannel::AlgoOrders);
        }
        assert(out@ =~= (if self.private_algo_orders@.contains_key(mode@) {
            seq![PrivateChannel::AlgoOrders]
        } else {
            Seq::empty()
        }));
        out
    }

    /// The modes with a subscription served by the private websocket, in
    /// increasing order, each once.
    pub fn active_private_modes(&self) -> (out: Vec<String>)
        requires
            self.wf(),
        ensures
            forall|i: int| 0 <= i < out@.len() ==> self.private_active(#[trigger] out@[i]@),
            forall|m: Seq<char>|
                self.private_active(m) ==> exists|i: int| 0 <= i < out@.len() && #[trigger] out@[i]@ == m,
            forall|i: int, j: int|
                0 <= i < j < out@.len() ==> text_lt(#[trigger] out@[i]@, #[trigger] out@[j]@),
    {
        let mut modes = RefCounts::new();
        let lists = [
            self.private_accounts.keys(),
            self.private_orders.keys(),
            self.private_fills.keys(),
            self.private_positions.keys(),
        ];
        let mut l: usize = 0;
        while l < 4
            invariant
                self.wf(),
                modes.wf(),
                l <= 4,
                forall|i: int, m: int|
                    0 <= i < l && 0 <= m < lists@[i]@.len() ==> modes@.contains_key(
                        #[trigger] lists@[i]@[m]@,
                    ),
                forall|k: Seq<char>| #[trigger] modes@.contains_key(k) ==> modes@[k] == 1 && exists|
                    i: int,
                    m: int,
                | 0 <= i < l && 0 <= m < lists@[i]@.len() && #[trigger] lists@[i]@[m]@ == k,
            decreases 4 - l,
        {
            let list = &lists[l];
            let mut m: usize = 0;
            while m < list.len()
                invariant
                    modes.wf(),
                    l < 4,
                    list == &lists@[l as int],
                    m <= list@.len(),
                    forall|i: int, n: int|
                        0 <= i < l && 0 <= n < lists@[i]@.len() ==> modes@.contains_key(
                            #[trigger] lists@[i]@[n]@,
                        ),
                    forall|n: int| 0 <= n < m ==> modes@.contains_key(#[trigger] list@[n]@),
                    forall|k: Seq<char>| #[trigger] modes@.contains_key(k) ==> modes@[k] == 1 && exists|
                        i: int,
                        n: int,
                    | 0 <= i <= l && 0 <= n < lists@[i]@.len() && #[trigger] lists@[i]@[n]@ == k,
                decreases list.len() - m,
            {
                let key = list[m].as_str();
                if !modes.contains_key(key) {
                    modes.increment(key);
                    assert(lists@[l as int]@[m as int]@ == key@);
                }
                m = m + 1;
            }
            l = l + 1;
        }
        proof {
            assert forall|k: Seq<char>| #[trigger] modes@.contains_key(k) implies self.private_active(k) by {
                let (i, m) = choose|i: int, m: int|
                    0 <= i < 4 && 0 <= m < lists@[i]@.len() && #[trigger] lists@[i]@[m]@ == k;
                if i == 0 {
                } else if i == 1 {
                } else if i == 2 {
                } else {
                }
            }
            assert forall|k: Seq<char>| self.private_active(k) implies modes@.contains_key(k) by {
                if self.private_accounts@.contains_key(k) {
                    let m = choose|m: int| 0 <= m < lists@[0]@.len() && #[trigger] lists@[0]@[m]@ == k;
                } else if self.private_orders@.contains_key(k) {
                    let m = choose|m: int| 0 <= m < lists@[1]@.len() && #[trigger] lists@[1]@[m]@ == k;
                } else if self.private_fills@.contains_key(k) {
                    let m = choose|m: int| 0 <= m < lists@[2]@.len() && #[trigger] lists@[2]@[m]@ == k;
                } else {
                    let m = choose|m: int| 0 <= m < lists@[3]@.len() && #[trigger] lists@[3]@[m]@ == k;
                }
            }
        }
        modes.keys()
    }

    /// The modes with an algo-order subscription, in increasing order.
    pub fn active_private_business_modes(&self) -> (out: Vec<String>)
        requires
            self.wf(),
        ensures
            forall|i: int| 0 <= i < out@.len() ==> self.business_active(#[trigger] out@[i]@),
            forall|m: Seq<char>|
                self.business_active(m) ==> exists|i: int| 0 <= i < out@.len() && #[trigger] out@[i]@ == m,
            forall|i: int, j: int|
                0 <= i < j < out@.len() ==> text_lt(#[trigger] out@[i]@, #[trigger] out@[j]@),
    {
        self.private_algo_orders.keys()
    }
}

} // verus!
