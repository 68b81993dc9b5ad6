//! What holds of the trader as a whole, over any course of events.
use vstd::prelude::*;

use crate::clock::UtcInstant;
use crate::config::TradingConfig;
use crate::gamma_api::interval_end;
use crate::gamma_api::ParsedMarketInfo;
use crate::number::Number;
use crate::search::change_first;
use crate::search::first_where;
use crate::search::last_where;
use crate::search::lemma_first_where_holds;
use crate::search::lemma_last_where_holds;
use crate::state::count_won;
use crate::state::has_order;
use crate::state::is_evaluated;
use crate::state::is_trade;
use crate::state::is_unordered;
use crate::state::is_unsettled;
use crate::state::outcome;
use crate::state::settled_trades;
use crate::state::success_count;
use crate::state::trimmed;
use crate::state::with_order;
use crate::state::with_price;
use crate::state::with_result;
use crate::state::with_status;
use crate::state::MarketPrices;
use crate::state::MarketTagState;
use crate::state::StateView;
use crate::state::TagState;
use crate::state::TradeStatus;
use crate::state::TradeView;
use crate::state::MAX_PRICE_HISTORY;
use crate::state::MAX_STATUS_MESSAGES;
use crate::text::asset_name;
use crate::text::int_text;
use crate::trading::final_price;
use crate::trading::is_due;
use crate::trading::judged;
use crate::trading::result_at;
use crate::trading::result_notices;
use crate::trading::side_ask;
use crate::trading::trade_of;
use crate::trading::AttemptView;
use crate::trading::OutcomeView;
use crate::trading::SideView;
use crate::trading::SignalsView;
use crate::websocket::MessageReadings;
use crate::websocket::PriceChange;
use crate::websocket::WsMessage;

verus! {

/// Something that changes the state.
pub enum Change {
    /// New prices of one side of a market.
    Quote {
        slug: Seq<char>,
        is_up: bool,
        ask: Option<Number>,
        bid: Option<Number>,
        at: UtcInstant,
    },
    /// A message of the price feed.
    Message {
        message: WsMessage,
        readings: MessageReadings,
        mapping: Map<Seq<char>, Seq<char>>,
        at: UtcInstant,
    },
    /// A status message.
    Told { at: UtcInstant, message: Seq<char> },
    /// A market came.
    Market { slug: Seq<char>, info: ParsedMarketInfo, at: UtcInstant },
    /// The price feed is connected, or not.
    Connected(bool),
    /// Trades are placed from now on.
    TradingEnabled,
    /// A new connection of the price feed was asked for.
    ReconnectAsked,
    /// It was looked whether a new connection was asked for.
    ReconnectTaken,
    /// The end of the current interval became known.
    Interval(i64),
    /// All tags were forgotten.
    TagsReset,
    /// An interval started.
    Refresh { first: bool, secs: int },
    /// The strategy looked at a market.
    Monitor { slug: Seq<char>, ts: i64, now: UtcInstant, config: TradingConfig },
    /// An attempt to buy.
    Attempt { attempt: AttemptView, config: TradingConfig, has_client: bool, now: UtcInstant },
    /// What came of placing an order.
    Settle { attempt: AttemptView, config: TradingConfig, outcome: OutcomeView },
    /// The trades of an interval were evaluated.
    Evaluation(i64),
    /// A trade was put on record.
    Trade(TradeView),
    /// The trade with an order got a status.
    OrderStatus { id: Seq<char>, status: TradeStatus },
    /// A pending trade failed.
    TradeFailed { slug: Seq<char>, asset: Seq<char>, side: Seq<char> },
    /// A pending trade got its order.
    TradeOrder { slug: Seq<char>, asset: Seq<char>, side: Seq<char>, id: Seq<char> },
    /// A pending trade got another price.
    TradePrice { slug: Seq<char>, asset: Seq<char>, side: Seq<char>, price: Number },
    /// A successful trade got its result.
    TradeResult { slug: Seq<char>, asset: Seq<char>, side: Seq<char>, result: Seq<char> },
    /// It was looked whether an asset is under its limit.
    WindowLook { asset: Seq<char>, ts: i64 },
    /// A trade of an asset was counted where it was under its limit.
    WindowTry { asset: Seq<char>, max: u32, ts: i64 },
    /// A trade of an asset was counted.
    WindowCount { asset: Seq<char>, ts: i64 },
}

impl StateView {
    /// After a change.
    pub open spec fn after(self, change: Change) -> StateView {
        match change {
            Change::Quote { slug, is_up, ask, bid, at } => self.priced(slug, is_up, ask, bid, at),
            Change::Message { message, readings, mapping, at } => self.after_message(
                message,
                readings,
                mapping,
                at,
            ),
            Change::Told { at, message } => self.told(at, message),
            Change::Market { slug, info, at } => self.tracking(slug, info, at),
            Change::Connected(connected) => StateView { ws_connected: connected, ..self },
            Change::TradingEnabled => StateView { trading_enabled: true, ..self },
            Change::ReconnectAsked => StateView { reconnect: true, ..self },
            Change::ReconnectTaken => StateView { reconnect: false, ..self },
            Change::Interval(ts) => StateView { next_interval: ts, ..self },
            Change::TagsReset => StateView { tags: Map::empty(), ..self },
            Change::Refresh { first, secs } => self.refreshed(first, secs),
            Change::Monitor { slug, ts, now, config } => if self.is_monitored(
                slug,
                ts,
                now,
                config,
            ) {
                self.monitored(slug, ts, now, config)
            } else {
                self
            },
            Change::Attempt { attempt, config, has_client, now } => attempt.begin(
                self,
                config,
                has_client,
                now,
            ).state,
            Change::Settle { attempt, config, outcome } => attempt.settle(
                self,
                config,
                outcome,
            ).state,
            Change::Evaluation(ts) => self.evaluated(ts),
            Change::Trade(trade) => self.traded(trade),
            Change::OrderStatus { id, status } => self.with_order_status(id, status),
            Change::TradeFailed { slug, asset, side } => self.with_trade_failed(slug, asset, side),
            Change::TradeOrder { slug, asset, side, id } => self.with_trade_order(
                slug,
                asset,
                side,
                id,
            ),
            Change::TradePrice { slug, asset, side, price } => self.with_trade_price(
                slug,
                asset,
                side,
                price,
            ),
            Change::TradeResult { slug, asset, side, result } => self.with_trade_result(
                slug,
                asset,
                side,
                result,
            ),
            Change::WindowLook { asset, ts } => self.rolled(asset, ts),
            Change::WindowTry { asset, max, ts } => self.attempted(asset, max, ts),
            Change::WindowCount { asset, ts } => self.counted(asset, ts),
        }
    }

    /// After changes, one after the other.
    pub open spec fn after_all(self, changes: Seq<Change>) -> StateView
        decreases changes.len(),
    {
        if changes.len() == 0 {
            self
        } else {
            self.after_all(changes.drop_last()).after(changes.last())
        }
    }

    /// What holds of every state: at most so many messages and past prices are kept, each tracked
    /// market has an entry for its prices, past prices are those of a market with prices, and the
    /// order of the markets lists each tracked market once.
    pub open spec fn is_sound(self) -> bool {
        &&& self.statuses.len() <= MAX_STATUS_MESSAGES
        &&& forall|slug: Seq<char>| #[trigger]
            self.history.contains_key(slug) ==> self.history[slug].len() <= MAX_PRICE_HISTORY
                && self.prices.contains_key(slug)
        &&& forall|slug: Seq<char>| #[trigger]
            self.markets.contains_key(slug) ==> self.prices.contains_key(slug)
        &&& self.market_order.no_duplicates()
        &&& forall|slug: Seq<char>| #[trigger]
            self.market_order.contains(slug) <==> self.markets.contains_key(slug)
    }

    /// Whether the messages, the prices and the markets are those of `other`.
    spec fn has_feed_of(self, other: StateView) -> bool {
        &&& self.statuses == other.statuses
        &&& self.history == other.history
        &&& self.prices == other.prices
        &&& self.markets == other.markets
        &&& self.market_order == other.market_order
    }
}

/// New prices keep a state sound.
proof fn lemma_priced_is_sound(
    state: StateView,
    slug: Seq<char>,
    is_up: bool,
    ask: Option<Number>,
    bid: Option<Number>,
    at: UtcInstant,
)
    requires
        state.is_sound(),
    ensures
        state.priced(slug, is_up, ask, bid, at).is_sound(),
{
}

/// Changed prices keep a state sound.
proof fn lemma_quoted_changes_is_sound(
    state: StateView,
    mapping: Map<Seq<char>, Seq<char>>,
    changes: Seq<PriceChange>,
    asks: Seq<Option<Number>>,
    bids: Seq<Option<Number>>,
    at: UtcInstant,
    n: nat,
)
    requires
        state.is_sound(),
    ensures
        state.quoted_changes(mapping, changes, asks, bids, at, n).is_sound(),
    decreases n,
{
    if n > 0 {
        lemma_quoted_changes_is_sound(state, mapping, changes, asks, bids, at, (n - 1) as nat);
        let before = state.quoted_changes(mapping, changes, asks, bids, at, (n - 1) as nat);
        let id = changes[n - 1].asset_id@;
        let slug = mapping[id];
        lemma_priced_is_sound(
            before,
            slug,
            id == before.markets[slug].up_token_id@,
            asks[n - 1],
            bids[n - 1],
            at,
        );
    }
}

/// A message of the price feed keeps a state sound.
proof fn lemma_after_message_is_sound(
    state: StateView,
    message: WsMessage,
    readings: MessageReadings,
    mapping: Map<Seq<char>, Seq<char>>,
    at: UtcInstant,
)
    requires
        state.is_sound(),
    ensures
        state.after_message(message, readings, mapping, at).is_sound(),
{
    match message {
        WsMessage::PriceChange(pc) => {
            lemma_quoted_changes_is_sound(
                state,
                mapping,
                pc.price_changes@,
                readings.asks@,
                readings.bids@,
                at,
                pc.price_changes@.len(),
            );
        },
        _ => {},
    }
}

/// A market that comes keeps a state sound.
proof fn lemma_tracking_is_sound(
    state: StateView,
    slug: Seq<char>,
    info: ParsedMarketInfo,
    at: UtcInstant,
)
    requires
        state.is_sound(),
    ensures
        state.tracking(slug, info, at).is_sound(),
{
    let after = state.tracking(slug, info, at);
    if !state.markets.contains_key(slug) {
        assert(!state.market_order.contains(slug));
        let order = state.market_order.push(slug);
        assert forall|x: Seq<char>| #[trigger] after.market_order.contains(
            x,
        ) <==> after.markets.contains_key(x) by {
            if state.market_order.contains(x) {
                let k = choose|k: int|
                    0 <= k < state.market_order.len() && state.market_order[k] == x;
                assert(order[k] == x);
            }
            if order.contains(x) {
                let k = choose|k: int| 0 <= k < order.len() && order[k] == x;
                if k < state.market_order.len() {
                    assert(state.market_order[k] == x);
                    assert(state.market_order.contains(x));
                }
            }
            if x == slug {
                assert(order[state.market_order.len() as int] == x);
            }
        }
        assert(order.no_duplicates()) by {
            assert forall|i: int, j: int|
                0 <= i < order.len() && 0 <= j < order.len() && i != j implies order[i]
                != order[j] by {
                if i < state.market_order.len() {
                    assert(state.market_order.contains(state.market_order[i]));
                }
                if j < state.market_order.len() {
                    assert(state.market_order.contains(state.market_order[j]));
                }
            }
        }
    }
}

/// A change keeps a sound state sound.
pub proof fn law_change_keeps_state_sound(state: StateView, change: Change)
    requires
        state.is_sound(),
    ensures
        state.after(change).is_sound(),
{
    match change {
        Change::Quote { slug, is_up, ask, bid, at } => {
            lemma_priced_is_sound(state, slug, is_up, ask, bid, at);
        },
        Change::Message { message, readings, mapping, at } => {
            lemma_after_message_is_sound(state, message, readings, mapping, at);
        },
        Change::Told { at, message } => {},
        Change::Market { slug, info, at } => {
            lemma_tracking_is_sound(state, slug, info, at);
        },
        _ => {
            assert(state.after(change).has_feed_of(state));
        },
    }
}

/// Every state that a session comes to is sound.
pub proof fn law_every_state_is_sound(changes: Seq<Change>)
    ensures
        StateView::initial().after_all(changes).is_sound(),
    decreases changes.len(),
{
    if changes.len() > 0 {
        law_every_state_is_sound(changes.drop_last());
        law_change_keeps_state_sound(
            StateView::initial().after_all(changes.drop_last()),
            changes.last(),
        );
    }
}

/// How many trades of an asset are on record for the interval that ends at `ts`.
pub open spec fn recorded(trades: Seq<TradeView>, asset: Seq<char>, ts: i64) -> nat
    decreases trades.len(),
{
    if trades.len() == 0 {
        0
    } else {
        recorded(trades.drop_last(), asset, ts) + if trades.last().asset == asset
            && trades.last().interval_ts == ts {
            1nat
        } else {
            0nat
        }
    }
}

/// A trade put before others counts once.
proof fn lemma_recorded_before(t: TradeView, trades: Seq<TradeView>, asset: Seq<char>, ts: i64)
    ensures
        recorded(seq![t] + trades, asset, ts) == recorded(trades, asset, ts) + if t.asset == asset
            && t.interval_ts == ts {
            1nat
        } else {
            0nat
        },
    decreases trades.len(),
{
    let all = seq![t] + trades;
    if trades.len() == 0 {
        assert(all.drop_last() =~= trades);
        assert(all.last() == t);
    } else {
        lemma_recorded_before(t, trades.drop_last(), asset, ts);
        assert(all.drop_last() =~= seq![t] + trades.drop_last());
        assert(all.last() == trades.last());
    }
}

/// Whether a change of a trade leaves its asset and its interval.
spec fn keeps_place(f: spec_fn(TradeView) -> TradeView) -> bool {
    forall|t: TradeView| (#[trigger] f(t)).asset == t.asset && f(t).interval_ts == t.interval_ts
}

/// A change of one trade that leaves its asset and its interval does not count.
proof fn lemma_recorded_update(
    trades: Seq<TradeView>,
    i: int,
    t: TradeView,
    asset: Seq<char>,
    ts: i64,
)
    requires
        0 <= i < trades.len(),
        t.asset == trades[i].asset,
        t.interval_ts == trades[i].interval_ts,
    ensures
        recorded(trades.update(i, t), asset, ts) == recorded(trades, asset, ts),
    decreases trades.len(),
{
    let changed = trades.update(i, t);
    if i == trades.len() - 1 {
        assert(changed.drop_last() =~= trades.drop_last());
    } else {
        assert(changed.drop_last() =~= trades.drop_last().update(i, t));
        assert(changed.last() == trades.last());
        lemma_recorded_update(trades.drop_last(), i, t, asset, ts);
    }
}

/// A change of the first trade with a property does not count.
proof fn lemma_recorded_change(
    trades: Seq<TradeView>,
    p: spec_fn(TradeView) -> bool,
    f: spec_fn(TradeView) -> TradeView,
    asset: Seq<char>,
    ts: i64,
)
    requires
        keeps_place(f),
    ensures
        recorded(change_first(trades, p, f), asset, ts) == recorded(trades, asset, ts),
{
    lemma_first_where_holds(trades, p);
    let i = first_where(trades, p);
    if i < trades.len() {
        lemma_recorded_update(trades, i, f(trades[i]), asset, ts);
    }
}

/// Trades with the same assets and intervals count the same.
proof fn lemma_recorded_same(a: Seq<TradeView>, b: Seq<TradeView>, asset: Seq<char>, ts: i64)
    requires
        a.len() == b.len(),
        forall|i: int|
            0 <= i < a.len() ==> (#[trigger] a[i]).asset == b[i].asset && a[i].interval_ts
                == b[i].interval_ts,
    ensures
        recorded(a, asset, ts) == recorded(b, asset, ts),
    decreases a.len(),
{
    if a.len() > 0 {
        assert(a[a.len() - 1].asset == b[a.len() - 1].asset);
        assert forall|i: int| 0 <= i < a.len() - 1 implies (#[trigger] a.drop_last()[i]).asset
            == b.drop_last()[i].asset && a.drop_last()[i].interval_ts
            == b.drop_last()[i].interval_ts by {
            assert(a[i].asset == b[i].asset);
        }
        lemma_recorded_same(a.drop_last(), b.drop_last(), asset, ts);
    }
}

/// Whether a text says how a trade ended.
pub open spec fn is_result(result: Seq<char>) -> bool {
    result == "WIN"@ || result == "LOSS"@
}

impl StateView {
    /// Whether a change is one that the trader makes under a configuration: intervals do not go
    /// back, the strategy looks at markets for the current interval, trades come from attempts, of
    /// which only those that place orders are made again, orders that are answered for are filled,
    /// and results are wins or losses.
    pub open spec fn admits(self, change: Change, config: TradingConfig) -> bool {
        match change {
            Change::Interval(ts) => self.next_interval <= ts,
            Change::Refresh { first, secs } => self.next_interval <= interval_end(secs) <= i64::MAX,
            Change::Monitor { slug, ts, now, config: used } => ts == self.next_interval,
            Change::Attempt { attempt, config: used, has_client, now } => {
                &&& used == config
                &&& attempt.retry_count == 0 || config.enabled
            },
            Change::Trade(trade) => false,
            Change::OrderStatus { id, status } => status == TradeStatus::Success,
            Change::TradeResult { slug, asset, side, result } => is_result(result),
            Change::WindowLook { asset, ts } => ts == self.next_interval,
            Change::WindowTry { asset, max, ts } => ts == self.next_interval,
            Change::WindowCount { asset, ts } => ts == self.next_interval && self.window_of(
                asset,
                ts,
            ).trade_count < u32::MAX,
            _ => true,
        }
    }

    /// Whether changes, one after the other, are such that the trader makes.
    pub open spec fn admits_all(self, changes: Seq<Change>, config: TradingConfig) -> bool
        decreases changes.len(),
    {
        changes.len() == 0 || {
            &&& self.admits_all(changes.drop_last(), config)
            &&& self.after_all(changes.drop_last()).admits(changes.last(), config)
        }
    }

    /// Whether the trades of an asset for an interval are within the limit, those for the current
    /// interval are counted, and none are on record for a later one.
    spec fn is_within(self, max: u32, asset: Seq<char>, ts: i64) -> bool {
        let n = recorded(self.trades, asset, ts);
        &&& n <= max
        &&& ts == self.next_interval ==> n <= self.window_of(asset, ts).trade_count
        &&& ts > self.next_interval ==> n == 0
    }
}

/// A change that is no attempt and puts no trade on record does not count.
proof fn lemma_recorded_after(state: StateView, change: Change, asset: Seq<char>, ts: i64)
    requires
        change !is Attempt,
        change !is Trade,
    ensures
        recorded(state.after(change).trades, asset, ts) == recorded(state.trades, asset, ts),
        change !is WindowLook && change !is WindowTry && change !is WindowCount
            && change !is Monitor ==> state.after(change).windows == state.windows,
{
    let trades = state.trades;
    match change {
        Change::Message { message, readings, mapping, at } => {
            lemma_message_keeps_trades(state, message, readings, mapping, at);
        },
        Change::Refresh { first, secs } => {
            lemma_recorded_same(
                state.evaluated(state.next_interval).trades,
                trades,
                asset,
                ts,
            );
        },
        Change::Evaluation(interval_ts) => {
            lemma_recorded_same(state.evaluated(interval_ts).trades, trades, asset, ts);
        },
        Change::Settle { attempt, config: used, outcome } => {
            lemma_settle_keeps_count(state, attempt, used, outcome, asset, ts);
        },
        Change::OrderStatus { id, status } => {
            lemma_recorded_change(trades, has_order(id), with_status(status), asset, ts);
        },
        Change::TradeFailed { slug, asset: a, side } => {
            lemma_recorded_change(
                trades,
                is_trade(slug, a, side, TradeStatus::Pending),
                with_status(TradeStatus::Failed),
                asset,
                ts,
            );
        },
        Change::TradeOrder { slug, asset: a, side, id } => {
            lemma_recorded_change(trades, is_unordered(slug, a, side), with_order(id), asset, ts);
        },
        Change::TradePrice { slug, asset: a, side, price } => {
            lemma_recorded_change(
                trades,
                is_trade(slug, a, side, TradeStatus::Pending),
                with_price(price),
                asset,
                ts,
            );
        },
        Change::TradeResult { slug, asset: a, side, result } => {
            lemma_recorded_change(
                trades,
                is_unsettled(slug, a, side),
                with_result(result),
                asset,
                ts,
            );
        },
        _ => {},
    }
}

/// A change keeps the trades of an asset within the limit.
proof fn lemma_change_keeps_limit(
    state: StateView,
    change: Change,
    config: TradingConfig,
    asset: Seq<char>,
    ts: i64,
)
    requires
        state.admits(change, config),
        state.is_within(config.max_asset_trades, asset, ts),
    ensures
        state.after(change).is_within(config.max_asset_trades, asset, ts),
{
    match change {
        Change::Attempt { attempt, config: used, has_client, now } => {
            lemma_attempt_keeps_limit(state, attempt, config, has_client, now, asset, ts);
        },
        Change::Message { message, readings, mapping, at } => {
            lemma_recorded_after(state, change, asset, ts);
            lemma_message_keeps_trades(state, message, readings, mapping, at);
        },
        _ => {
            lemma_recorded_after(state, change, asset, ts);
        },
    }
}

/// A message of the price feed changes prices alone.
proof fn lemma_message_keeps_trades(
    state: StateView,
    message: WsMessage,
    readings: MessageReadings,
    mapping: Map<Seq<char>, Seq<char>>,
    at: UtcInstant,
)
    ensures
        state.after_message(message, readings, mapping, at) == (StateView {
            prices: state.after_message(message, readings, mapping, at).prices,
            history: state.after_message(message, readings, mapping, at).history,
            ..state
        }),
{
    match message {
        WsMessage::PriceChange(pc) => {
            lemma_changes_keep_trades(
                state,
                mapping,
                pc.price_changes@,
                readings.asks@,
                readings.bids@,
                at,
                pc.price_changes@.len(),
            );
        },
        _ => {},
    }
}

/// Changed prices change prices alone.
proof fn lemma_changes_keep_trades(
    state: StateView,
    mapping: Map<Seq<char>, Seq<char>>,
    changes: Seq<PriceChange>,
    asks: Seq<Option<Number>>,
    bids: Seq<Option<Number>>,
    at: UtcInstant,
    n: nat,
)
    ensures
        state.quoted_changes(mapping, changes, asks, bids, at, n) == (StateView {
            prices: state.quoted_changes(mapping, changes, asks, bids, at, n).prices,
            history: state.quoted_changes(mapping, changes, asks, bids, at, n).history,
            ..state
        }),
    decreases n,
{
    if n > 0 {
        lemma_changes_keep_trades(state, mapping, changes, asks, bids, at, (n - 1) as nat);
    }
}

/// An attempt keeps the trades of an asset within the limit.
proof fn lemma_attempt_keeps_limit(
    state: StateView,
    attempt: AttemptView,
    config: TradingConfig,
    has_client: bool,
    now: UtcInstant,
    asset: Seq<char>,
    ts: i64,
)
    requires
        attempt.retry_count == 0 || config.enabled,
        state.is_within(config.max_asset_trades, asset, ts),
    ensures
        attempt.begin(state, config, has_client, now).state.is_within(
            config.max_asset_trades,
            asset,
            ts,
        ),
{
    let name = asset_name(attempt.market_slug);
    let interval_ts = state.next_interval;
    if let Some(price) = attempt.price_in(state) {
        if !config.enabled {
            let t = trade_of(
                attempt,
                config,
                interval_ts,
                price,
                TradeStatus::Success,
                Some("SIM_"@ + int_text(now.secs as int)),
                now,
            );
            lemma_traded(state.attempted(name, config.max_asset_trades, interval_ts), t);
            lemma_recorded_before(t, state.trades, asset, ts);
        } else if attempt.retry_count == 0 {
            let t = trade_of(attempt, config, interval_ts, price, TradeStatus::Pending, None, now);
            lemma_traded(state.attempted(name, config.max_asset_trades, interval_ts), t);
            lemma_recorded_before(t, state.trades, asset, ts);
        } else {
            lemma_recorded_change(
                state.trades,
                is_trade(attempt.market_slug, name, attempt.side, TradeStatus::Pending),
                with_price(price),
                asset,
                ts,
            );
        }
    }
}

/// All trades stay on record.
proof fn lemma_traded(state: StateView, t: TradeView)
    ensures
        state.traded(t).trades == seq![t] + state.trades,
{
}

/// What came of placing an order does not change how many trades there are.
proof fn lemma_settle_keeps_count(
    state: StateView,
    attempt: AttemptView,
    config: TradingConfig,
    outcome: OutcomeView,
    asset: Seq<char>,
    ts: i64,
)
    ensures
        attempt.settle(state, config, outcome).state == state.with_trades(
            attempt.settle(state, config, outcome).state.trades,
        ),
        recorded(attempt.settle(state, config, outcome).state.trades, asset, ts) == recorded(
            state.trades,
            asset,
            ts,
        ),
{
    let name = asset_name(attempt.market_slug);
    lemma_recorded_change(
        state.trades,
        is_trade(attempt.market_slug, name, attempt.side, TradeStatus::Pending),
        with_status(TradeStatus::Failed),
        asset,
        ts,
    );
    if let OutcomeView::Filled(Some(id)) = outcome {
        let wanted = is_unordered(attempt.market_slug, name, attempt.side);
        lemma_recorded_change(state.trades, wanted, with_order(id), asset, ts);
        lemma_recorded_change(
            change_first(state.trades, wanted, with_order(id)),
            has_order(id),
            with_status(TradeStatus::Success),
            asset,
            ts,
        );
    }
}

/// No asset is traded more often in an interval than the configuration allows: whatever happens
/// in a session, at most so many trades of it are on record for any interval.
pub proof fn law_trades_per_interval_are_limited(
    changes: Seq<Change>,
    config: TradingConfig,
    asset: Seq<char>,
    ts: i64,
)
    requires
        StateView::initial().admits_all(changes, config),
    ensures
        recorded(StateView::initial().after_all(changes).trades, asset, ts)
            <= config.max_asset_trades,
{
    lemma_course_keeps_limit(changes, config, asset, ts);
}

/// A course of changes keeps the trades of an asset within the limit.
proof fn lemma_course_keeps_limit(
    changes: Seq<Change>,
    config: TradingConfig,
    asset: Seq<char>,
    ts: i64,
)
    requires
        StateView::initial().admits_all(changes, config),
    ensures
        StateView::initial().after_all(changes).is_within(config.max_asset_trades, asset, ts),
    decreases changes.len(),
{
    if changes.len() > 0 {
        lemma_course_keeps_limit(changes.drop_last(), config, asset, ts);
        lemma_change_keeps_limit(
            StateView::initial().after_all(changes.drop_last()),
            changes.last(),
            config,
            asset,
            ts,
        );
    }
}

/// Whether a change counts each trade that it puts on record, and nothing else: where trades are
/// placed there is an account, and windows are counted by attempts alone.
pub open spec fn counts_trades(change: Change, config: TradingConfig) -> bool {
    match change {
        Change::Attempt { attempt, config: used, has_client, now } => has_client
            || !config.enabled,
        Change::WindowTry { asset, max, ts } => false,
        Change::WindowCount { asset, ts } => false,
        _ => true,
    }
}

impl StateView {
    /// Whether the window of an asset counts its trades for the current interval, and is none of
    /// a later one.
    spec fn is_counted(self, asset: Seq<char>) -> bool {
        &&& recorded(self.trades, asset, self.next_interval) == self.window_of(
            asset,
            self.next_interval,
        ).trade_count
        &&& self.windows.contains_key(asset) ==> self.windows[asset].window_start
            <= self.next_interval
    }
}

/// A change keeps the trades of an asset counted.
proof fn lemma_change_keeps_counted(
    state: StateView,
    change: Change,
    config: TradingConfig,
    asset: Seq<char>,
)
    requires
        state.admits(change, config),
        counts_trades(change, config),
        state.is_counted(asset),
        state.is_within(config.max_asset_trades, asset, state.after(change).next_interval),
    ensures
        state.after(change).is_counted(asset),
{
    let ts = state.after(change).next_interval;
    match change {
        Change::Attempt { attempt, config: used, has_client, now } => {
            let name = asset_name(attempt.market_slug);
            if let Some(price) = attempt.price_in(state) {
                let entered = state.attempted(name, config.max_asset_trades, ts);
                if !config.enabled {
                    let t = trade_of(
                        attempt,
                        config,
                        ts,
                        price,
                        TradeStatus::Success,
                        Some("SIM_"@ + int_text(now.secs as int)),
                        now,
                    );
                    lemma_traded(entered, t);
                    lemma_recorded_before(t, state.trades, asset, ts);
                } else if attempt.retry_count == 0 {
                    let t = trade_of(attempt, config, ts, price, TradeStatus::Pending, None, now);
                    lemma_traded(entered, t);
                    lemma_recorded_before(t, state.trades, asset, ts);
                } else {
                    lemma_recorded_change(
                        state.trades,
                        is_trade(attempt.market_slug, name, attempt.side, TradeStatus::Pending),
                        with_price(price),
                        asset,
                        ts,
                    );
                }
            }
        },
        Change::Message { message, readings, mapping, at } => {
            lemma_recorded_after(state, change, asset, ts);
            lemma_message_keeps_trades(state, message, readings, mapping, at);
        },
        _ => {
            lemma_recorded_after(state, change, asset, ts);
        },
    }
}

/// The count of an asset in the current interval is the number of its trades on record for that
/// interval, simulated ones and placed ones alike.
pub proof fn law_window_counts_the_trades(
    changes: Seq<Change>,
    config: TradingConfig,
    asset: Seq<char>,
)
    requires
        StateView::initial().admits_all(changes, config),
        forall|i: int| 0 <= i < changes.len() ==> counts_trades(#[trigger] changes[i], config),
    ensures
        ({
            let state = StateView::initial().after_all(changes);
            recorded(state.trades, asset, state.next_interval) == state.window_of(
                asset,
                state.next_interval,
            ).trade_count
        }),
{
    lemma_course_keeps_counted(changes, config, asset);
}

/// A course of changes keeps the trades of an asset counted.
proof fn lemma_course_keeps_counted(
    changes: Seq<Change>,
    config: TradingConfig,
    asset: Seq<char>,
)
    requires
        StateView::initial().admits_all(changes, config),
        forall|i: int| 0 <= i < changes.len() ==> counts_trades(#[trigger] changes[i], config),
    ensures
        StateView::initial().after_all(changes).is_counted(asset),
    decreases changes.len(),
{
    if changes.len() > 0 {
        let earlier = changes.drop_last();
        let before = StateView::initial().after_all(earlier);
        assert forall|i: int| 0 <= i < earlier.len() implies counts_trades(
            #[trigger] earlier[i],
            config,
        ) by {
            assert(earlier[i] == changes[i]);
        }
        lemma_course_keeps_counted(earlier, config, asset);
        lemma_course_keeps_limit(
            earlier,
            config,
            asset,
            before.after(changes.last()).next_interval,
        );
        assert(counts_trades(changes[changes.len() - 1], config));
        lemma_change_keeps_counted(before, changes.last(), config, asset);
    }
}

/// What holds of every trade on record: it is of the bet amount, about the asset of its market,
/// and where it has a result, it succeeded and was won or lost.
pub open spec fn is_regular(t: TradeView, config: TradingConfig) -> bool {
    &&& t.amount == config.bet_amount
    &&& t.asset == asset_name(t.market_slug)
    &&& t.result matches Some(result) ==> t.status == TradeStatus::Success && is_result(result)
}

/// Whether all trades are regular.
pub open spec fn are_regular(trades: Seq<TradeView>, config: TradingConfig) -> bool {
    forall|i: int| 0 <= i < trades.len() ==> is_regular(#[trigger] trades[i], config)
}

/// A change of the first trade with a property keeps trades regular, where it keeps the regular
/// ones with that property regular.
proof fn lemma_change_keeps_regular(
    trades: Seq<TradeView>,
    p: spec_fn(TradeView) -> bool,
    f: spec_fn(TradeView) -> TradeView,
    config: TradingConfig,
)
    requires
        are_regular(trades, config),
        forall|t: TradeView| p(t) && is_regular(t, config) ==> is_regular(#[trigger] f(t), config),
    ensures
        are_regular(change_first(trades, p, f), config),
{
    lemma_first_where_holds(trades, p);
    let i = first_where(trades, p);
    if i < trades.len() {
        assert(is_regular(f(trades[i]), config));
    }
}

/// An attempt keeps trades regular.
proof fn lemma_attempt_keeps_regular(
    state: StateView,
    attempt: AttemptView,
    config: TradingConfig,
    has_client: bool,
    now: UtcInstant,
)
    requires
        are_regular(state.trades, config),
    ensures
        are_regular(attempt.begin(state, config, has_client, now).state.trades, config),
{
    let name = asset_name(attempt.market_slug);
    let interval_ts = state.next_interval;
    if let Some(price) = attempt.price_in(state) {
        let entered = if attempt.retry_count == 0 {
            state.attempted(name, config.max_asset_trades, interval_ts)
        } else {
            state
        };
        if !config.enabled {
            let t = trade_of(
                attempt,
                config,
                interval_ts,
                price,
                TradeStatus::Success,
                Some("SIM_"@ + int_text(now.secs as int)),
                now,
            );
            lemma_traded(entered, t);
        } else if attempt.retry_count == 0 {
            let t = trade_of(attempt, config, interval_ts, price, TradeStatus::Pending, None, now);
            lemma_traded(entered, t);
        } else {
            lemma_change_keeps_regular(
                state.trades,
                is_trade(attempt.market_slug, name, attempt.side, TradeStatus::Pending),
                with_price(price),
                config,
            );
        }
    }
}

/// What came of placing an order keeps trades regular.
proof fn lemma_settle_keeps_regular(
    state: StateView,
    attempt: AttemptView,
    used: TradingConfig,
    outcome: OutcomeView,
    config: TradingConfig,
)
    requires
        are_regular(state.trades, config),
    ensures
        are_regular(attempt.settle(state, used, outcome).state.trades, config),
{
    let name = asset_name(attempt.market_slug);
    lemma_change_keeps_regular(
        state.trades,
        is_trade(attempt.market_slug, name, attempt.side, TradeStatus::Pending),
        with_status(TradeStatus::Failed),
        config,
    );
    if let OutcomeView::Filled(Some(id)) = outcome {
        let wanted = is_unordered(attempt.market_slug, name, attempt.side);
        lemma_change_keeps_regular(state.trades, wanted, with_order(id), config);
        lemma_change_keeps_regular(
            change_first(state.trades, wanted, with_order(id)),
            has_order(id),
            with_status(TradeStatus::Success),
            config,
        );
    }
}

/// A change keeps trades regular.
proof fn lemma_change_of_state_keeps_regular(
    state: StateView,
    change: Change,
    config: TradingConfig,
)
    requires
        state.admits(change, config),
        are_regular(state.trades, config),
    ensures
        are_regular(state.after(change).trades, config),
{
    let trades = state.trades;
    match change {
        Change::Message { message, readings, mapping, at } => {
            lemma_message_keeps_trades(state, message, readings, mapping, at);
        },
        Change::Attempt { attempt, config: used, has_client, now } => {
            lemma_attempt_keeps_regular(state, attempt, config, has_client, now);
        },
        Change::Settle { attempt, config: used, outcome } => {
            lemma_settle_keeps_regular(state, attempt, used, outcome, config);
        },
        Change::OrderStatus { id, status } => {
            lemma_change_keeps_regular(trades, has_order(id), with_status(status), config);
        },
        Change::TradeFailed { slug, asset, side } => {
            lemma_change_keeps_regular(
                trades,
                is_trade(slug, asset, side, TradeStatus::Pending),
                with_status(TradeStatus::Failed),
                config,
            );
        },
        Change::TradeOrder { slug, asset, side, id } => {
            lemma_change_keeps_regular(
                trades,
                is_unordered(slug, asset, side),
                with_order(id),
                config,
            );
        },
        Change::TradePrice { slug, asset, side, price } => {
            lemma_change_keeps_regular(
                trades,
                is_trade(slug, asset, side, TradeStatus::Pending),
                with_price(price),
                config,
            );
        },
        Change::TradeResult { slug, asset, side, result } => {
            lemma_change_keeps_regular(
                trades,
                is_unsettled(slug, asset, side),
                with_result(result),
                config,
            );
        },
        _ => {},
    }
}

/// Every trade of a session is of the bet amount and about the asset of its market, and only
/// successful trades have a result, which is a win or a loss.
pub proof fn law_every_trade_is_regular(changes: Seq<Change>, config: TradingConfig)
    requires
        StateView::initial().admits_all(changes, config),
    ensures
        are_regular(StateView::initial().after_all(changes).trades, config),
    decreases changes.len(),
{
    if changes.len() > 0 {
        law_every_trade_is_regular(changes.drop_last(), config);
        lemma_change_of_state_keeps_regular(
            StateView::initial().after_all(changes.drop_last()),
            changes.last(),
            config,
        );
    }
}

/// After `n` attempts to trade an asset in an interval.
pub open spec fn after_tries(
    state: StateView,
    asset: Seq<char>,
    max: u32,
    ts: i64,
    n: nat,
) -> StateView
    decreases n,
{
    if n == 0 {
        state
    } else {
        after_tries(state, asset, max, ts, (n - 1) as nat).attempted(asset, max, ts)
    }
}

/// How many of `n` attempts to trade an asset in an interval are granted.
pub open spec fn granted(state: StateView, asset: Seq<char>, max: u32, ts: i64, n: nat) -> nat
    decreases n,
{
    if n == 0 {
        0
    } else {
        let before = (n - 1) as nat;
        granted(state, asset, max, ts, before) + if after_tries(
            state,
            asset,
            max,
            ts,
            before,
        ).under_limit(asset, max, ts) {
            1nat
        } else {
            0nat
        }
    }
}

/// Of attempts to trade an asset in an interval as many are granted as the limit leaves, and each
/// one that is granted is counted.
pub proof fn law_tries_are_granted_up_to_the_limit(
    state: StateView,
    asset: Seq<char>,
    max: u32,
    ts: i64,
    n: nat,
)
    ensures
        ({
            let count = state.window_of(asset, ts).trade_count;
            let room: int = if count < max {
                max - count
            } else {
                0
            };
            &&& granted(state, asset, max, ts, n) == if n <= room {
                n as int
            } else {
                room
            }
            &&& after_tries(state, asset, max, ts, n).window_of(asset, ts).trade_count == count
                + granted(state, asset, max, ts, n)
        }),
    decreases n,
{
    if n > 0 {
        law_tries_are_granted_up_to_the_limit(state, asset, max, ts, (n - 1) as nat);
    }
}

/// An order is placed again exactly where it was not filled and there are retries left: then
/// nothing but the number of the attempt changes.
pub proof fn law_unfilled_orders_are_retried(
    attempt: AttemptView,
    state: StateView,
    config: TradingConfig,
    outcome: OutcomeView,
)
    ensures
        ({
            let settled = attempt.settle(state, config, outcome);
            if outcome !is Filled && attempt.retry_count < config.max_retries {
                &&& settled.retry == Some(
                    AttemptView { retry_count: (attempt.retry_count + 1) as u32, ..attempt },
                )
                &&& settled.state == state
            } else {
                settled.retry is None
            }
        }),
{
}

/// The attempt that is made after the orders of `attempt` and of those that follow it came to
/// `outcomes`; none where one of the orders was the last.
pub open spec fn retried(
    attempt: AttemptView,
    state: StateView,
    config: TradingConfig,
    outcomes: Seq<OutcomeView>,
) -> Option<AttemptView>
    decreases outcomes.len(),
{
    if outcomes.len() == 0 {
        Some(attempt)
    } else {
        match retried(attempt, state, config, outcomes.drop_last()) {
            Some(next) => next.settle(state, config, outcomes.last()).retry,
            None => None,
        }
    }
}

/// After its first order a trade is tried at most as often again as the configuration says,
/// always for the same side of the same market.
pub proof fn law_retries_are_limited(
    attempt: AttemptView,
    state: StateView,
    config: TradingConfig,
    outcomes: Seq<OutcomeView>,
)
    requires
        attempt.retry_count == 0,
    ensures
        match retried(attempt, state, config, outcomes) {
            Some(next) => {
                &&& outcomes.len() <= config.max_retries
                &&& next == AttemptView { retry_count: outcomes.len() as u32, ..attempt }
            },
            None => true,
        },
        outcomes.len() > config.max_retries ==> retried(attempt, state, config, outcomes) is None,
    decreases outcomes.len(),
{
    if outcomes.len() > 0 {
        law_retries_are_limited(attempt, state, config, outcomes.drop_last());
        if let Some(next) = retried(attempt, state, config, outcomes.drop_last()) {
            law_unfilled_orders_are_retried(next, state, config, outcomes.last());
        }
    }
}

/// The first order of a trade is placed with a pending trade on record, before all others.
pub proof fn law_placed_order_is_on_record(
    attempt: AttemptView,
    state: StateView,
    config: TradingConfig,
    now: UtcInstant,
)
    requires
        attempt.retry_count == 0,
        config.enabled,
        state.under_limit(
            asset_name(attempt.market_slug),
            config.max_asset_trades,
            state.next_interval,
        ),
    ensures
        attempt.begin(state, config, true, now).place_order,
        attempt.begin(state, config, true, now).state.trades == seq![
            trade_of(
                attempt,
                config,
                state.next_interval,
                attempt.original_price,
                TradeStatus::Pending,
                None,
                now,
            ),
        ] + state.trades,
{
    lemma_traded(
        state.attempted(
            asset_name(attempt.market_slug),
            config.max_asset_trades,
            state.next_interval,
        ),
        trade_of(
            attempt,
            config,
            state.next_interval,
            attempt.original_price,
            TradeStatus::Pending,
            None,
            now,
        ),
    );
}

/// Whether `t` is the pending trade of an attempt, without an order.
pub open spec fn is_pending_of(t: TradeView, attempt: AttemptView) -> bool {
    is_unordered(attempt.market_slug, asset_name(attempt.market_slug), attempt.side)(t)
}

/// A change of the first of some trades, which has the property.
proof fn lemma_change_head(
    t: TradeView,
    rest: Seq<TradeView>,
    p: spec_fn(TradeView) -> bool,
    f: spec_fn(TradeView) -> TradeView,
)
    requires
        p(t),
    ensures
        change_first(seq![t] + rest, p, f) == seq![f(t)] + rest,
{
    let all = seq![t] + rest;
    assert(all[0] == t);
    assert(first_where(all, p) == 0);
    assert(all.update(0, f(t)) =~= seq![f(t)] + rest);
}

/// A filled order makes its pending trade a successful one with the order's id; all other trades
/// stay as they are.
pub proof fn law_filled_order_makes_its_trade_successful(
    attempt: AttemptView,
    state: StateView,
    config: TradingConfig,
    id: Seq<char>,
    t: TradeView,
    rest: Seq<TradeView>,
)
    requires
        state.trades == seq![t] + rest,
        is_pending_of(t, attempt),
    ensures
        attempt.settle(state, config, OutcomeView::Filled(Some(id))).state == state.with_trades(
            seq![TradeView { status: TradeStatus::Success, order_id: Some(id), ..t }] + rest,
        ),
{
    let name = asset_name(attempt.market_slug);
    lemma_change_head(
        t,
        rest,
        is_unordered(attempt.market_slug, name, attempt.side),
        with_order(id),
    );
    lemma_change_head(
        with_order(id)(t),
        rest,
        has_order(id),
        with_status(TradeStatus::Success),
    );
}

/// An order that is not filled, with no retries left, makes its pending trade a failed one; all
/// other trades stay as they are.
pub proof fn law_exhausted_order_makes_its_trade_failed(
    attempt: AttemptView,
    state: StateView,
    config: TradingConfig,
    outcome: OutcomeView,
    t: TradeView,
    rest: Seq<TradeView>,
)
    requires
        state.trades == seq![t] + rest,
        is_pending_of(t, attempt),
        outcome !is Filled,
        attempt.retry_count >= config.max_retries,
    ensures
        attempt.settle(state, config, outcome).state == state.with_trades(
            seq![TradeView { status: TradeStatus::Failed, ..t }] + rest,
        ),
{
    lemma_change_head(
        t,
        rest,
        is_trade(
            attempt.market_slug,
            asset_name(attempt.market_slug),
            attempt.side,
            TradeStatus::Pending,
        ),
        with_status(TradeStatus::Failed),
    );
}

/// An order that is placed again is placed at the current ask, which its pending trade takes
/// over; the trade is not counted again.
pub proof fn law_retry_takes_the_current_price(
    attempt: AttemptView,
    state: StateView,
    config: TradingConfig,
    now: UtcInstant,
    ask: Number,
    t: TradeView,
    rest: Seq<TradeView>,
)
    requires
        state.trades == seq![t] + rest,
        is_pending_of(t, attempt),
        attempt.retry_count > 0,
        config.enabled,
        state.prices.contains_key(attempt.market_slug),
        side_ask(state.prices[attempt.market_slug], attempt.side) == Some(ask),
    ensures
        attempt.begin(state, config, true, now).place_order,
        attempt.begin(state, config, true, now).state == state.with_trades(
            seq![TradeView { price: ask, ..t }] + rest,
        ),
{
    lemma_change_head(
        t,
        rest,
        is_trade(
            attempt.market_slug,
            asset_name(attempt.market_slug),
            attempt.side,
            TradeStatus::Pending,
        ),
        with_price(ask),
    );
}

/// The wins and the losses are the evaluated trades, which are among the successful ones.
pub proof fn law_record_adds_up(trades: Seq<TradeView>)
    ensures
        count_won(settled_trades(trades), true) + count_won(settled_trades(trades), false)
            == settled_trades(trades).len(),
        settled_trades(trades).len() <= success_count(trades),
        success_count(trades) <= trades.len(),
    decreases trades.len(),
{
    if trades.len() > 0 {
        law_record_adds_up(trades.drop_last());
        let rest = settled_trades(trades.drop_last());
        if outcome(trades.last()) is Some {
            assert(settled_trades(trades).drop_last() =~= rest);
        }
    }
}

/// The trades that were not evaluated, in their order.
pub open spec fn unevaluated(trades: Seq<TradeView>) -> Seq<TradeView>
    decreases trades.len(),
{
    if trades.len() == 0 {
        Seq::empty()
    } else if is_evaluated()(trades.last()) {
        unevaluated(trades.drop_last())
    } else {
        unevaluated(trades.drop_last()).push(trades.last())
    }
}

/// Without an evaluated trade the others are the same.
proof fn lemma_remove_evaluated(trades: Seq<TradeView>, i: int)
    requires
        0 <= i < trades.len(),
        is_evaluated()(trades[i]),
    ensures
        unevaluated(trades.remove(i)) == unevaluated(trades),
    decreases trades.len(),
{
    let left = trades.remove(i);
    if i == trades.len() - 1 {
        assert(left =~= trades.drop_last());
    } else {
        lemma_remove_evaluated(trades.drop_last(), i);
        assert(left.drop_last() =~= trades.drop_last().remove(i));
        assert(left.last() == trades.last());
    }
}

/// Trades that were not evaluated are never dropped, whatever the limit; evaluated ones are, down
/// to the limit.
pub proof fn law_trimming_keeps_unevaluated_trades(trades: Seq<TradeView>, limit: nat)
    ensures
        unevaluated(trimmed(trades, limit)) == unevaluated(trades),
        limit > 0 ==> trimmed(trades, limit).len() <= limit || trimmed(trades, limit)
            == unevaluated(trades),
    decreases trades.len(),
{
    let i = last_where(trades, is_evaluated());
    lemma_last_where_holds(trades, is_evaluated());
    if limit > 0 && trades.len() > limit {
        if i >= 0 {
            lemma_remove_evaluated(trades, i);
            law_trimming_keeps_unevaluated_trades(trades.remove(i), limit);
        } else {
            lemma_all_unevaluated(trades);
        }
    }
}

/// Where no trade was evaluated, all are unevaluated.
proof fn lemma_all_unevaluated(trades: Seq<TradeView>)
    requires
        forall|j: int| 0 <= j < trades.len() ==> !is_evaluated()(#[trigger] trades[j]),
    ensures
        unevaluated(trades) == trades,
    decreases trades.len(),
{
    if trades.len() > 0 {
        let rest = trades.drop_last();
        assert forall|j: int| 0 <= j < rest.len() implies !is_evaluated()(#[trigger] rest[j]) by {
            assert(!is_evaluated()(trades[j]));
        }
        lemma_all_unevaluated(rest);
        assert(!is_evaluated()(trades[trades.len() - 1]));
        assert(rest.push(trades.last()) =~= trades);
    }
}

/// A market that comes back with the tokens that it had keeps its prices; one with new tokens
/// starts without any. The prices of other markets stay.
pub proof fn law_new_tokens_start_without_prices(
    state: StateView,
    slug: Seq<char>,
    info: ParsedMarketInfo,
    at: UtcInstant,
    other: Seq<char>,
)
    requires
        state.is_sound(),
        other != slug,
    ensures
        state.tracking(slug, info, at).prices[slug] == if state.tokens_change(slug, info) {
            MarketPrices::blank(at)
        } else {
            state.prices[slug]
        },
        state.tracking(slug, info, at).prices.contains_key(other) == state.prices.contains_key(
            other,
        ),
        state.tracking(slug, info, at).prices[other] == state.prices[other],
{
}

/// The tag of one side.
pub open spec fn side_tag(tags: MarketTagState, is_up: bool) -> TagState {
    if is_up {
        tags.up
    } else {
        tags.down
    }
}

/// What the strategy wants for one side.
pub open spec fn side_signal(signals: SignalsView, is_up: bool) -> SideView {
    if is_up {
        signals.up
    } else {
        signals.down
    }
}

/// A side is bought only where it was tagged and its ask has recovered, which takes the tag away.
/// It is tagged only where it was not, its ask is of this interval, above zero and below the
/// threshold, and its asset may still be traded. It is never both at once.
pub proof fn law_side_is_tagged_then_bought(
    state: StateView,
    slug: Seq<char>,
    ts: i64,
    now: UtcInstant,
    config: TradingConfig,
    is_up: bool,
)
    ensures
        ({
            let before = side_tag(state.tags_of(slug), is_up);
            let signal = side_signal(state.signals(slug, ts, config), is_up);
            let after = side_tag(state.monitored(slug, ts, now, config).tags_of(slug), is_up);
            &&& signal.execute ==> {
                &&& before.tagged
                &&& config.execute_threshold.lt(signal.price)
                &&& after == TagState::untagged()
            }
            &&& signal.tag ==> {
                &&& !before.tagged
                &&& signal.price.lt(config.tag_threshold)
                &&& Number::zero().lt(signal.price)
                &&& state.prices[slug].last_update.secs >= ts - 300
                &&& state.under_limit(asset_name(slug), config.max_asset_trades, ts)
                &&& after == TagState { tagged: true, tagged_at: Some(now) }
            }
            &&& !signal.tag || !signal.execute
            &&& !signal.tag && !signal.execute ==> after == before
        }),
{
}

/// Whether a change makes the trader forget all tags.
pub open spec fn forgets_tags(change: Change) -> bool {
    change is TagsReset || change is Refresh
}

/// Whether the change with number `k` tagged a side of a market, and the tags were not forgotten
/// since.
pub open spec fn tagged_by(changes: Seq<Change>, k: int, slug: Seq<char>, is_up: bool) -> bool {
    &&& 0 <= k < changes.len()
    &&& match changes[k] {
        Change::Monitor { slug: looked_at, ts, now, config } => {
            let state = StateView::initial().after_all(changes.take(k));
            &&& looked_at == slug
            &&& state.is_monitored(slug, ts, now, config)
            &&& side_signal(state.signals(slug, ts, config), is_up).tag
        },
        _ => false,
    }
    &&& forall|j: int|
        k < j < changes.len() ==> !forgets_tags(#[trigger] changes[j])
}

/// A side that is tagged was tagged earlier in the same interval, when its ask was below the
/// threshold. So a side is bought only after it was that cheap in the same interval.
pub proof fn law_tagged_side_was_cheap_before(changes: Seq<Change>, slug: Seq<char>, is_up: bool)
    requires
        side_tag(StateView::initial().after_all(changes).tags_of(slug), is_up).tagged,
    ensures
        exists|k: int| tagged_by(changes, k, slug, is_up),
    decreases changes.len(),
{
    if changes.len() > 0 {
        let earlier = changes.drop_last();
        let before = StateView::initial().after_all(earlier);
        let change = changes.last();
        assert(changes.take(changes.len() - 1) =~= earlier);
        if tags_here(before, change, slug, is_up) {
            assert(tagged_by(changes, changes.len() - 1, slug, is_up));
        } else {
            lemma_tag_stays(before, change, slug, is_up);
            law_tagged_side_was_cheap_before(earlier, slug, is_up);
            let k = choose|k: int| tagged_by(earlier, k, slug, is_up);
            assert(earlier.take(k) =~= changes.take(k));
            assert(changes[k] == earlier[k]);
            assert forall|j: int| k < j < changes.len() implies !forgets_tags(
                #[trigger] changes[j],
            ) by {
                if j < earlier.len() {
                    assert(changes[j] == earlier[j]);
                }
            }
            assert(tagged_by(changes, k, slug, is_up));
        }
    }
}

/// Whether a change tags a side of a market.
spec fn tags_here(state: StateView, change: Change, slug: Seq<char>, is_up: bool) -> bool {
    match change {
        Change::Monitor { slug: looked_at, ts, now, config } => {
            &&& looked_at == slug
            &&& state.is_monitored(slug, ts, now, config)
            &&& side_signal(state.signals(slug, ts, config), is_up).tag
        },
        _ => false,
    }
}

/// A side that is tagged after a change which did not tag it was tagged before.
proof fn lemma_tag_stays(state: StateView, change: Change, slug: Seq<char>, is_up: bool)
    requires
        side_tag(state.after(change).tags_of(slug), is_up).tagged,
        !tags_here(state, change, slug, is_up),
    ensures
        side_tag(state.tags_of(slug), is_up).tagged,
{
    match change {
        Change::Message { message, readings, mapping, at } => {
            lemma_message_keeps_trades(state, message, readings, mapping, at);
        },
        _ => {},
    }
}

/// The evaluation of an interval changes nothing but the results of the due trades of that
/// interval: all other trades stay as they are, those of other intervals among them.
pub proof fn law_evaluation_only_sets_results(state: StateView, interval_ts: i64)
    ensures
        state.evaluated(interval_ts) == state.with_trades(state.evaluated(interval_ts).trades),
        state.evaluated(interval_ts).trades.len() == state.trades.len(),
        forall|i: int|
            0 <= i < state.trades.len() ==> {
                let before = state.trades[i];
                let after = #[trigger] state.evaluated(interval_ts).trades[i];
                &&& after == TradeView { result: after.result, ..before }
                &&& !is_due(before, interval_ts) ==> after == before
            },
{
}

/// The evaluation of an interval leaves no due trade without a result: each one whose market has
/// prices gets the result that the last ask of its side gives.
pub proof fn law_evaluation_is_complete(state: StateView, interval_ts: i64, i: int)
    requires
        0 <= i < state.trades.len(),
        is_due(state.trades[i], interval_ts),
        state.prices.contains_key(state.trades[i].market_slug),
    ensures
        final_price(state.prices, state.trades[i]) matches Some(price) && state.evaluated(
            interval_ts,
        ).trades[i] == (TradeView { result: Some(result_at(price)), ..state.trades[i] }),
{
}

/// What was evaluated is not evaluated again: a second evaluation of an interval changes nothing
/// and tells nothing.
pub proof fn law_evaluation_is_done_once(state: StateView, interval_ts: i64)
    ensures
        state.evaluated(interval_ts).evaluated(interval_ts) == state.evaluated(interval_ts),
        state.evaluated(interval_ts).evaluation_notices(interval_ts).len() == 0,
{
    let once = state.evaluated(interval_ts);
    assert(once.evaluated(interval_ts).trades =~= once.trades);
    assert forall|i: int| 0 <= i < once.trades.len() implies !is_due(
        #[trigger] once.trades[i],
        interval_ts,
    ) || final_price(once.prices, once.trades[i]) is None by {
        assert(once.trades[i] == judged(state.trades[i], state.prices, interval_ts));
    }
    lemma_nothing_to_tell(once.trades, once.prices, interval_ts);
}

/// Where no due trade is of a market with prices, there are no results to tell.
proof fn lemma_nothing_to_tell(
    trades: Seq<TradeView>,
    prices: Map<Seq<char>, MarketPrices>,
    interval_ts: i64,
)
    requires
        forall|i: int|
            0 <= i < trades.len() ==> !is_due(#[trigger] trades[i], interval_ts) || final_price(
                prices,
                trades[i],
            ) is None,
    ensures
        result_notices(trades, prices, interval_ts).len() == 0,
    decreases trades.len(),
{
    if trades.len() > 0 {
        let rest = trades.drop_last();
        assert forall|i: int| 0 <= i < rest.len() implies !is_due(#[trigger] rest[i], interval_ts)
            || final_price(prices, rest[i]) is None by {
            assert(rest[i] == trades[i]);
        }
        lemma_nothing_to_tell(rest, prices, interval_ts);
        assert(trades[trades.len() - 1] == trades.last());
    }
}

/// At the start of a later interval each due trade of the interval that has ended, whose market
/// has prices, has its result.
pub proof fn law_rollover_evaluates_the_ended_interval(state: StateView, secs: int, i: int)
    requires
        state.next_interval > 0,
        0 <= i < state.trades.len(),
        is_due(state.trades[i], state.next_interval),
        state.prices.contains_key(state.trades[i].market_slug),
    ensures
        final_price(state.prices, state.trades[i]) matches Some(price) && state.refreshed(
            false,
            secs,
        ).trades[i] == (TradeView { result: Some(result_at(price)), ..state.trades[i] }),
{
    law_evaluation_is_complete(state, state.next_interval, i);
}

/// Where trades are simulated, or there is no account, no order is placed.
pub proof fn law_simulation_places_no_order(
    attempt: AttemptView,
    state: StateView,
    config: TradingConfig,
    has_client: bool,
    now: UtcInstant,
)
    requires
        !config.enabled || !has_client,
    ensures
        !attempt.begin(state, config, has_client, now).place_order,
{
}

impl StateView {
    /// Whether no token belongs to two sides of tracked markets.
    pub open spec fn has_distinct_tokens(self) -> bool {
        forall|a: Seq<char>, b: Seq<char>| #[trigger]
            self.markets.contains_key(a) && #[trigger] self.markets.contains_key(b) ==> {
                &&& self.markets[a].up_token_id@ != self.markets[b].down_token_id@
                &&& a != b ==> self.markets[a].up_token_id@ != self.markets[b].up_token_id@
                &&& a != b ==> self.markets[a].down_token_id@ != self.markets[b].down_token_id@
            }
    }

    /// The token of one side of a tracked market.
    pub open spec fn token_of(self, slug: Seq<char>, is_up: bool) -> Seq<char> {
        if is_up {
            self.markets[slug].up_token_id@
        } else {
            self.markets[slug].down_token_id@
        }
    }

    /// Which market each token belongs to.
    pub open spec fn all_tokens(self) -> Map<Seq<char>, Seq<char>> {
        self.token_map(self.market_order.len())
    }
}

/// Each mapped token is one of the market that it is mapped to.
proof fn lemma_mapped_tokens(state: StateView, n: nat, id: Seq<char>)
    requires
        state.is_sound(),
        n <= state.market_order.len(),
        state.token_map(n).contains_key(id),
    ensures
        ({
            let slug = state.token_map(n)[id];
            &&& state.markets.contains_key(slug)
            &&& id == state.token_of(slug, true) || id == state.token_of(slug, false)
        }),
    decreases n,
{
    if n > 0 {
        let slug = state.market_order[n - 1];
        assert(state.market_order.contains(slug));
        if id != state.token_of(slug, true) && id != state.token_of(slug, false) {
            lemma_mapped_tokens(state, (n - 1) as nat, id);
        }
    }
}

/// The tokens of the first markets are mapped.
proof fn lemma_tokens_are_mapped(state: StateView, n: nat, i: int)
    requires
        0 <= i < n <= state.market_order.len(),
    ensures
        state.token_map(n).contains_key(state.token_of(state.market_order[i], true)),
        state.token_map(n).contains_key(state.token_of(state.market_order[i], false)),
    decreases n,
{
    if i < n - 1 {
        lemma_tokens_are_mapped(state, (n - 1) as nat, i);
    }
}

/// The tokens of each tracked market are mapped, and each mapped token is one of the tracked
/// market that it is mapped to.
pub proof fn law_mapping_follows_the_markets(state: StateView, slug: Seq<char>, id: Seq<char>)
    requires
        state.is_sound(),
    ensures
        state.markets.contains_key(slug) ==> {
            &&& state.all_tokens().contains_key(state.token_of(slug, true))
            &&& state.all_tokens().contains_key(state.token_of(slug, false))
        },
        state.all_tokens().contains_key(id) ==> {
            let owner = state.all_tokens()[id];
            &&& state.markets.contains_key(owner)
            &&& id == state.token_of(owner, true) || id == state.token_of(owner, false)
        },
{
    let n = state.market_order.len();
    if state.markets.contains_key(slug) {
        assert(state.market_order.contains(slug));
        let i = choose|i: int| 0 <= i < n && state.market_order[i] == slug;
        lemma_tokens_are_mapped(state, n, i);
    }
    if state.all_tokens().contains_key(id) {
        lemma_mapped_tokens(state, n, id);
    }
}

/// New prices of a token become those of the side and the market that it stands for, where no
/// token stands for two.
pub proof fn law_token_prices_its_side(
    state: StateView,
    slug: Seq<char>,
    is_up: bool,
    ask: Option<Number>,
    bid: Option<Number>,
    at: UtcInstant,
)
    requires
        state.is_sound(),
        state.has_distinct_tokens(),
        state.markets.contains_key(slug),
    ensures
        state.quoted(state.all_tokens(), state.token_of(slug, is_up), ask, bid, at)
            == state.priced(slug, is_up, ask, bid, at),
{
    let id = state.token_of(slug, is_up);
    law_mapping_follows_the_markets(state, slug, id);
    let owner = state.all_tokens()[id];
    assert(state.markets.contains_key(owner));
    assert(owner == slug);
}

/// New prices of a token that belongs to no tracked market change nothing.
pub proof fn law_unknown_token_changes_nothing(
    state: StateView,
    id: Seq<char>,
    ask: Option<Number>,
    bid: Option<Number>,
    at: UtcInstant,
)
    requires
        state.is_sound(),
        forall|slug: Seq<char>| #[trigger]
            state.markets.contains_key(slug) ==> id != state.token_of(slug, true) && id
                != state.token_of(slug, false),
    ensures
        state.quoted(state.all_tokens(), id, ask, bid, at) == state,
{
    law_mapping_follows_the_markets(state, id, id);
}

/// The tokens of the first markets are subscribed to.
proof fn lemma_tokens_are_subscribed(state: StateView, n: nat, i: int)
    requires
        0 <= i < n <= state.market_order.len(),
    ensures
        state.token_ids(n).len() == 2 * n,
        state.token_ids(n)[2 * i] == state.token_of(state.market_order[i], true),
        state.token_ids(n)[2 * i + 1] == state.token_of(state.market_order[i], false),
    decreases n,
{
    if i < n - 1 {
        lemma_tokens_are_subscribed(state, (n - 1) as nat, i);
    } else if n > 1 {
        lemma_tokens_are_subscribed(state, (n - 1) as nat, 0);
    } else {
        assert(state.token_ids(0).len() == 0);
    }
}

/// The price feed is asked for both tokens of each tracked market, market by market, and for
/// nothing else.
pub proof fn law_subscription_covers_the_markets(state: StateView)
    ensures
        state.token_ids(state.market_order.len()).len() == 2 * state.market_order.len(),
        forall|i: int|
            0 <= i < state.market_order.len() ==> {
                &&& state.token_ids(state.market_order.len())[2 * i] == state.token_of(
                    #[trigger] state.market_order[i],
                    true,
                )
                &&& state.token_ids(state.market_order.len())[2 * i + 1] == state.token_of(
                    state.market_order[i],
                    false,
                )
            },
{
    let n = state.market_order.len();
    if n == 0 {
        assert(state.token_ids(0).len() == 0);
    } else {
        lemma_tokens_are_subscribed(state, n, 0);
    }
    assert forall|i: int| 0 <= i < n implies {
        &&& state.token_ids(n)[2 * i] == state.token_of(#[trigger] state.market_order[i], true)
        &&& state.token_ids(n)[2 * i + 1] == state.token_of(state.market_order[i], false)
    } by {
        lemma_tokens_are_subscribed(state, n, i);
    }
}

} // verus!
