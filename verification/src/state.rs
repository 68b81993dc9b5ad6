//! The state of the trader: markets, prices, tags, trades and messages.
use std::collections::VecDeque;
use vstd::prelude::*;
use vstd::string::*;

use crate::clock::time_of_day_text;
use crate::clock::utc_now;
use crate::clock::UtcInstant;
use crate::gamma_api::ParsedMarketInfo;
use crate::number::Number;
use crate::search::change_first;
use crate::search::first_where;
use crate::search::last_where;
use crate::search::lemma_first_where;
use crate::search::lemma_last_where;
use crate::search::lemma_last_where_holds;
use crate::text::is_text;
use crate::text::same_text;
use crate::text_map::TextMap;

verus! {

/// How many prices of a market are remembered.
pub const MAX_PRICE_HISTORY: usize = 1000;

/// How many trades are kept; 0 for all of them.
pub const MAX_TRADES: usize = 0;

/// How many status messages are kept.
pub const MAX_STATUS_MESSAGES: usize = 50;

/// How often an asset was traded in the current window.
#[derive(Clone, Copy, PartialEq, Eq, Structural, Debug)]
pub struct AssetTradeWindow {
    pub trade_count: u32,
    pub window_start: i64,
}

impl AssetTradeWindow {
    /// A window without trades.
    pub fn new(window_start: i64) -> (r: AssetTradeWindow)
        ensures
            r == (AssetTradeWindow { trade_count: 0, window_start }),
    {
        AssetTradeWindow { trade_count: 0, window_start }
    }
}

/// New prices of one side of a market.
#[derive(Clone, Debug)]
pub struct PriceUpdate {
    pub market_slug: String,
    pub is_up: bool,
    pub best_ask: Option<Number>,
    pub best_bid: Option<Number>,
    pub timestamp: UtcInstant,
}

/// The latest prices of a market.
#[derive(Clone, Copy, PartialEq, Eq, Structural, Debug)]
pub struct MarketPrices {
    pub up_best_ask: Option<Number>,
    pub up_best_bid: Option<Number>,
    pub down_best_ask: Option<Number>,
    pub down_best_bid: Option<Number>,
    pub last_update: UtcInstant,
}

impl MarketPrices {
    /// No prices yet, as of `at`.
    pub open spec fn blank(at: UtcInstant) -> MarketPrices {
        MarketPrices {
            up_best_ask: None,
            up_best_bid: None,
            down_best_ask: None,
            down_best_bid: None,
            last_update: at,
        }
    }

    /// No prices yet, as of `at`.
    pub fn blank_at(at: UtcInstant) -> (r: MarketPrices)
        ensures
            r == MarketPrices::blank(at),
    {
        MarketPrices {
            up_best_ask: None,
            up_best_bid: None,
            down_best_ask: None,
            down_best_bid: None,
            last_update: at,
        }
    }
}

impl Default for MarketPrices {
    /// No prices yet, as of now.
    fn default() -> (r: Self)
        ensures
            r == MarketPrices::blank(r.last_update),
            r.last_update.valid(),
    {
        MarketPrices::blank_at(utc_now())
    }
}

/// The asks of a market at one time.
#[derive(Clone, Copy, PartialEq, Eq, Structural, Debug)]
pub struct PriceHistoryEntry {
    pub up_best_ask: Option<Number>,
    pub down_best_ask: Option<Number>,
    pub timestamp: UtcInstant,
}

/// A trade, from its placing to its evaluation.
#[derive(Clone, Debug)]
pub struct TradeRecord {
    pub timestamp: UtcInstant,
    pub market_slug: String,
    pub asset: String,
    /// `UP` or `DOWN`.
    pub side: String,
    pub amount: Number,
    pub price: Number,
    pub status: TradeStatus,
    pub order_id: Option<String>,
    pub interval_ts: i64,
    /// `WIN`, `LOSS`, or nothing as long as the trade was not evaluated.
    pub result: Option<String>,
}

/// How far a trade has come.
#[derive(Clone, Copy, PartialEq, Eq, Structural, Debug)]
pub enum TradeStatus {
    Pending,
    Success,
    Failed,
}

/// A successful trade that was evaluated.
#[derive(Clone, Copy, PartialEq, Eq, Structural, Debug)]
pub struct SettledTrade {
    pub amount: Number,
    pub price: Number,
    pub won: bool,
}

/// The record of the trader. Its rate of wins and its profit follow from the settled trades.
#[derive(Clone, Debug)]
pub struct TradingStats {
    pub trade_count: u32,
    pub win_count: u32,
    pub loss_count: u32,
    /// The evaluated trades, newest first.
    pub settled: Vec<SettledTrade>,
}

impl Default for TradingStats {
    /// Nothing traded.
    fn default() -> (r: Self)
        ensures
            r.trade_count == 0,
            r.win_count == 0,
            r.loss_count == 0,
            r.settled@.len() == 0,
    {
        TradingStats { trade_count: 0, win_count: 0, loss_count: 0, settled: Vec::new() }
    }
}

/// Whether a side was tagged, and when.
#[derive(Clone, Copy, PartialEq, Eq, Structural, Debug)]
pub struct TagState {
    pub tagged: bool,
    pub tagged_at: Option<UtcInstant>,
}

impl TagState {
    /// Not tagged.
    pub open spec fn untagged() -> TagState {
        TagState { tagged: false, tagged_at: None }
    }
}

impl Default for TagState {
    /// Not tagged.
    fn default() -> (r: Self)
        ensures
            r == TagState::untagged(),
    {
        TagState { tagged: false, tagged_at: None }
    }
}

/// The tags of both sides of a market.
#[derive(Clone, Copy, PartialEq, Eq, Structural, Debug)]
pub struct MarketTagState {
    pub up: TagState,
    pub down: TagState,
}

impl MarketTagState {
    /// Neither side tagged.
    pub open spec fn untagged() -> MarketTagState {
        MarketTagState { up: TagState::untagged(), down: TagState::untagged() }
    }
}

impl Default for MarketTagState {
    /// Neither side tagged.
    fn default() -> (r: Self)
        ensures
            r == MarketTagState::untagged(),
    {
        MarketTagState { up: TagState::default(), down: TagState::default() }
    }
}

/// Everything that the parts of the trader share.
pub struct AppState {
    /// The tracked markets.
    pub tracked_markets: TextMap<ParsedMarketInfo>,
    /// The latest prices of each market.
    pub current_prices: TextMap<MarketPrices>,
    /// The past prices of each market, oldest first.
    pub price_history: TextMap<VecDeque<PriceHistoryEntry>>,
    /// The trades, newest first.
    pub trades: VecDeque<TradeRecord>,
    /// The status messages, newest first.
    pub status_messages: VecDeque<String>,
    /// Whether the price feed is connected.
    pub ws_connected: bool,
    /// When the current interval ends; 0 as long as that is unknown.
    pub next_interval: i64,
    /// Whether the price feed is to be connected anew.
    pub ws_reconnect_needed: bool,
    /// The tags of each market.
    pub tag_states: TextMap<MarketTagState>,
    /// Whether trades are placed.
    pub trading_enabled: bool,
    /// How often each asset was traded.
    pub asset_trade_windows: TextMap<AssetTradeWindow>,
}

/// A trade, with its texts as sequences of characters.
#[verifier::ext_equal]
pub struct TradeView {
    pub timestamp: UtcInstant,
    pub market_slug: Seq<char>,
    pub asset: Seq<char>,
    pub side: Seq<char>,
    pub amount: Number,
    pub price: Number,
    pub status: TradeStatus,
    pub order_id: Option<Seq<char>>,
    pub interval_ts: i64,
    pub result: Option<Seq<char>>,
}

/// An optional text as an optional sequence of characters.
pub open spec fn text_view(text: Option<String>) -> Option<Seq<char>> {
    match text {
        Some(s) => Some(s@),
        None => None,
    }
}

impl View for TradeRecord {
    type V = TradeView;

    open spec fn view(&self) -> TradeView {
        TradeView {
            timestamp: self.timestamp,
            market_slug: self.market_slug@,
            asset: self.asset@,
            side: self.side@,
            amount: self.amount,
            price: self.price,
            status: self.status,
            order_id: text_view(self.order_id),
            interval_ts: self.interval_ts,
            result: text_view(self.result),
        }
    }
}

/// The views of trades.
pub open spec fn trade_views(trades: Seq<TradeRecord>) -> Seq<TradeView> {
    Seq::new(trades.len(), |i: int| trades[i]@)
}

/// The views of texts.
pub open spec fn text_views(texts: Seq<String>) -> Seq<Seq<char>> {
    Seq::new(texts.len(), |i: int| texts[i]@)
}

/// The views of the price histories.
pub open spec fn history_views(
    histories: Map<Seq<char>, VecDeque<PriceHistoryEntry>>,
) -> Map<Seq<char>, Seq<PriceHistoryEntry>> {
    histories.map_values(|entries: VecDeque<PriceHistoryEntry>| entries@)
}

/// The state as maps and sequences.
#[verifier::ext_equal]
pub struct StateView {
    pub markets: Map<Seq<char>, ParsedMarketInfo>,
    /// The slugs of the tracked markets, in the order in which they first came.
    pub market_order: Seq<Seq<char>>,
    pub prices: Map<Seq<char>, MarketPrices>,
    pub history: Map<Seq<char>, Seq<PriceHistoryEntry>>,
    pub trades: Seq<TradeView>,
    pub statuses: Seq<Seq<char>>,
    pub ws_connected: bool,
    pub next_interval: i64,
    pub reconnect: bool,
    pub tags: Map<Seq<char>, MarketTagState>,
    pub trading_enabled: bool,
    pub windows: Map<Seq<char>, AssetTradeWindow>,
}

impl View for AppState {
    type V = StateView;

    open spec fn view(&self) -> StateView {
        StateView {
            markets: self.tracked_markets@,
            market_order: self.tracked_markets.order(),
            prices: self.current_prices@,
            history: history_views(self.price_history@),
            trades: trade_views(self.trades@),
            statuses: text_views(self.status_messages@),
            ws_connected: self.ws_connected,
            next_interval: self.next_interval,
            reconnect: self.ws_reconnect_needed,
            tags: self.tag_states@,
            trading_enabled: self.trading_enabled,
            windows: self.asset_trade_windows@,
        }
    }
}

/// The newest entries of a price history, as many as are remembered.
pub open spec fn remembered(entries: Seq<PriceHistoryEntry>) -> Seq<PriceHistoryEntry> {
    if entries.len() > MAX_PRICE_HISTORY {
        entries.skip(entries.len() - MAX_PRICE_HISTORY)
    } else {
        entries
    }
}

/// `new` where there is one, else `old`.
pub open spec fn newer(new: Option<Number>, old: Option<Number>) -> Option<Number> {
    if new is Some {
        new
    } else {
        old
    }
}

/// `before` with what an update brings: a price that it lacks stays as it was.
pub open spec fn prices_after(
    before: MarketPrices,
    is_up: bool,
    ask: Option<Number>,
    bid: Option<Number>,
    at: UtcInstant,
) -> MarketPrices {
    if is_up {
        MarketPrices {
            up_best_ask: newer(ask, before.up_best_ask),
            up_best_bid: newer(bid, before.up_best_bid),
            last_update: at,
            ..before
        }
    } else {
        MarketPrices {
            down_best_ask: newer(ask, before.down_best_ask),
            down_best_bid: newer(bid, before.down_best_bid),
            last_update: at,
            ..before
        }
    }
}

/// A status message behind the time of day at which it came.
pub open spec fn stamped(at: UtcInstant, message: Seq<char>) -> Seq<char> {
    "["@ + time_of_day_text(at.secs as int) + "] "@ + message
}

/// At most the first [`MAX_STATUS_MESSAGES`] of `messages`.
pub open spec fn latest_messages(messages: Seq<Seq<char>>) -> Seq<Seq<char>> {
    if messages.len() > MAX_STATUS_MESSAGES {
        messages.take(MAX_STATUS_MESSAGES as int)
    } else {
        messages
    }
}

/// Of being the trade with order `id`.
pub open spec fn has_order(id: Seq<char>) -> spec_fn(TradeView) -> bool {
    |t: TradeView| t.order_id == Some(id)
}

/// Of being a trade of this market, asset and side with the status `status`.
pub open spec fn is_trade(
    slug: Seq<char>,
    asset: Seq<char>,
    side: Seq<char>,
    status: TradeStatus,
) -> spec_fn(TradeView) -> bool {
    |t: TradeView| t.market_slug == slug && t.asset == asset && t.side == side && t.status == status
}

/// Of being a pending trade of this market, asset and side without an order.
pub open spec fn is_unordered(
    slug: Seq<char>,
    asset: Seq<char>,
    side: Seq<char>,
) -> spec_fn(TradeView) -> bool {
    |t: TradeView|
        is_trade(slug, asset, side, TradeStatus::Pending)(t) && t.order_id is None
}

/// Of being a successful trade of this market, asset and side without a result.
pub open spec fn is_unsettled(
    slug: Seq<char>,
    asset: Seq<char>,
    side: Seq<char>,
) -> spec_fn(TradeView) -> bool {
    |t: TradeView| is_trade(slug, asset, side, TradeStatus::Success)(t) && t.result is None
}

/// The change that gives a trade a status.
pub open spec fn with_status(status: TradeStatus) -> spec_fn(TradeView) -> TradeView {
    |t: TradeView| TradeView { status, ..t }
}

/// The change that gives a trade an order.
pub open spec fn with_order(id: Seq<char>) -> spec_fn(TradeView) -> TradeView {
    |t: TradeView| TradeView { order_id: Some(id), ..t }
}

/// The change that gives a trade a price.
pub open spec fn with_price(price: Number) -> spec_fn(TradeView) -> TradeView {
    |t: TradeView| TradeView { price, ..t }
}

/// The change that gives a trade a result.
pub open spec fn with_result(result: Seq<char>) -> spec_fn(TradeView) -> TradeView {
    |t: TradeView| TradeView { result: Some(result), ..t }
}

/// Of being an evaluated trade.
pub open spec fn is_evaluated() -> spec_fn(TradeView) -> bool {
    |t: TradeView| t.result is Some
}

/// `trades` without the oldest evaluated ones, as many as are above `limit`. Trades that were
/// not evaluated stay, and a limit of 0 keeps everything.
pub open spec fn trimmed(trades: Seq<TradeView>, limit: nat) -> Seq<TradeView>
    decreases trades.len(),
{
    let i = last_where(trades, is_evaluated());
    if limit == 0 || trades.len() <= limit || i < 0 {
        trades
    } else {
        proof {
            lemma_last_where_holds(trades, is_evaluated());
        }
        trimmed(trades.remove(i), limit)
    }
}

/// Whether a trade succeeded and won, or succeeded and lost; nothing where it did not succeed
/// or was not evaluated.
pub open spec fn outcome(t: TradeView) -> Option<bool> {
    if t.status != TradeStatus::Success {
        None
    } else if t.result == Some("WIN"@) {
        Some(true)
    } else if t.result == Some("LOSS"@) {
        Some(false)
    } else {
        None
    }
}

/// How many trades succeeded.
pub open spec fn success_count(trades: Seq<TradeView>) -> nat
    decreases trades.len(),
{
    if trades.len() == 0 {
        0
    } else {
        success_count(trades.drop_last()) + if trades.last().status == TradeStatus::Success {
            1nat
        } else {
            0nat
        }
    }
}

/// The trades that succeeded and were evaluated, in their order.
pub open spec fn settled_trades(trades: Seq<TradeView>) -> Seq<SettledTrade>
    decreases trades.len(),
{
    if trades.len() == 0 {
        Seq::empty()
    } else {
        let rest = settled_trades(trades.drop_last());
        let t = trades.last();
        match outcome(t) {
            Some(won) => rest.push(SettledTrade { amount: t.amount, price: t.price, won }),
            None => rest,
        }
    }
}

/// How many of `settled` ended as `won` says.
pub open spec fn count_won(settled: Seq<SettledTrade>, won: bool) -> nat
    decreases settled.len(),
{
    if settled.len() == 0 {
        0
    } else {
        count_won(settled.drop_last(), won) + if settled.last().won == won {
            1nat
        } else {
            0nat
        }
    }
}

impl StateView {
    /// The state at the start.
    pub open spec fn initial() -> StateView {
        StateView {
            markets: Map::empty(),
            market_order: Seq::empty(),
            prices: Map::empty(),
            history: Map::empty(),
            trades: Seq::empty(),
            statuses: Seq::empty(),
            ws_connected: false,
            next_interval: 0,
            reconnect: false,
            tags: Map::empty(),
            trading_enabled: false,
            windows: Map::empty(),
        }
    }

    /// The past prices of a market.
    pub open spec fn history_of(self, slug: Seq<char>) -> Seq<PriceHistoryEntry> {
        if self.history.contains_key(slug) {
            self.history[slug]
        } else {
            Seq::empty()
        }
    }

    /// The prices of a market, blank where there are none.
    pub open spec fn prices_of(self, slug: Seq<char>, at: UtcInstant) -> MarketPrices {
        if self.prices.contains_key(slug) {
            self.prices[slug]
        } else {
            MarketPrices::blank(at)
        }
    }

    /// After new prices: they are the market's latest, and its asks are remembered.
    pub open spec fn priced(
        self,
        slug: Seq<char>,
        is_up: bool,
        ask: Option<Number>,
        bid: Option<Number>,
        at: UtcInstant,
    ) -> StateView {
        let prices = prices_after(self.prices_of(slug, at), is_up, ask, bid, at);
        let entry = PriceHistoryEntry {
            up_best_ask: prices.up_best_ask,
            down_best_ask: prices.down_best_ask,
            timestamp: at,
        };
        StateView {
            prices: self.prices.insert(slug, prices),
            history: self.history.insert(slug, remembered(self.history_of(slug).push(entry))),
            ..self
        }
    }

    /// After a new trade, which is the first.
    pub open spec fn traded(self, trade: TradeView) -> StateView {
        StateView { trades: trimmed(seq![trade] + self.trades, MAX_TRADES as nat), ..self }
    }

    /// With other trades.
    pub open spec fn with_trades(self, trades: Seq<TradeView>) -> StateView {
        StateView { trades, ..self }
    }

    /// With another status of the newest trade with an order.
    pub open spec fn with_order_status(self, id: Seq<char>, status: TradeStatus) -> StateView {
        self.with_trades(change_first(self.trades, has_order(id), with_status(status)))
    }

    /// With the newest pending trade of a market, asset and side failed.
    pub open spec fn with_trade_failed(
        self,
        slug: Seq<char>,
        asset: Seq<char>,
        side: Seq<char>,
    ) -> StateView {
        self.with_trades(
            change_first(
                self.trades,
                is_trade(slug, asset, side, TradeStatus::Pending),
                with_status(TradeStatus::Failed),
            ),
        )
    }

    /// With the order of the newest pending trade of a market, asset and side without one.
    pub open spec fn with_trade_order(
        self,
        slug: Seq<char>,
        asset: Seq<char>,
        side: Seq<char>,
        id: Seq<char>,
    ) -> StateView {
        self.with_trades(
            change_first(self.trades, is_unordered(slug, asset, side), with_order(id)),
        )
    }

    /// With another price of the newest pending trade of a market, asset and side.
    pub open spec fn with_trade_price(
        self,
        slug: Seq<char>,
        asset: Seq<char>,
        side: Seq<char>,
        price: Number,
    ) -> StateView {
        self.with_trades(
            change_first(
                self.trades,
                is_trade(slug, asset, side, TradeStatus::Pending),
                with_price(price),
            ),
        )
    }

    /// With the result of the newest successful trade of a market, asset and side without one.
    pub open spec fn with_trade_result(
        self,
        slug: Seq<char>,
        asset: Seq<char>,
        side: Seq<char>,
        result: Seq<char>,
    ) -> StateView {
        self.with_trades(
            change_first(self.trades, is_unsettled(slug, asset, side), with_result(result)),
        )
    }

    /// After a status message, which is the first.
    pub open spec fn told(self, at: UtcInstant, message: Seq<char>) -> StateView {
        StateView {
            statuses: latest_messages(seq![stamped(at, message)] + self.statuses),
            ..self
        }
    }

    /// Whether `info` brings other tokens than are tracked under `slug`, or a new market.
    pub open spec fn tokens_change(self, slug: Seq<char>, info: ParsedMarketInfo) -> bool {
        !self.markets.contains_key(slug) || self.markets[slug].up_token_id@ != info.up_token_id@
            || self.markets[slug].down_token_id@ != info.down_token_id@
    }

    /// After a market came: it is tracked, and where its tokens are new its prices are blank.
    pub open spec fn tracking(
        self,
        slug: Seq<char>,
        info: ParsedMarketInfo,
        at: UtcInstant,
    ) -> StateView {
        StateView {
            markets: self.markets.insert(slug, info),
            market_order: if self.markets.contains_key(slug) {
                self.market_order
            } else {
                self.market_order.push(slug)
            },
            prices: if self.tokens_change(slug, info) {
                self.prices.insert(slug, MarketPrices::blank(at))
            } else {
                self.prices
            },
            ..self
        }
    }

    /// The trades of an asset in the window `window_start`: none where its window is another.
    pub open spec fn window_of(self, asset: Seq<char>, window_start: i64) -> AssetTradeWindow {
        if self.windows.contains_key(asset) && self.windows[asset].window_start == window_start {
            self.windows[asset]
        } else {
            AssetTradeWindow { trade_count: 0, window_start }
        }
    }

    /// With another window of an asset.
    pub open spec fn with_window(self, asset: Seq<char>, window: AssetTradeWindow) -> StateView {
        StateView { windows: self.windows.insert(asset, window), ..self }
    }

    /// Whether an asset is under its limit in a window.
    pub open spec fn under_limit(self, asset: Seq<char>, max: u32, window_start: i64) -> bool {
        self.window_of(asset, window_start).trade_count < max
    }

    /// With the window of an asset brought to `window_start`.
    pub open spec fn rolled(self, asset: Seq<char>, window_start: i64) -> StateView {
        self.with_window(asset, self.window_of(asset, window_start))
    }

    /// With one trade more of an asset in a window.
    pub open spec fn counted(self, asset: Seq<char>, window_start: i64) -> StateView {
        let window = self.window_of(asset, window_start);
        self.with_window(
            asset,
            AssetTradeWindow { trade_count: (window.trade_count + 1) as u32, window_start },
        )
    }

    /// After an attempt to trade an asset: it is counted where the asset was under its limit.
    pub open spec fn attempted(self, asset: Seq<char>, max: u32, window_start: i64) -> StateView {
        if self.under_limit(asset, max, window_start) {
            self.counted(asset, window_start)
        } else {
            self.rolled(asset, window_start)
        }
    }

    /// The token ids of the first `n` tracked markets: of each the one for up, then the one for
    /// down.
    pub open spec fn token_ids(self, n: nat) -> Seq<Seq<char>>
        decreases n,
    {
        if n == 0 {
            Seq::empty()
        } else {
            let info = self.markets[self.market_order[n - 1]];
            self.token_ids((n - 1) as nat).push(info.up_token_id@).push(info.down_token_id@)
        }
    }
}

/// The views of trades follow a change of one trade.
proof fn lemma_trade_views_update(trades: Seq<TradeRecord>, i: int, t: TradeRecord)
    requires
        0 <= i < trades.len(),
    ensures
        trade_views(trades.remove(i).insert(i, t)) == trade_views(trades).update(i, t@),
{
    assert(trades.remove(i).insert(i, t) == trades.update(i, t));
    assert(trade_views(trades.update(i, t)) == trade_views(trades).update(i, t@));
}

impl AppState {
    /// The state at the start.
    pub fn new() -> (r: AppState)
        ensures
            r@ == StateView::initial(),
    {
        let r = AppState {
            tracked_markets: TextMap::new(),
            current_prices: TextMap::new(),
            price_history: TextMap::new(),
            trades: VecDeque::new(),
            status_messages: VecDeque::new(),
            ws_connected: false,
            next_interval: 0,
            ws_reconnect_needed: false,
            tag_states: TextMap::new(),
            trading_enabled: false,
            asset_trade_windows: TextMap::new(),
        };
        assert(r@ =~= StateView::initial());
        r
    }

    /// Takes new prices of one side of a market.
    pub fn update_price(&mut self, update: PriceUpdate)
        ensures
            final(self)@ == old(self)@.priced(
                update.market_slug@,
                update.is_up,
                update.best_ask,
                update.best_bid,
                update.timestamp,
            ),
    {
        let ghost before = self@;
        let slug = update.market_slug;
        let mut entry = match self.current_prices.get(slug.as_str()) {
            Some(prices) => *prices,
            None => MarketPrices::blank_at(update.timestamp),
        };
        if update.is_up {
            if update.best_ask.is_some() {
                entry.up_best_ask = update.best_ask;
            }
            if update.best_bid.is_some() {
                entry.up_best_bid = update.best_bid;
            }
        } else {
            if update.best_ask.is_some() {
                entry.down_best_ask = update.best_ask;
            }
            if update.best_bid.is_some() {
                entry.down_best_bid = update.best_bid;
            }
        }
        entry.last_update = update.timestamp;
        let history_entry = PriceHistoryEntry {
            up_best_ask: entry.up_best_ask,
            down_best_ask: entry.down_best_ask,
            timestamp: update.timestamp,
        };
        self.current_prices.insert(slug.clone(), entry);
        let ghost histories = self.price_history@;
        let mut market_history = match self.price_history.remove(slug.as_str()) {
            Some(entries) => entries,
            None => VecDeque::new(),
        };
        market_history.push_back(history_entry);
        let ghost all = market_history@;
        while market_history.len() > MAX_PRICE_HISTORY
            invariant
                market_history@.len() <= all.len(),
                market_history@ == all.skip(all.len() - market_history@.len()),
                market_history@.len() >= all.len() || market_history@.len() >= MAX_PRICE_HISTORY,
            decreases market_history@.len(),
        {
            let _ = market_history.pop_front();
        }
        assert(market_history@ == remembered(all));
        self.price_history.insert(slug, market_history);
        proof {
            assert(all == before.history_of(slug@).push(history_entry));
            assert(history_views(self.price_history@) =~= before.history.insert(
                slug@,
                remembered(all),
            ));
            assert(self@ =~= before.priced(
                update.market_slug@,
                update.is_up,
                update.best_ask,
                update.best_bid,
                update.timestamp,
            ));
        }
    }

    /// Takes a new trade.
    pub fn add_trade(&mut self, trade: TradeRecord)
        ensures
            final(self)@ == old(self)@.traded(trade@),
            final(self)@.trades == seq![trade@] + old(self)@.trades,
    {
        let ghost before = self@;
        self.trades.push_front(trade);
        assert(self@ =~= before.with_trades(seq![trade@] + before.trades));
        self.trim_trades(MAX_TRADES);
    }

    /// Drops the oldest evaluated trades above a limit, as [`trimmed`] says.
    pub fn trim_trades(&mut self, limit: usize)
        ensures
            final(self)@ == old(self)@.with_trades(trimmed(old(self)@.trades, limit as nat)),
    {
        let ghost before = self@;
        if limit > 0 {
            while self.trades.len() > limit
                invariant_except_break
                    limit > 0,
                    self@ == before.with_trades(self@.trades),
                    trimmed(self@.trades, limit as nat) == trimmed(before.trades, limit as nat),
                ensures
                    self@ == before.with_trades(trimmed(before.trades, limit as nat)),
                decreases self.trades@.len(),
            {
                let ghost now = self@.trades;
                match self.last_evaluated() {
                    Some(i) => {
                        let _ = self.trades.remove(i);
                        assert(self@.trades =~= now.remove(i as int));
                    },
                    None => {
                        break ;
                    },
                }
            }
        }
        assert(self@ =~= before.with_trades(trimmed(before.trades, limit as nat)));
    }

    /// The slot of the oldest evaluated trade.
    fn last_evaluated(&self) -> (r: Option<usize>)
        ensures
            match r {
                Some(i) => i < self.trades@.len() && last_where(self@.trades, is_evaluated()) == i,
                None => last_where(self@.trades, is_evaluated()) == -1,
            },
    {
        let mut i: usize = self.trades.len();
        while i > 0
            invariant
                i <= self.trades@.len(),
                forall|j: int|
                    i <= j < self.trades@.len() ==> !is_evaluated()(#[trigger] self@.trades[j]),
            decreases i,
        {
            i = i - 1;
            if self.trades[i].result.is_some() {
                proof {
                    lemma_last_where(self@.trades, is_evaluated(), i as int);
                }
                return Some(i);
            }
        }
        proof {
            lemma_last_where(self@.trades, is_evaluated(), -1);
        }
        None
    }

    /// Puts `trade` in the place of the trade in slot `i`.
    fn replace_trade(&mut self, i: usize, trade: TradeRecord)
        requires
            i < old(self).trades@.len(),
        ensures
            final(self)@ == old(self)@.with_trades(
                old(self)@.trades.update(i as int, trade@),
            ),
    {
        let ghost before = *self;
        let _ = self.trades.remove(i);
        self.trades.insert(i, trade);
        proof {
            lemma_trade_views_update(before.trades@, i as int, trade);
            assert(self@ =~= before@.with_trades(before@.trades.update(i as int, trade@)));
        }
    }

    /// A copy of the trade in slot `i`.
    fn copy_trade(&self, i: usize) -> (r: TradeRecord)
        requires
            i < self.trades@.len(),
        ensures
            r == self.trades@[i as int],
    {
        let t = &self.trades[i];
        TradeRecord {
            timestamp: t.timestamp,
            market_slug: t.market_slug.clone(),
            asset: t.asset.clone(),
            side: t.side.clone(),
            amount: t.amount,
            price: t.price,
            status: t.status,
            order_id: t.order_id.clone(),
            interval_ts: t.interval_ts,
            result: t.result.clone(),
        }
    }

    /// The slot of the newest pending trade of a market, asset and side.
    fn newest_pending(&self, market_slug: &str, asset: &str, side: &str) -> (r: Option<usize>)
        ensures
            match r {
                Some(i) => i < self.trades@.len() && first_where(
                    self@.trades,
                    is_trade(market_slug@, asset@, side@, TradeStatus::Pending),
                ) == i,
                None => first_where(
                    self@.trades,
                    is_trade(market_slug@, asset@, side@, TradeStatus::Pending),
                ) == self@.trades.len(),
            },
    {
        let ghost wanted = is_trade(market_slug@, asset@, side@, TradeStatus::Pending);
        let mut i: usize = 0;
        while i < self.trades.len()
            invariant
                i <= self.trades@.len(),
                wanted == is_trade(market_slug@, asset@, side@, TradeStatus::Pending),
                forall|j: int| 0 <= j < i ==> !wanted(#[trigger] self@.trades[j]),
            decreases self.trades@.len() - i,
        {
            if matches_key(&self.trades[i], market_slug, asset, side) && self.trades[i].status
                == TradeStatus::Pending {
                proof {
                    lemma_first_where(self@.trades, wanted, i as int);
                }
                return Some(i);
            }
            i = i + 1;
        }
        proof {
            lemma_first_where(self@.trades, wanted, i as int);
        }
        None
    }

    /// Gives the newest trade with the order `order_id` another status.
    pub fn update_trade_status(&mut self, order_id: &str, status: TradeStatus)
        ensures
            final(self)@ == old(self)@.with_order_status(order_id@, status),
    {
        let ghost wanted = has_order(order_id@);
        let mut i: usize = 0;
        while i < self.trades.len()
            invariant
                *self == *old(self),
                i <= self.trades@.len(),
                wanted == has_order(order_id@),
                forall|j: int| 0 <= j < i ==> !wanted(#[trigger] self@.trades[j]),
            decreases self.trades@.len() - i,
        {
            if is_text(&self.trades[i].order_id, order_id) {
                proof {
                    lemma_first_where(self@.trades, wanted, i as int);
                }
                let mut trade = self.copy_trade(i);
                trade.status = status;
                self.replace_trade(i, trade);
                return ;
            }
            i = i + 1;
        }
        proof {
            lemma_first_where(self@.trades, wanted, i as int);
        }
    }

    /// Marks the newest pending trade of a market, asset and side as failed.
    pub fn set_latest_trade_failed(&mut self, market_slug: &str, asset: &str, side: &str)
        ensures
            final(self)@ == old(self)@.with_trade_failed(market_slug@, asset@, side@),
    {
        if let Some(i) = self.newest_pending(market_slug, asset, side) {
            let mut trade = self.copy_trade(i);
            trade.status = TradeStatus::Failed;
            self.replace_trade(i, trade);
        }
    }

    /// Gives the newest pending trade of a market, asset and side that has no order yet its
    /// order.
    pub fn set_trade_order_id(
        &mut self,
        market_slug: &str,
        asset: &str,
        side: &str,
        order_id: String,
    )
        ensures
            final(self)@ == old(self)@.with_trade_order(
                market_slug@,
                asset@,
                side@,
                order_id@,
            ),
    {
        let ghost wanted = is_unordered(market_slug@, asset@, side@);
        let mut i: usize = 0;
        while i < self.trades.len()
            invariant
                *self == *old(self),
                i <= self.trades@.len(),
                wanted == is_unordered(market_slug@, asset@, side@),
                forall|j: int| 0 <= j < i ==> !wanted(#[trigger] self@.trades[j]),
            decreases self.trades@.len() - i,
        {
            if matches_key(&self.trades[i], market_slug, asset, side) && self.trades[i].status
                == TradeStatus::Pending && self.trades[i].order_id.is_none() {
                proof {
                    lemma_first_where(self@.trades, wanted, i as int);
                }
                let mut trade = self.copy_trade(i);
                trade.order_id = Some(order_id);
                self.replace_trade(i, trade);
                return ;
            }
            i = i + 1;
        }
        proof {
            lemma_first_where(self@.trades, wanted, i as int);
        }
    }

    /// Gives the newest pending trade of a market, asset and side another price.
    pub fn update_trade_price(
        &mut self,
        market_slug: &str,
        asset: &str,
        side: &str,
        new_price: Number,
    )
        ensures
            final(self)@ == old(self)@.with_trade_price(
                market_slug@,
                asset@,
                side@,
                new_price,
            ),
    {
        if let Some(i) = self.newest_pending(market_slug, asset, side) {
            let mut trade = self.copy_trade(i);
            trade.price = new_price;
            self.replace_trade(i, trade);
        }
    }

    /// Gives the newest successful trade of a market, asset and side that has no result yet its
    /// result.
    pub fn set_trade_result(&mut self, market_slug: &str, asset: &str, side: &str, result: String)
        ensures
            final(self)@ == old(self)@.with_trade_result(
                market_slug@,
                asset@,
                side@,
                result@,
            ),
    {
        let ghost wanted = is_unsettled(market_slug@, asset@, side@);
        let mut i: usize = 0;
        while i < self.trades.len()
            invariant
                *self == *old(self),
                i <= self.trades@.len(),
                wanted == is_unsettled(market_slug@, asset@, side@),
                forall|j: int| 0 <= j < i ==> !wanted(#[trigger] self@.trades[j]),
            decreases self.trades@.len() - i,
        {
            if matches_key(&self.trades[i], market_slug, asset, side) && self.trades[i].status
                == TradeStatus::Success && self.trades[i].result.is_none() {
                proof {
                    lemma_first_where(self@.trades, wanted, i as int);
                }
                self.judge_trade(i, result);
                return ;
            }
            i = i + 1;
        }
        proof {
            lemma_first_where(self@.trades, wanted, i as int);
        }
    }

    /// Gives the trade in slot `i` a result.
    pub(crate) fn judge_trade(&mut self, i: usize, result: String)
        requires
            i < old(self).trades@.len(),
        ensures
            final(self)@ == old(self)@.with_trades(
                old(self)@.trades.update(
                    i as int,
                    TradeView { result: Some(result@), ..old(self)@.trades[i as int] },
                ),
            ),
    {
        let mut trade = self.copy_trade(i);
        trade.result = Some(result);
        self.replace_trade(i, trade);
    }

    /// The record of the trader. The counts are kept in 32 bits.
    pub fn get_trading_stats(&self) -> (r: TradingStats)
        ensures
            r.trade_count == success_count(self@.trades) as u32,
            r.settled@ == settled_trades(self@.trades),
            r.win_count == count_won(settled_trades(self@.trades), true) as u32,
            r.loss_count == count_won(settled_trades(self@.trades), false) as u32,
    {
        let mut successes: usize = 0;
        let mut wins: usize = 0;
        let mut losses: usize = 0;
        let mut settled: Vec<SettledTrade> = Vec::new();
        let mut i: usize = 0;
        while i < self.trades.len()
            invariant
                i <= self.trades@.len(),
                successes <= i,
                wins + losses <= i,
                successes == success_count(self@.trades.take(i as int)),
                settled@ == settled_trades(self@.trades.take(i as int)),
                wins == count_won(settled@, true),
                losses == count_won(settled@, false),
            decreases self.trades@.len() - i,
        {
            let trade = &self.trades[i];
            proof {
                assert(self@.trades.take(i + 1).drop_last() == self@.trades.take(i as int));
                assert(self@.trades.take(i + 1).last() == trade@);
            }
            if trade.status == TradeStatus::Success {
                successes = successes + 1;
                if is_text(&trade.result, "WIN") {
                    wins = wins + 1;
                    settled.push(
                        SettledTrade { amount: trade.amount, price: trade.price, won: true },
                    );
                    proof {
                        assert(settled@.drop_last() == settled_trades(
                            self@.trades.take(i as int),
                        ));
                    }
                } else if is_text(&trade.result, "LOSS") {
                    losses = losses + 1;
                    settled.push(
                        SettledTrade { amount: trade.amount, price: trade.price, won: false },
                    );
                    proof {
                        assert(settled@.drop_last() == settled_trades(
                            self@.trades.take(i as int),
                        ));
                    }
                }
            }
            i = i + 1;
        }
        assert(self@.trades.take(i as int) == self@.trades);
        TradingStats {
            trade_count: successes as u32,
            win_count: wins as u32,
            loss_count: losses as u32,
            settled,
        }
    }

    /// Takes a status message as of now, and gives back the line that it makes.
    pub fn add_status(&mut self, message: String) -> (line: String)
        ensures
            exists|at: UtcInstant|
                {
                    &&& at.valid()
                    &&& #[trigger] old(self)@.told(at, message@) == final(self)@
                    &&& line@ == stamped(at, message@)
                },
    {
        let now = utc_now();
        self.add_status_at(now, message)
    }

    /// Takes a status message as of `now`, and gives back the line that it makes.
    pub fn add_status_at(&mut self, now: UtcInstant, message: String) -> (line: String)
        requires
            now.valid(),
        ensures
            final(self)@ == old(self)@.told(now, message@),
            line@ == stamped(now, message@),
    {
        let ghost before = self@;
        let mut line = "[".to_string();
        line.append(now.time_of_day().as_str());
        line.append("] ");
        line.append(message.as_str());
        self.status_messages.push_front(line.clone());
        let ghost all = seq![line@] + before.statuses;
        assert(text_views(self.status_messages@) == all);
        if self.status_messages.len() > MAX_STATUS_MESSAGES {
            self.status_messages.truncate(MAX_STATUS_MESSAGES);
        }
        proof {
            assert(text_views(self.status_messages@) =~= latest_messages(all));
            assert(self@ =~= before.told(now, message@));
        }
        line
    }

    /// Notes whether the price feed is connected.
    pub fn set_ws_connected(&mut self, connected: bool)
        ensures
            final(self)@ == (StateView { ws_connected: connected, ..old(self)@ }),
    {
        self.ws_connected = connected;
    }

    /// Notes when the current interval ends.
    pub fn set_next_interval(&mut self, timestamp: i64)
        ensures
            final(self)@ == (StateView { next_interval: timestamp, ..old(self)@ }),
    {
        self.next_interval = timestamp;
    }

    /// Asks for a new connection of the price feed.
    pub fn request_ws_reconnect(&mut self)
        ensures
            final(self)@ == (StateView { reconnect: true, ..old(self)@ }),
    {
        self.ws_reconnect_needed = true;
    }

    /// Forgets all tags.
    pub fn reset_tag_states(&mut self)
        ensures
            final(self)@ == (StateView { tags: Map::empty(), ..old(self)@ }),
    {
        self.tag_states.clear();
    }

    /// Whether a new connection of the price feed was asked for since the last time this was
    /// called.
    pub fn should_reconnect(&mut self) -> (r: bool)
        ensures
            r == old(self)@.reconnect,
            final(self)@ == (StateView { reconnect: false, ..old(self)@ }),
    {
        let value = self.ws_reconnect_needed;
        self.ws_reconnect_needed = false;
        value
    }

    /// Tracks a market, as of now.
    pub fn add_market(&mut self, slug: String, info: ParsedMarketInfo)
        ensures
            exists|at: UtcInstant|
                at.valid() && #[trigger] old(self)@.tracking(slug@, info, at) == final(self)@,
    {
        let now = utc_now();
        self.add_market_at(slug, info, now);
    }

    /// Tracks a market, as of `now`.
    pub fn add_market_at(&mut self, slug: String, info: ParsedMarketInfo, now: UtcInstant)
        ensures
            final(self)@ == old(self)@.tracking(slug@, info, now),
    {
        let ghost before = self@;
        let token_ids_changed = match self.tracked_markets.get(slug.as_str()) {
            Some(existing) => !same_text(
                existing.up_token_id.as_str(),
                info.up_token_id.as_str(),
            ) || !same_text(existing.down_token_id.as_str(), info.down_token_id.as_str()),
            None => true,
        };
        self.tracked_markets.insert(slug.clone(), info);
        if token_ids_changed {
            self.current_prices.insert(slug, MarketPrices::blank_at(now));
        }
        assert(self@ =~= before.tracking(slug@, info, now));
    }

    /// The token ids of all tracked markets, in the order in which the markets came: of each the
    /// one for up, then the one for down.
    pub fn get_all_token_ids(&self) -> (r: Vec<String>)
        ensures
            text_views(r@) == self@.token_ids(self@.market_order.len()),
    {
        let mut ids: Vec<String> = Vec::new();
        let mut i: usize = 0;
        while i < self.tracked_markets.len()
            invariant
                i <= self@.market_order.len(),
                text_views(ids@) == self@.token_ids(i as nat),
            decreases self@.market_order.len() - i,
        {
            let info = self.tracked_markets.value_at(i);
            let ghost some = text_views(ids@);
            ids.push(info.up_token_id.clone());
            assert(text_views(ids@) == some.push(info.up_token_id@));
            ids.push(info.down_token_id.clone());
            assert(text_views(ids@) == some.push(info.up_token_id@).push(info.down_token_id@));
            i = i + 1;
        }
        ids
    }

    /// Whether an asset is under its limit in a window. Its window becomes that one.
    pub fn can_trade_asset(&mut self, asset: &str, max_trades: u32, next_interval_ts: i64) -> (r:
        bool)
        ensures
            r == old(self)@.under_limit(asset@, max_trades, next_interval_ts),
            final(self)@ == old(self)@.rolled(asset@, next_interval_ts),
    {
        let ghost before = self@;
        let window = self.current_window(asset, next_interval_ts);
        self.asset_trade_windows.insert(asset.to_string(), window);
        assert(self@ =~= before.rolled(asset@, next_interval_ts));
        window.trade_count < max_trades
    }

    /// The trades of an asset in a window.
    fn current_window(&self, asset: &str, next_interval_ts: i64) -> (r: AssetTradeWindow)
        ensures
            r == self@.window_of(asset@, next_interval_ts),
    {
        match self.asset_trade_windows.get(asset) {
            Some(window) => {
                if window.window_start == next_interval_ts {
                    *window
                } else {
                    AssetTradeWindow::new(next_interval_ts)
                }
            },
            None => AssetTradeWindow::new(next_interval_ts),
        }
    }

    /// Whether an asset is under its limit in a window; where it is, one trade is counted.
    pub fn try_trade_asset(&mut self, asset: &str, max_trades: u32, next_interval_ts: i64) -> (r:
        bool)
        ensures
            r == old(self)@.under_limit(asset@, max_trades, next_interval_ts),
            final(self)@ == old(self)@.attempted(asset@, max_trades, next_interval_ts),
    {
        let ghost before = self@;
        let mut window = self.current_window(asset, next_interval_ts);
        let allowed = window.trade_count < max_trades;
        if allowed {
            window.trade_count = window.trade_count + 1;
        }
        self.asset_trade_windows.insert(asset.to_string(), window);
        assert(self@ =~= before.attempted(asset@, max_trades, next_interval_ts));
        allowed
    }

    /// Counts one trade of an asset in a window.
    pub fn increment_asset_trades(&mut self, asset: &str, next_interval_ts: i64)
        requires
            old(self)@.window_of(asset@, next_interval_ts).trade_count < u32::MAX,
        ensures
            final(self)@ == old(self)@.counted(asset@, next_interval_ts),
    {
        let ghost before = self@;
        let mut window = self.current_window(asset, next_interval_ts);
        window.trade_count = window.trade_count + 1;
        self.asset_trade_windows.insert(asset.to_string(), window);
        assert(self@ =~= before.counted(asset@, next_interval_ts));
    }

    /// How often an asset was traded in a window.
    pub fn get_asset_trade_count(&self, asset: &str, next_interval_ts: i64) -> (r: u32)
        ensures
            r == self@.window_of(asset@, next_interval_ts).trade_count,
    {
        self.current_window(asset, next_interval_ts).trade_count
    }
}

impl Default for AppState {
    /// The state at the start.
    fn default() -> (r: Self)
        ensures
            r@ == StateView::initial(),
    {
        AppState::new()
    }
}

/// Whether a trade is one of this market, asset and side.
fn matches_key(trade: &TradeRecord, market_slug: &str, asset: &str, side: &str) -> (r: bool)
    ensures
        r == (trade@.market_slug == market_slug@ && trade@.asset == asset@ && trade@.side
            == side@),
{
    same_text(trade.market_slug.as_str(), market_slug) && same_text(trade.asset.as_str(), asset)
        && same_text(trade.side.as_str(), side)
}

} // verus!
