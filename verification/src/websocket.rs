//! The price feed: its messages, and what its connection does.
use vstd::prelude::*;
use vstd::string::*;

use crate::clock::utc_now;
use crate::clock::UtcInstant;
use crate::notice::notice_views;
use crate::notice::Notice;
use crate::notice::NoticeView;
use crate::number::are_comparable;
use crate::number::comparable;
use crate::number::greatest;
use crate::number::greatest_of;
use crate::number::least;
use crate::number::least_of;
use crate::number::Number;
use crate::state::text_view;
use crate::state::text_views;
use crate::state::AppState;
use crate::state::PriceUpdate;
use crate::state::StateView;
use crate::text::same_text;
use crate::text_map::TextMap;

verus! {

/// The seconds between two signs of life to the feed.
pub const PING_SECONDS: u64 = 10;

/// The seconds between two looks whether a new connection was asked for.
pub const RECONNECT_CHECK_SECONDS: u64 = 1;

/// What the feed is asked for: the prices of tokens.
#[derive(Clone, Debug)]
pub struct MarketSubscription {
    pub assets_ids: Vec<String>,
    pub msg_type: String,
}

/// A message of the feed.
#[derive(Debug)]
pub enum WsMessage {
    Book(BookMessage),
    PriceChange(PriceChangeMessage),
    LastTradePrice(()),
    Unknown,
}

/// The order book of a token.
#[derive(Clone, Debug)]
pub struct BookMessage {
    pub asset_id: String,
    pub market: String,
    pub bids: Vec<OrderLevel>,
    pub asks: Vec<OrderLevel>,
    pub timestamp: String,
}

/// A price at which there are orders.
#[derive(Clone, Debug)]
pub struct OrderLevel {
    pub price: String,
    pub size: String,
}

/// Changed prices of tokens.
#[derive(Clone, Debug)]
pub struct PriceChangeMessage {
    pub market: String,
    pub price_changes: Vec<PriceChange>,
    pub timestamp: String,
}

/// A changed price of a token.
#[derive(Clone, Debug)]
pub struct PriceChange {
    pub asset_id: String,
    pub price: String,
    pub size: String,
    pub side: String,
    pub best_bid: String,
    pub best_ask: String,
}

/// The price of the last trade of a token.
#[derive(Clone, Debug)]
pub struct LastTradePriceMessage {
    pub asset_id: String,
    pub market: String,
    pub price: String,
    pub side: String,
    pub size: String,
    pub timestamp: String,
}

/// The prices in a message as numbers, nothing for a text that is no number. Of an order book
/// there is one for each level, of changed prices one for each change.
#[derive(Clone, Debug)]
pub struct MessageReadings {
    pub asks: Vec<Option<Number>>,
    pub bids: Vec<Option<Number>>,
}

/// The map with its values as sequences of characters.
pub open spec fn slug_views(mapping: Map<Seq<char>, String>) -> Map<Seq<char>, Seq<char>> {
    mapping.map_values(|slug: String| slug@)
}

/// Whether `reading` is what `read_price` made of `text`.
pub open spec fn is_reading<F: Fn(&str) -> Option<Number>>(
    read_price: F,
    text: Seq<char>,
    reading: Option<Number>,
) -> bool {
    exists|t: &str| t@ == text && #[trigger] call_ensures(read_price, (t,), reading)
}

/// Whether the readings are those of the levels.
pub open spec fn are_level_readings<F: Fn(&str) -> Option<Number>>(
    read_price: F,
    levels: Seq<OrderLevel>,
    readings: Seq<Option<Number>>,
) -> bool {
    readings.len() == levels.len() && forall|i: int|
        0 <= i < levels.len() ==> is_reading(read_price, levels[i].price@, #[trigger] readings[i])
}

/// Whether the readings are those of a message.
pub open spec fn are_readings<F: Fn(&str) -> Option<Number>>(
    read_price: F,
    message: WsMessage,
    readings: MessageReadings,
) -> bool {
    match message {
        WsMessage::Book(book) => {
            &&& are_level_readings(read_price, book.asks@, readings.asks@)
            &&& are_level_readings(read_price, book.bids@, readings.bids@)
        },
        WsMessage::PriceChange(pc) => {
            let changes = pc.price_changes@;
            &&& readings.asks@.len() == changes.len()
            &&& readings.bids@.len() == changes.len()
            &&& forall|i: int|
                0 <= i < changes.len() ==> is_reading(
                    read_price,
                    changes[i].best_ask@,
                    #[trigger] readings.asks@[i],
                )
            &&& forall|i: int|
                0 <= i < changes.len() ==> is_reading(
                    read_price,
                    changes[i].best_bid@,
                    #[trigger] readings.bids@[i],
                )
        },
        _ => readings.asks@.len() == 0 && readings.bids@.len() == 0,
    }
}

/// Whether a message can be handled with these readings: there is one for each change, and the
/// levels of a book that matters can be compared.
pub open spec fn can_be_handled(
    message: WsMessage,
    readings: MessageReadings,
    mapping: Map<Seq<char>, Seq<char>>,
) -> bool {
    match message {
        WsMessage::Book(book) => mapping.contains_key(book.asset_id@) ==> comparable(
            readings.asks@,
        ) && comparable(readings.bids@),
        WsMessage::PriceChange(pc) => readings.asks@.len() == pc.price_changes@.len()
            && readings.bids@.len() == pc.price_changes@.len(),
        _ => true,
    }
}

impl StateView {
    /// Which market a token belongs to, of the first `n` tracked ones. A token of two markets
    /// belongs to the later one.
    pub open spec fn token_map(self, n: nat) -> Map<Seq<char>, Seq<char>>
        decreases n,
    {
        if n == 0 {
            Map::empty()
        } else {
            let slug = self.market_order[n - 1];
            self.token_map((n - 1) as nat).insert(self.markets[slug].up_token_id@, slug).insert(
                self.markets[slug].down_token_id@,
                slug,
            )
        }
    }

    /// After new prices of a token: they are those of the side that the token stands for. A
    /// token that belongs to no tracked market changes nothing.
    pub open spec fn quoted(
        self,
        mapping: Map<Seq<char>, Seq<char>>,
        asset_id: Seq<char>,
        ask: Option<Number>,
        bid: Option<Number>,
        at: UtcInstant,
    ) -> StateView {
        let slug = mapping[asset_id];
        if mapping.contains_key(asset_id) && self.markets.contains_key(slug) {
            self.priced(slug, asset_id == self.markets[slug].up_token_id@, ask, bid, at)
        } else {
            self
        }
    }

    /// After the first `n` of changed prices.
    pub open spec fn quoted_changes(
        self,
        mapping: Map<Seq<char>, Seq<char>>,
        changes: Seq<PriceChange>,
        asks: Seq<Option<Number>>,
        bids: Seq<Option<Number>>,
        at: UtcInstant,
        n: nat,
    ) -> StateView
        decreases n,
    {
        if n == 0 {
            self
        } else {
            self.quoted_changes(mapping, changes, asks, bids, at, (n - 1) as nat).quoted(
                mapping,
                changes[n - 1].asset_id@,
                asks[n - 1],
                bids[n - 1],
                at,
            )
        }
    }

    /// After a message. A book gives its lowest ask and its highest bid.
    pub open spec fn after_message(
        self,
        message: WsMessage,
        readings: MessageReadings,
        mapping: Map<Seq<char>, Seq<char>>,
        at: UtcInstant,
    ) -> StateView {
        match message {
            WsMessage::Book(book) => self.quoted(
                mapping,
                book.asset_id@,
                least(readings.asks@),
                greatest(readings.bids@),
                at,
            ),
            WsMessage::PriceChange(pc) => self.quoted_changes(
                mapping,
                pc.price_changes@,
                readings.asks@,
                readings.bids@,
                at,
                pc.price_changes@.len(),
            ),
            WsMessage::LastTradePrice(_) => self,
            WsMessage::Unknown => self,
        }
    }
}

/// Something that happens to the connection.
#[derive(Clone, Debug)]
pub enum FeedEvent {
    Text(String),
    Closed,
    Failed(String),
    /// Any other message.
    Other,
    /// It is time to show that the connection is alive.
    PingDue,
    PingFailed(String),
    /// It is time to look whether a new connection was asked for.
    ReconnectCheck,
}

/// What to do with the connection.
#[derive(Clone, Copy, PartialEq, Eq, Structural, Debug)]
pub enum FeedAction {
    Continue,
    /// Handle the text as a message.
    Handle,
    SendPing,
    Stop,
}

/// What an event leads to.
#[derive(Clone, Debug)]
pub struct FeedStep {
    pub notice: Option<Notice>,
    pub action: FeedAction,
}

/// An optional notice over sequences of characters.
pub open spec fn notice_view(notice: Option<Notice>) -> Option<NoticeView> {
    match notice {
        Some(n) => Some(n@),
        None => None,
    }
}

/// What an event leads to when a new connection was asked for, or not.
pub open spec fn feed_step(event: FeedEvent, reconnect: bool) -> (Option<NoticeView>, FeedAction) {
    match event {
        FeedEvent::Text(text) => if text@ == "PONG"@ {
            (None, FeedAction::Continue)
        } else {
            (None, FeedAction::Handle)
        },
        FeedEvent::Closed => (None, FeedAction::Stop),
        FeedEvent::Failed(e) => (Some(NoticeView::feed_error(e@)), FeedAction::Stop),
        FeedEvent::Other => (None, FeedAction::Continue),
        FeedEvent::PingDue => (None, FeedAction::SendPing),
        FeedEvent::PingFailed(e) => (Some(NoticeView::ping_failed(e@)), FeedAction::Stop),
        FeedEvent::ReconnectCheck => if reconnect {
            (Some(NoticeView::feed_rollover()), FeedAction::Stop)
        } else {
            (None, FeedAction::Continue)
        },
    }
}

/// How to go on with the feed: connect for these tokens, or, where there are none, wait.
#[derive(Clone, Debug)]
pub struct FeedPlan {
    pub asset_ids: Vec<String>,
    pub notice: Notice,
    pub wait_seconds: u64,
}

/// What to do after a connection has ended.
#[derive(Clone, Debug)]
pub struct FeedPause {
    pub notices: Vec<Notice>,
    pub wait_seconds: u64,
}

/// What is told after a connection has ended, with an error or without, and the seconds to wait,
/// where there are so many tokens.
pub open spec fn feed_pause(error: Option<Seq<char>>, tokens: nat) -> (Seq<NoticeView>, u64) {
    let failure = match error {
        Some(e) => seq![NoticeView::feed_error(e)],
        None => Seq::empty(),
    };
    if tokens == 0 {
        (failure + seq![NoticeView::feed_without_tokens()], 2)
    } else {
        (failure + seq![NoticeView::feed_disconnected()], 3)
    }
}

/// The connection of the price feed.
#[derive(Clone, Debug)]
pub struct WebSocketManager {
    ws_url: String,
}

impl WebSocketManager {
    /// Where the feed is.
    pub closed spec fn url(&self) -> Seq<char> {
        self.ws_url@
    }

    /// The feed at `ws_url`.
    pub fn new(ws_url: String) -> (r: WebSocketManager)
        ensures
            r.url() == ws_url@,
    {
        WebSocketManager { ws_url }
    }

    /// Where prices come from.
    pub fn market_url(&self) -> (r: String)
        ensures
            r@ == self.url() + "/ws/market"@,
    {
        let mut url = self.ws_url.clone();
        url.append("/ws/market");
        url
    }

    /// The subscription for tokens.
    pub fn subscription(asset_ids: Vec<String>) -> (r: MarketSubscription)
        ensures
            r.assets_ids == asset_ids,
            r.msg_type@ == "market"@,
    {
        MarketSubscription { assets_ids: asset_ids, msg_type: "market".to_string() }
    }

    /// How to go on with the feed.
    pub fn plan_connection(state: &mut AppState) -> (r: FeedPlan)
        ensures
            text_views(r.asset_ids@) == old(state)@.token_ids(old(state)@.market_order.len()),
            if r.asset_ids@.len() == 0 {
                &&& r.notice@ == NoticeView::awaiting_tokens()
                &&& r.wait_seconds == 2
                &&& final(state)@ == old(state)@
            } else {
                &&& r.notice@ == NoticeView::connecting(r.asset_ids@.len())
                &&& r.wait_seconds == 0
                &&& final(state)@ == (StateView { ws_connected: true, ..old(state)@ })
            },
    {
        let asset_ids = state.get_all_token_ids();
        if asset_ids.is_empty() {
            return FeedPlan { asset_ids, notice: Notice::awaiting_tokens(), wait_seconds: 2 };
        }
        let notice = Notice::connecting(asset_ids.len() as u64);
        state.set_ws_connected(true);
        FeedPlan { asset_ids, notice, wait_seconds: 0 }
    }

    /// What an event leads to.
    pub fn on_event(state: &mut AppState, event: &FeedEvent) -> (r: FeedStep)
        ensures
            (notice_view(r.notice), r.action) == feed_step(*event, old(state)@.reconnect),
            final(state)@ == if event is ReconnectCheck {
                StateView { reconnect: false, ..old(state)@ }
            } else {
                old(state)@
            },
    {
        match event {
            FeedEvent::Text(text) => FeedStep {
                notice: None,
                action: if same_text(text.as_str(), "PONG") {
                    FeedAction::Continue
                } else {
                    FeedAction::Handle
                },
            },
            FeedEvent::Closed => FeedStep { notice: None, action: FeedAction::Stop },
            FeedEvent::Failed(e) => FeedStep {
                notice: Some(Notice::feed_error(e.as_str())),
                action: FeedAction::Stop,
            },
            FeedEvent::Other => FeedStep { notice: None, action: FeedAction::Continue },
            FeedEvent::PingDue => FeedStep { notice: None, action: FeedAction::SendPing },
            FeedEvent::PingFailed(e) => FeedStep {
                notice: Some(Notice::ping_failed(e.as_str())),
                action: FeedAction::Stop,
            },
            FeedEvent::ReconnectCheck => {
                if state.should_reconnect() {
                    FeedStep { notice: Some(Notice::feed_rollover()), action: FeedAction::Stop }
                } else {
                    FeedStep { notice: None, action: FeedAction::Continue }
                }
            },
        }
    }

    /// What to do after a connection has ended, with an error or without.
    pub fn connection_ended(state: &mut AppState, error: Option<String>) -> (r: FeedPause)
        ensures
            final(state)@ == (StateView { ws_connected: false, ..old(state)@ }),
            (notice_views(r.notices@), r.wait_seconds) == feed_pause(
                text_view(error),
                old(state)@.token_ids(old(state)@.market_order.len()).len(),
            ),
    {
        let mut notices: Vec<Notice> = Vec::new();
        if let Some(e) = error {
            notices.push(Notice::feed_error(e.as_str()));
        }
        let ghost told = notice_views(notices@);
        state.set_ws_connected(false);
        let ids = state.get_all_token_ids();
        let ghost count = ids@.len();
        assert(count == text_views(ids@).len());
        assert(text_views(ids@) == old(state)@.token_ids(old(state)@.market_order.len())) by {
            lemma_token_ids_depend_on_markets(old(state)@, state@, old(state)@.market_order.len());
        }
        if ids.is_empty() {
            notices.push(Notice::feed_without_tokens());
            assert(notice_views(notices@) =~= told.push(NoticeView::feed_without_tokens()));
            FeedPause { notices, wait_seconds: 2 }
        } else {
            notices.push(Notice::feed_disconnected());
            assert(notice_views(notices@) =~= told.push(NoticeView::feed_disconnected()));
            FeedPause { notices, wait_seconds: 3 }
        }
    }

    /// Which market each token belongs to.
    pub fn build_token_mapping(state: &AppState) -> (r: TextMap<String>)
        ensures
            slug_views(r@) == state@.token_map(state@.market_order.len()),
    {
        let mut map: TextMap<String> = TextMap::new();
        let mut i: usize = 0;
        assert(slug_views(map@) =~= state@.token_map(0));
        while i < state.tracked_markets.len()
            invariant
                i <= state@.market_order.len(),
                slug_views(map@) == state@.token_map(i as nat),
            decreases state@.market_order.len() - i,
        {
            let slug = state.tracked_markets.key_at(i);
            let info = state.tracked_markets.value_at(i);
            map.insert(info.up_token_id.clone(), slug.clone());
            map.insert(info.down_token_id.clone(), slug.clone());
            assert(slug_views(map@) =~= state@.token_map((i + 1) as nat));
            i = i + 1;
        }
        map
    }

    /// The prices of levels as numbers. `read_price` reads a price in decimal.
    pub fn read_levels<F: Fn(&str) -> Option<Number>>(
        levels: &Vec<OrderLevel>,
        read_price: &F,
    ) -> (r: Vec<Option<Number>>)
        requires
            forall|text: &str| call_requires(*read_price, (text,)),
        ensures
            are_level_readings(*read_price, levels@, r@),
    {
        let mut readings: Vec<Option<Number>> = Vec::new();
        let mut i: usize = 0;
        while i < levels.len()
            invariant
                i <= levels@.len(),
                readings@.len() == i,
                forall|text: &str| call_requires(*read_price, (text,)),
                forall|j: int|
                    0 <= j < i ==> is_reading(
                        *read_price,
                        levels@[j].price@,
                        #[trigger] readings@[j],
                    ),
            decreases levels@.len() - i,
        {
            let reading = read_price(levels[i].price.as_str());
            readings.push(reading);
            assert(is_reading(*read_price, levels@[i as int].price@, reading));
            i = i + 1;
        }
        readings
    }

    /// The prices in a message as numbers. `read_price` reads a price in decimal.
    pub fn read_message<F: Fn(&str) -> Option<Number>>(message: &WsMessage, read_price: &F) -> (r:
        MessageReadings)
        requires
            forall|text: &str| call_requires(*read_price, (text,)),
        ensures
            are_readings(*read_price, *message, r),
    {
        match message {
            WsMessage::Book(book) => MessageReadings {
                asks: WebSocketManager::read_levels(&book.asks, read_price),
                bids: WebSocketManager::read_levels(&book.bids, read_price),
            },
            WsMessage::PriceChange(pc) => {
                let mut asks: Vec<Option<Number>> = Vec::new();
                let mut bids: Vec<Option<Number>> = Vec::new();
                let mut i: usize = 0;
                while i < pc.price_changes.len()
                    invariant
                        i <= pc.price_changes@.len(),
                        asks@.len() == i,
                        bids@.len() == i,
                        forall|text: &str| call_requires(*read_price, (text,)),
                        forall|j: int|
                            0 <= j < i ==> is_reading(
                                *read_price,
                                pc.price_changes@[j].best_ask@,
                                #[trigger] asks@[j],
                            ),
                        forall|j: int|
                            0 <= j < i ==> is_reading(
                                *read_price,
                                pc.price_changes@[j].best_bid@,
                                #[trigger] bids@[j],
                            ),
                    decreases pc.price_changes@.len() - i,
                {
                    let change = &pc.price_changes[i];
                    let ask = read_price(change.best_ask.as_str());
                    let bid = read_price(change.best_bid.as_str());
                    asks.push(ask);
                    bids.push(bid);
                    assert(is_reading(*read_price, change.best_ask@, ask));
                    assert(is_reading(*read_price, change.best_bid@, bid));
                    i = i + 1;
                }
                MessageReadings { asks, bids }
            },
            _ => MessageReadings { asks: Vec::new(), bids: Vec::new() },
        }
    }

    /// Whether a message can be handled with these readings.
    pub fn can_handle(
        message: &WsMessage,
        readings: &MessageReadings,
        token_mapping: &TextMap<String>,
    ) -> (r: bool)
        ensures
            r == can_be_handled(*message, *readings, slug_views(token_mapping@)),
    {
        match message {
            WsMessage::Book(book) => match token_mapping.get(book.asset_id.as_str()) {
                Some(_) => are_comparable(&readings.asks) && are_comparable(&readings.bids),
                None => true,
            },
            WsMessage::PriceChange(pc) => readings.asks.len() == pc.price_changes.len()
                && readings.bids.len() == pc.price_changes.len(),
            _ => true,
        }
    }

    /// Handles a message, as of now.
    pub fn handle_message(
        state: &mut AppState,
        message: &WsMessage,
        readings: &MessageReadings,
        token_mapping: &TextMap<String>,
    )
        requires
            can_be_handled(*message, *readings, slug_views(token_mapping@)),
        ensures
            exists|now: UtcInstant|
                now.valid() && final(state)@ == #[trigger] old(state)@.after_message(
                    *message,
                    *readings,
                    slug_views(token_mapping@),
                    now,
                ),
    {
        let now = utc_now();
        WebSocketManager::handle_message_at(state, message, readings, token_mapping, now);
    }

    /// Handles a message, as of `now`.
    pub fn handle_message_at(
        state: &mut AppState,
        message: &WsMessage,
        readings: &MessageReadings,
        token_mapping: &TextMap<String>,
        now: UtcInstant,
    )
        requires
            can_be_handled(*message, *readings, slug_views(token_mapping@)),
        ensures
            final(state)@ == old(state)@.after_message(
                *message,
                *readings,
                slug_views(token_mapping@),
                now,
            ),
    {
        match message {
            WsMessage::Book(book) => {
                WebSocketManager::handle_book_message(state, book, readings, token_mapping, now);
            },
            WsMessage::PriceChange(pc) => {
                WebSocketManager::handle_price_change(state, pc, readings, token_mapping, now);
            },
            WsMessage::LastTradePrice(_) => {},
            WsMessage::Unknown => {},
        }
    }

    /// Handles an order book, as of `now`.
    pub fn handle_book_message(
        state: &mut AppState,
        book: &BookMessage,
        readings: &MessageReadings,
        token_mapping: &TextMap<String>,
        now: UtcInstant,
    )
        requires
            slug_views(token_mapping@).contains_key(book.asset_id@) ==> comparable(readings.asks@)
                && comparable(readings.bids@),
        ensures
            final(state)@ == old(state)@.quoted(
                slug_views(token_mapping@),
                book.asset_id@,
                least(readings.asks@),
                greatest(readings.bids@),
                now,
            ),
    {
        match token_mapping.get(book.asset_id.as_str()) {
            Some(_) => {
                let best_ask = least_of(&readings.asks);
                let best_bid = greatest_of(&readings.bids);
                WebSocketManager::quote(
                    state,
                    token_mapping,
                    &book.asset_id,
                    best_ask,
                    best_bid,
                    now,
                );
            },
            None => {},
        }
    }

    /// Handles changed prices, as of `now`.
    pub fn handle_price_change(
        state: &mut AppState,
        pc: &PriceChangeMessage,
        readings: &MessageReadings,
        token_mapping: &TextMap<String>,
        now: UtcInstant,
    )
        requires
            readings.asks@.len() == pc.price_changes@.len(),
            readings.bids@.len() == pc.price_changes@.len(),
        ensures
            final(state)@ == old(state)@.quoted_changes(
                slug_views(token_mapping@),
                pc.price_changes@,
                readings.asks@,
                readings.bids@,
                now,
                pc.price_changes@.len(),
            ),
    {
        let mut i: usize = 0;
        while i < pc.price_changes.len()
            invariant
                i <= pc.price_changes@.len(),
                readings.asks@.len() == pc.price_changes@.len(),
                readings.bids@.len() == pc.price_changes@.len(),
                state@ == old(state)@.quoted_changes(
                    slug_views(token_mapping@),
                    pc.price_changes@,
                    readings.asks@,
                    readings.bids@,
                    now,
                    i as nat,
                ),
            decreases pc.price_changes@.len() - i,
        {
            WebSocketManager::quote(
                state,
                token_mapping,
                &pc.price_changes[i].asset_id,
                readings.asks[i],
                readings.bids[i],
                now,
            );
            i = i + 1;
        }
    }

    /// Takes new prices of a token.
    fn quote(
        state: &mut AppState,
        token_mapping: &TextMap<String>,
        asset_id: &String,
        best_ask: Option<Number>,
        best_bid: Option<Number>,
        now: UtcInstant,
    )
        ensures
            final(state)@ == old(state)@.quoted(
                slug_views(token_mapping@),
                asset_id@,
                best_ask,
                best_bid,
                now,
            ),
    {
        if let Some(market_slug) = token_mapping.get(asset_id.as_str()) {
            if let Some(info) = state.tracked_markets.get(market_slug.as_str()) {
                let is_up = same_text(asset_id.as_str(), info.up_token_id.as_str());
                state.update_price(
                    PriceUpdate {
                        market_slug: market_slug.clone(),
                        is_up,
                        best_ask,
                        best_bid,
                        timestamp: now,
                    },
                );
            }
        }
    }
}

/// States with the same markets have the same tokens.
proof fn lemma_token_ids_depend_on_markets(a: StateView, b: StateView, n: nat)
    requires
        a.markets == b.markets,
        a.market_order == b.market_order,
    ensures
        a.token_ids(n) == b.token_ids(n),
    decreases n,
{
    if n > 0 {
        lemma_token_ids_depend_on_markets(a, b, (n - 1) as nat);
    }
}

} // verus!
