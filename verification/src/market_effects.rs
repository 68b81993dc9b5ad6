//! What the markets, their prices, the record and the screen become, field by field.
use vstd::prelude::*;

use crate::clock::TimeSpan;
use crate::clock::UtcInstant;
use crate::gamma_api::is_market_info;
use crate::gamma_api::is_outcome;
use crate::gamma_api::json_texts;
use crate::gamma_api::sheet_in_event;
use crate::gamma_api::sheet_of;
use crate::gamma_api::GammaEventResponse;
use crate::gamma_api::ParseError;
use crate::gamma_api::ParsedMarketInfo;
use crate::gamma_api::SheetView;
use crate::laws::law_mapping_follows_the_markets;
use crate::notice::NoticeView;
use crate::number::greatest;
use crate::number::law_best_is_read_and_unbeaten;
use crate::number::least;
use crate::number::Number;
use crate::number::HALF_BITS;
use crate::number::INFINITE_MAGNITUDE;
use crate::number::SIGN_BIT;
use crate::search::first_where;
use crate::search::lemma_first_where;
use crate::search::lemma_last_where;
use crate::session::trading_step;
use crate::session::wait_nanos;
use crate::session::TradingStep;
use crate::state::count_won;
use crate::state::is_evaluated;
use crate::state::settled_trades;
use crate::state::stamped;
use crate::state::success_count;
use crate::state::trimmed;
use crate::state::SettledTrade;
use crate::state::StateView;
use crate::state::TradeStatus;
use crate::state::TradeView;
use crate::text::asset_name;
use crate::text::comes_before;
use crate::text::has_part;
use crate::text::minutes_seconds;
use crate::text::one_line;
use crate::trade_effects::ask_on;
use crate::trade_effects::ask_or_none;
use crate::trade_effects::bid_on;
use crate::ui::shown;
use crate::ui::success_rows;
use crate::ui::time_left;
use crate::ui::tone_of;
use crate::ui::RowView;
use crate::ui::Tone;
use crate::websocket::are_readings;
use crate::websocket::feed_pause;
use crate::websocket::feed_step;
use crate::websocket::is_reading;
use crate::websocket::FeedAction;
use crate::websocket::FeedEvent;
use crate::websocket::MessageReadings;
use crate::websocket::WsMessage;

verus! {

/// What the price `new` makes of the price `old`: itself, and where there is none the old one.
pub open spec fn updated(new: Option<Number>, old: Option<Number>) -> Option<Number> {
    match new {
        Some(price) => Some(price),
        None => old,
    }
}

/// The ask that a market has for a side; none where it has no prices.
pub open spec fn ask_in(state: StateView, slug: Seq<char>, is_up: bool) -> Option<Number> {
    if state.prices.contains_key(slug) {
        ask_on(state.prices[slug], is_up)
    } else {
        None
    }
}

/// The bid that a market has for a side; none where it has no prices.
pub open spec fn bid_in(state: StateView, slug: Seq<char>, is_up: bool) -> Option<Number> {
    if state.prices.contains_key(slug) {
        bid_on(state.prices[slug], is_up)
    } else {
        None
    }
}

/// Whether `after` is `before` with new prices of one side of a market as of `at`: those that
/// there are, in the place of the old ones. The other side, the other markets and all else but the
/// past prices are as before.
pub open spec fn only_side_priced(
    before: StateView,
    after: StateView,
    slug: Seq<char>,
    is_up: bool,
    ask: Option<Number>,
    bid: Option<Number>,
    at: UtcInstant,
) -> bool {
    &&& after == StateView { prices: after.prices, history: after.history, ..before }
    &&& after.prices.contains_key(slug)
    &&& ask_on(after.prices[slug], is_up) == updated(ask, ask_in(before, slug, is_up))
    &&& bid_on(after.prices[slug], is_up) == updated(bid, bid_in(before, slug, is_up))
    &&& ask_on(after.prices[slug], !is_up) == ask_in(before, slug, !is_up)
    &&& bid_on(after.prices[slug], !is_up) == bid_in(before, slug, !is_up)
    &&& after.prices[slug].last_update == at
    &&& forall|other: Seq<char>|
        other != slug ==> {
            &&& #[trigger] after.prices.contains_key(other) == before.prices.contains_key(other)
            &&& after.prices[other] == before.prices[other]
        }
}

/// New prices of a side become those of the market, where they are there; all else stays.
pub proof fn law_new_prices_are_those_of_the_side(
    state: StateView,
    slug: Seq<char>,
    is_up: bool,
    ask: Option<Number>,
    bid: Option<Number>,
    at: UtcInstant,
)
    ensures
        only_side_priced(
            state,
            state.priced(slug, is_up, ask, bid, at),
            slug,
            is_up,
            ask,
            bid,
            at,
        ),
{
}

/// New prices are remembered behind the past ones, with both asks that the market then has. The
/// newest thousand stay, in their order, and the past prices of other markets are as before.
pub proof fn law_new_prices_are_remembered(
    state: StateView,
    slug: Seq<char>,
    is_up: bool,
    ask: Option<Number>,
    bid: Option<Number>,
    at: UtcInstant,
    other: Seq<char>,
)
    requires
        state.history.contains_key(slug) ==> state.history[slug].len() <= 1000,
        other != slug,
    ensures
        ({
            let after = state.priced(slug, is_up, ask, bid, at);
            let past = if state.history.contains_key(slug) {
                state.history[slug]
            } else {
                Seq::empty()
            };
            let all = after.history[slug];
            let dropped: int = if past.len() == 1000 {
                1
            } else {
                0
            };
            &&& after.history.contains_key(slug)
            &&& all.len() == past.len() + 1 - dropped
            &&& forall|i: int| 0 <= i < all.len() - 1 ==> #[trigger] all[i] == past[i + dropped]
            &&& all.last().timestamp == at
            &&& all.last().up_best_ask == after.prices[slug].up_best_ask
            &&& all.last().down_best_ask == after.prices[slug].down_best_ask
            &&& after.history.contains_key(other) == state.history.contains_key(other)
            &&& after.history[other] == state.history[other]
        }),
{
}

/// A market that comes is tracked as it came. One that has another token for up than it had, or
/// another one for down, whatever the other token is, and one that is new, has no prices then; one
/// that has both tokens as before keeps its prices. Other markets and all else stay.
pub proof fn law_market_with_another_token_has_no_prices(
    state: StateView,
    slug: Seq<char>,
    info: ParsedMarketInfo,
    at: UtcInstant,
    other: Seq<char>,
)
    requires
        other != slug,
    ensures
        ({
            let after = state.tracking(slug, info, at);
            let known = state.markets.contains_key(slug);
            let before = state.markets[slug];
            &&& after == StateView {
                markets: after.markets,
                market_order: after.market_order,
                prices: after.prices,
                ..state
            }
            &&& after.markets == state.markets.insert(slug, info)
            &&& known ==> after.market_order == state.market_order
            &&& !known ==> after.market_order == state.market_order.push(slug)
            &&& !known || before.up_token_id@ != info.up_token_id@ ==> {
                &&& after.prices.contains_key(slug)
                &&& after.prices[slug].up_best_ask is None
                &&& after.prices[slug].up_best_bid is None
                &&& after.prices[slug].down_best_ask is None
                &&& after.prices[slug].down_best_bid is None
                &&& after.prices[slug].last_update == at
            }
            &&& known && before.down_token_id@ != info.down_token_id@ ==> {
                &&& after.prices.contains_key(slug)
                &&& after.prices[slug].up_best_ask is None
                &&& after.prices[slug].up_best_bid is None
                &&& after.prices[slug].down_best_ask is None
                &&& after.prices[slug].down_best_bid is None
                &&& after.prices[slug].last_update == at
            }
            &&& known && before.up_token_id@ == info.up_token_id@ && before.down_token_id@
                == info.down_token_id@ ==> after.prices == state.prices
            &&& after.prices.contains_key(other) == state.prices.contains_key(other)
            &&& after.prices[other] == state.prices[other]
        }),
{
}

/// A status message is the first, behind its time; the newest fifty stay, in their order, and
/// nothing else changes.
pub proof fn law_status_message_is_the_first(state: StateView, at: UtcInstant, message: Seq<char>)
    requires
        state.statuses.len() <= 50,
    ensures
        ({
            let after = state.told(at, message);
            &&& after == StateView { statuses: after.statuses, ..state }
            &&& after.statuses[0] == stamped(at, message)
            &&& after.statuses.len() == if state.statuses.len() == 50 {
                50
            } else {
                state.statuses.len() + 1
            }
            &&& forall|i: int|
                1 <= i < after.statuses.len() ==> #[trigger] after.statuses[i]
                    == state.statuses[i - 1]
        }),
{
}

/// A new interval ends at the next multiple of five minutes and starts without tags. The first one
/// of a session changes nothing else; a later one marks the price feed as not connected, asks for a
/// new connection, and evaluates the trades of the interval before, where there was one.
pub proof fn law_new_interval_starts_without_tags(state: StateView, first: bool, secs: int)
    requires
        0 <= secs < i64::MAX - 300,
    ensures
        ({
            let after = state.refreshed(first, secs);
            &&& after.next_interval > secs
            &&& after.next_interval <= secs + 300
            &&& after.next_interval % 300 == 0
            &&& forall|slug: Seq<char>| !(#[trigger] after.tags.contains_key(slug))
            &&& first ==> after == StateView {
                next_interval: after.next_interval,
                tags: after.tags,
                ..state
            }
            &&& !first ==> {
                &&& after == StateView {
                    next_interval: after.next_interval,
                    tags: after.tags,
                    trades: after.trades,
                    ws_connected: false,
                    reconnect: true,
                    ..state
                }
                &&& after.trades == if state.next_interval > 0 {
                    state.evaluated(state.next_interval).trades
                } else {
                    state.trades
                }
            }
        }),
{
}

/// A new interval tells the results of the interval before, where it was not the first and there
/// was one, then that it waits for markets, and for which interval.
pub proof fn law_new_interval_tells_the_results_first(state: StateView, first: bool, secs: int)
    ensures
        ({
            let told = state.refresh_notices(first, secs);
            let results = if first || state.next_interval <= 0 {
                Seq::empty()
            } else {
                state.evaluation_notices(state.next_interval)
            };
            &&& told.len() == results.len() + 2
            &&& forall|i: int| 0 <= i < results.len() ==> #[trigger] told[i] == results[i]
            &&& told[results.len() as int] == NoticeView::awaiting_markets()
            &&& told[results.len() as int + 1] == NoticeView::fetching_markets(secs - secs % 300)
        }),
{
}

/// The token of a side of a tracked market.
pub open spec fn token_on(state: StateView, slug: Seq<char>, is_up: bool) -> Seq<char> {
    if is_up {
        state.markets[slug].up_token_id@
    } else {
        state.markets[slug].down_token_id@
    }
}

/// Each token is mapped to the market that it stands for a side of, where no token stands for two.
proof fn lemma_token_is_mapped(state: StateView, slug: Seq<char>, is_up: bool)
    requires
        state.is_sound(),
        state.has_distinct_tokens(),
        state.markets.contains_key(slug),
    ensures
        state.all_tokens().contains_key(token_on(state, slug, is_up)),
        state.all_tokens()[token_on(state, slug, is_up)] == slug,
        token_on(state, slug, is_up) == state.markets[slug].up_token_id@ <==> is_up,
{
    let id = token_on(state, slug, is_up);
    law_mapping_follows_the_markets(state, slug, id);
    let owner = state.all_tokens()[id];
    assert(state.markets.contains_key(owner));
    assert(owner == slug);
}

/// Whether `best` is the best of `readings`: one of them, and none is better, where lower is better
/// or higher is. Without readings there is none.
pub open spec fn is_best(
    best: Option<Number>,
    readings: Seq<Option<Number>>,
    lower: bool,
) -> bool {
    match best {
        None => forall|i: int| 0 <= i < readings.len() ==> #[trigger] readings[i] is None,
        Some(price) => {
            &&& readings.contains(Some(price))
            &&& forall|i: int|
                0 <= i < readings.len() ==> match #[trigger] readings[i] {
                    Some(other) => if lower {
                        !other.lt(price)
                    } else {
                        !price.lt(other)
                    },
                    None => true,
                }
        },
    }
}

/// Whether the text `text` can read as `reading`.
pub open spec fn reads_as<F: Fn(&str) -> Option<Number>>(
    read_price: F,
    text: Seq<char>,
    reading: Option<Number>,
) -> bool {
    exists|t: &str| t@ == text && #[trigger] call_ensures(read_price, (t,), reading)
}

/// The readings of a book are those of the prices of its levels, asks as asks and bids as bids, one
/// for each; those of changed prices are those of the best ask and the best bid of each change.
/// Other messages have none.
pub proof fn law_readings_are_those_of_the_prices<F: Fn(&str) -> Option<Number>>(
    read_price: F,
    message: WsMessage,
    readings: MessageReadings,
)
    requires
        are_readings(read_price, message, readings),
    ensures
        match message {
            WsMessage::Book(book) => {
                &&& readings.asks@.len() == book.asks@.len()
                &&& readings.bids@.len() == book.bids@.len()
                &&& forall|i: int|
                    0 <= i < book.asks@.len() ==> reads_as(
                        read_price,
                        book.asks@[i].price@,
                        #[trigger] readings.asks@[i],
                    )
                &&& forall|i: int|
                    0 <= i < book.bids@.len() ==> reads_as(
                        read_price,
                        book.bids@[i].price@,
                        #[trigger] readings.bids@[i],
                    )
            },
            WsMessage::PriceChange(pc) => {
                let changes = pc.price_changes@;
                &&& readings.asks@.len() == changes.len()
                &&& readings.bids@.len() == changes.len()
                &&& forall|i: int|
                    0 <= i < changes.len() ==> reads_as(
                        read_price,
                        changes[i].best_ask@,
                        #[trigger] readings.asks@[i],
                    )
                &&& forall|i: int|
                    0 <= i < changes.len() ==> reads_as(
                        read_price,
                        changes[i].best_bid@,
                        #[trigger] readings.bids@[i],
                    )
            },
            WsMessage::LastTradePrice(_) => readings.asks@.len() == 0 && readings.bids@.len() == 0,
            WsMessage::Unknown => readings.asks@.len() == 0 && readings.bids@.len() == 0,
        },
{
    match message {
        WsMessage::Book(book) => {
            assert forall|i: int| 0 <= i < book.asks@.len() implies reads_as(
                read_price,
                book.asks@[i].price@,
                #[trigger] readings.asks@[i],
            ) by {
                assert(is_reading(read_price, book.asks@[i].price@, readings.asks@[i]));
            }
            assert forall|i: int| 0 <= i < book.bids@.len() implies reads_as(
                read_price,
                book.bids@[i].price@,
                #[trigger] readings.bids@[i],
            ) by {
                assert(is_reading(read_price, book.bids@[i].price@, readings.bids@[i]));
            }
        },
        WsMessage::PriceChange(pc) => {
            let changes = pc.price_changes@;
            assert forall|i: int| 0 <= i < changes.len() implies reads_as(
                read_price,
                changes[i].best_ask@,
                #[trigger] readings.asks@[i],
            ) by {
                assert(is_reading(read_price, changes[i].best_ask@, readings.asks@[i]));
            }
            assert forall|i: int| 0 <= i < changes.len() implies reads_as(
                read_price,
                changes[i].best_bid@,
                #[trigger] readings.bids@[i],
            ) by {
                assert(is_reading(read_price, changes[i].best_bid@, readings.bids@[i]));
            }
        },
        _ => {},
    }
}

/// A book gives the side that its token stands for its lowest ask and its highest bid, where it has
/// any, and changes nothing else.
pub proof fn law_book_prices_the_side_of_its_token(
    state: StateView,
    message: WsMessage,
    readings: MessageReadings,
    at: UtcInstant,
    slug: Seq<char>,
    is_up: bool,
)
    requires
        state.is_sound(),
        state.has_distinct_tokens(),
        state.markets.contains_key(slug),
        message matches WsMessage::Book(book) && book.asset_id@ == token_on(state, slug, is_up),
    ensures
        exists|ask: Option<Number>, bid: Option<Number>|
            {
                &&& is_best(ask, readings.asks@, true)
                &&& is_best(bid, readings.bids@, false)
                &&& #[trigger] only_side_priced(
                    state,
                    state.after_message(message, readings, state.all_tokens(), at),
                    slug,
                    is_up,
                    ask,
                    bid,
                    at,
                )
            },
{
    lemma_token_is_mapped(state, slug, is_up);
    let ask = least(readings.asks@);
    let bid = greatest(readings.bids@);
    law_best_is_read_and_unbeaten(readings.asks@);
    law_best_is_read_and_unbeaten(readings.bids@);
    law_new_prices_are_those_of_the_side(state, slug, is_up, ask, bid, at);
    assert(only_side_priced(
        state,
        state.after_message(message, readings, state.all_tokens(), at),
        slug,
        is_up,
        ask,
        bid,
        at,
    ));
}

/// A changed price of a token, alone in its message, gives the side that the token stands for its
/// ask and its bid, and changes nothing else.
pub proof fn law_changed_price_prices_the_side_of_its_token(
    state: StateView,
    message: WsMessage,
    readings: MessageReadings,
    at: UtcInstant,
    slug: Seq<char>,
    is_up: bool,
)
    requires
        state.is_sound(),
        state.has_distinct_tokens(),
        state.markets.contains_key(slug),
        message matches WsMessage::PriceChange(pc) && pc.price_changes@.len() == 1
            && pc.price_changes@[0].asset_id@ == token_on(state, slug, is_up),
        readings.asks@.len() == 1,
        readings.bids@.len() == 1,
    ensures
        only_side_priced(
            state,
            state.after_message(message, readings, state.all_tokens(), at),
            slug,
            is_up,
            readings.asks@[0],
            readings.bids@[0],
            at,
        ),
{
    lemma_token_is_mapped(state, slug, is_up);
    reveal_with_fuel(StateView::quoted_changes, 2);
    law_new_prices_are_those_of_the_side(
        state,
        slug,
        is_up,
        readings.asks@[0],
        readings.bids@[0],
        at,
    );
}

/// Changed prices in one message lead to what they lead to in two: all but the last, and then the
/// last. A message without changes changes nothing.
pub proof fn law_changed_prices_are_taken_in_turn(
    state: StateView,
    mapping: Map<Seq<char>, Seq<char>>,
    at: UtcInstant,
    whole: WsMessage,
    whole_readings: MessageReadings,
    most: WsMessage,
    most_readings: MessageReadings,
    last: WsMessage,
    last_readings: MessageReadings,
)
    requires
        whole is PriceChange,
        most is PriceChange,
        last is PriceChange,
        whole->PriceChange_0.price_changes@ == most->PriceChange_0.price_changes@
            + last->PriceChange_0.price_changes@,
        last->PriceChange_0.price_changes@.len() == 1,
        most_readings.asks@.len() == most->PriceChange_0.price_changes@.len(),
        most_readings.bids@.len() == most->PriceChange_0.price_changes@.len(),
        last_readings.asks@.len() == 1,
        last_readings.bids@.len() == 1,
        whole_readings.asks@ == most_readings.asks@ + last_readings.asks@,
        whole_readings.bids@ == most_readings.bids@ + last_readings.bids@,
    ensures
        state.after_message(whole, whole_readings, mapping, at) == state.after_message(
            most,
            most_readings,
            mapping,
            at,
        ).after_message(last, last_readings, mapping, at),
{
    let n = most->PriceChange_0.price_changes@.len();
    let between = state.after_message(most, most_readings, mapping, at);
    reveal_with_fuel(StateView::quoted_changes, 2);
    lemma_first_changes(state, mapping, at, whole, whole_readings, most, most_readings, n);
}

/// The first changes of a message lead to the same as those of one that starts with the same.
proof fn lemma_first_changes(
    state: StateView,
    mapping: Map<Seq<char>, Seq<char>>,
    at: UtcInstant,
    whole: WsMessage,
    whole_readings: MessageReadings,
    most: WsMessage,
    most_readings: MessageReadings,
    n: nat,
)
    requires
        whole is PriceChange,
        most is PriceChange,
        n <= most->PriceChange_0.price_changes@.len() <= whole->PriceChange_0.price_changes@.len(),
        forall|i: int|
            0 <= i < n ==> {
                &&& #[trigger] whole->PriceChange_0.price_changes@[i]
                    == most->PriceChange_0.price_changes@[i]
                &&& whole_readings.asks@[i] == most_readings.asks@[i]
                &&& whole_readings.bids@[i] == most_readings.bids@[i]
            },
    ensures
        state.quoted_changes(
            mapping,
            whole->PriceChange_0.price_changes@,
            whole_readings.asks@,
            whole_readings.bids@,
            at,
            n,
        ) == state.quoted_changes(
            mapping,
            most->PriceChange_0.price_changes@,
            most_readings.asks@,
            most_readings.bids@,
            at,
            n,
        ),
    decreases n,
{
    if n > 0 {
        assert(whole->PriceChange_0.price_changes@[n - 1]
            == most->PriceChange_0.price_changes@[n - 1]);
        lemma_first_changes(
            state,
            mapping,
            at,
            whole,
            whole_readings,
            most,
            most_readings,
            (n - 1) as nat,
        );
    }
}

/// A message that is no book and no changed price, one without changes, and one about a token of no
/// tracked market alone change nothing.
pub proof fn law_other_messages_change_nothing(
    state: StateView,
    message: WsMessage,
    readings: MessageReadings,
    at: UtcInstant,
)
    requires
        state.is_sound(),
        match message {
            WsMessage::Book(book) => forall|slug: Seq<char>| #[trigger]
                state.markets.contains_key(slug) ==> book.asset_id@ != token_on(state, slug, true)
                    && book.asset_id@ != token_on(state, slug, false),
            WsMessage::PriceChange(pc) => pc.price_changes@.len() == 0 || (pc.price_changes@.len()
                == 1 && forall|slug: Seq<char>| #[trigger]
                state.markets.contains_key(slug) ==> pc.price_changes@[0].asset_id@ != token_on(
                    state,
                    slug,
                    true,
                ) && pc.price_changes@[0].asset_id@ != token_on(state, slug, false)),
            _ => true,
        },
    ensures
        state.after_message(message, readings, state.all_tokens(), at) == state,
{
    reveal_with_fuel(StateView::quoted_changes, 2);
    match message {
        WsMessage::Book(book) => {
            law_mapping_follows_the_markets(state, book.asset_id@, book.asset_id@);
        },
        WsMessage::PriceChange(pc) => {
            if pc.price_changes@.len() == 1 {
                let id = pc.price_changes@[0].asset_id@;
                law_mapping_follows_the_markets(state, id, id);
            }
        },
        _ => {},
    }
}

/// New prices of a token go to the market that it is mapped to, where that is tracked, and to its
/// up side exactly where the token is the one that the market has for up. Otherwise they change
/// nothing.
pub proof fn law_token_goes_by_the_tracked_market(
    state: StateView,
    mapping: Map<Seq<char>, Seq<char>>,
    id: Seq<char>,
    ask: Option<Number>,
    bid: Option<Number>,
    at: UtcInstant,
)
    ensures
        ({
            let after = state.quoted(mapping, id, ask, bid, at);
            if mapping.contains_key(id) && state.markets.contains_key(mapping[id]) {
                only_side_priced(
                    state,
                    after,
                    mapping[id],
                    id == state.markets[mapping[id]].up_token_id@,
                    ask,
                    bid,
                    at,
                )
            } else {
                after == state
            }
        }),
{
}

/// What an event of the connection leads to: a `PONG` and other messages to nothing, any other text
/// to its handling, a close to the end, an error and a failed ping to the end with a notice, a due
/// ping to one, and a look whether a new connection was asked for to the end exactly where it was.
pub proof fn law_connection_goes_by_its_events(event: FeedEvent, asked: bool)
    ensures
        match event {
            FeedEvent::Text(text) => feed_step(event, asked) == (
                None::<NoticeView>,
                if text@ == "PONG"@ {
                    FeedAction::Continue
                } else {
                    FeedAction::Handle
                },
            ),
            FeedEvent::Closed => feed_step(event, asked) == (
                None::<NoticeView>,
                FeedAction::Stop,
            ),
            FeedEvent::Failed(e) => feed_step(event, asked) == (
                Some(NoticeView::feed_error(e@)),
                FeedAction::Stop,
            ),
            FeedEvent::Other => feed_step(event, asked) == (
                None::<NoticeView>,
                FeedAction::Continue,
            ),
            FeedEvent::PingDue => feed_step(event, asked) == (
                None::<NoticeView>,
                FeedAction::SendPing,
            ),
            FeedEvent::PingFailed(e) => feed_step(event, asked) == (
                Some(NoticeView::ping_failed(e@)),
                FeedAction::Stop,
            ),
            FeedEvent::ReconnectCheck => {
                &&& asked ==> feed_step(event, asked) == (
                    Some(NoticeView::feed_rollover()),
                    FeedAction::Stop,
                )
                &&& !asked ==> feed_step(event, asked) == (
                    None::<NoticeView>,
                    FeedAction::Continue,
                )
            },
        },
{
}

/// After a connection has ended the user is told of an error first, where there was one. Without
/// tokens the pause is two seconds, with tokens three, and the user is told which.
pub proof fn law_pause_goes_by_the_tokens(error: Option<Seq<char>>, tokens: nat)
    ensures
        ({
            let (notices, seconds) = feed_pause(error, tokens);
            &&& tokens == 0 ==> seconds == 2 && notices.last() == NoticeView::feed_without_tokens()
            &&& tokens > 0 ==> seconds == 3 && notices.last() == NoticeView::feed_disconnected()
            &&& error is None ==> notices.len() == 1
            &&& error matches Some(e) ==> notices.len() == 2 && notices[0]
                == NoticeView::feed_error(e)
        }),
{
}

/// The trading task signs in exactly where an interval is known, it has not signed in, and there
/// are markets, at least as many as are configured. It looks at markets exactly where an interval
/// is known and it has signed in.
pub proof fn law_trading_starts_with_all_markets(
    state: StateView,
    signed_in: bool,
    configured: nat,
)
    ensures
        trading_step(state, signed_in, configured) == TradingStep::SignIn <==> {
            &&& state.next_interval != 0
            &&& !signed_in
            &&& state.market_order.len() > 0
            &&& configured <= state.market_order.len()
        },
        trading_step(state, signed_in, configured) == TradingStep::Monitor <==> {
            &&& state.next_interval != 0
            &&& signed_in
        },
{
}

/// The wait for an interval is what is left of it, and a minute where it has passed.
pub proof fn law_wait_is_what_is_left(span: TimeSpan)
    ensures
        0 <= span.nanos ==> wait_nanos(span) == span.nanos,
        span.nanos < 0 ==> wait_nanos(span) == 60_000_000_000,
{
}

/// The record counts the successful trades, those of them that have won, and those that have lost;
/// and it holds the amount and the price of each one that has won or lost, in their order.
pub proof fn law_record_is_that_of_the_successful_trades(trades: Seq<TradeView>, t: TradeView)
    ensures
        ({
            let all = trades.push(t);
            let success = t.status == TradeStatus::Success;
            let won = success && t.result == Some("WIN"@);
            let lost = success && t.result == Some("LOSS"@);
            let before = settled_trades(trades);
            let after = settled_trades(all);
            &&& success_count(all) == success_count(trades) + if success {
                1int
            } else {
                0int
            }
            &&& after == if won || lost {
                before.push(SettledTrade { amount: t.amount, price: t.price, won })
            } else {
                before
            }
            &&& count_won(after, true) == count_won(before, true) + if won {
                1int
            } else {
                0int
            }
            &&& count_won(after, false) == count_won(before, false) + if lost {
                1int
            } else {
                0int
            }
        }),
        success_count(Seq::empty()) == 0,
        settled_trades(Seq::empty()).len() == 0,
        count_won(Seq::empty(), true) == 0,
        count_won(Seq::empty(), false) == 0,
{
    reveal_strlit("WIN");
    reveal_strlit("LOSS");
    let all = trades.push(t);
    assert(all.drop_last() =~= trades);
    assert(all.last() == t);
    assert("WIN"@.len() != "LOSS"@.len());
    let before = settled_trades(trades);
    let settled = SettledTrade { amount: t.amount, price: t.price, won: t.result == Some("WIN"@) };
    assert(before.push(settled).drop_last() =~= before);
}

/// The screen shows the successful trades, in their order, each with its own time, asset, side,
/// price and amount.
pub proof fn law_screen_shows_the_successful_trades(trades: Seq<TradeView>, t: TradeView)
    ensures
        success_rows(trades.push(t)) == if t.status == TradeStatus::Success {
            success_rows(trades).push(
                RowView {
                    timestamp: t.timestamp,
                    asset: t.asset,
                    side: t.side,
                    is_up: t.side == "UP"@,
                    price: t.price,
                    amount: t.amount,
                },
            )
        } else {
            success_rows(trades)
        },
        success_rows(Seq::empty()).len() == 0,
{
    assert(trades.push(t).drop_last() =~= trades);
    assert(trades.push(t).last() == t);
}

/// As much is shown as there is, and as there is room for.
pub proof fn law_screen_shows_what_there_is_room_for(available: nat, height: u16, taken: u16)
    ensures
        shown(available, height, taken) <= available,
        height >= taken ==> shown(available, height, taken) <= height - taken,
        height <= taken ==> shown(available, height, taken) == 0,
        shown(available, height, taken) < available ==> shown(available, height, taken) + taken
            >= height,
{
}

/// A market on the screen is titled by its asset, and shows its own asks; one above a half stands
/// out.
pub proof fn law_panel_shows_the_market(state: StateView, slug: Seq<char>)
    ensures
        ({
            let panel = state.panel_of(slug);
            let half = Number { bits: HALF_BITS };
            &&& panel.slug == slug
            &&& panel.title == asset_name(state.markets[slug].ticker@)
            &&& panel.up_ask == ask_in(state, slug, true)
            &&& panel.down_ask == ask_in(state, slug, false)
            &&& panel.up_is_high <==> half.lt(ask_or_none(ask_in(state, slug, true)))
            &&& panel.down_is_high <==> half.lt(ask_or_none(ask_in(state, slug, false)))
        }),
{
}

/// A message is bad exactly where it speaks of an error, and good exactly where it does not and
/// speaks of a connection or a subscription.
pub proof fn law_error_outweighs_a_connection(message: Seq<char>)
    ensures
        ({
            let error = has_part(message, "Error"@) || has_part(message, "error"@);
            let link = has_part(message, "Connected"@) || has_part(message, "Subscribed"@);
            &&& tone_of(message) == Tone::Bad <==> error
            &&& tone_of(message) == Tone::Good <==> !error && link
        }),
{
}

/// The countdown is known exactly where the interval is, and runs as long as it has not ended.
pub proof fn law_countdown_runs_until_the_end(next_interval: int, now: int)
    ensures
        next_interval <= 0 ==> time_left(next_interval, now) == "Unknown"@,
        0 < next_interval <= now ==> time_left(next_interval, now) == "Refreshing..."@,
        0 < next_interval && now < next_interval ==> time_left(next_interval, now)
            == minutes_seconds((next_interval - now) as nat),
{
}

/// A market is read exactly from two outcomes, prices and tokens with `Up` and `Down` among the
/// outcomes; each side has the price and the token that stand where its outcome stands.
pub proof fn law_sides_have_the_prices_and_tokens_of_their_places(
    outcomes: Seq<Seq<char>>,
    prices: Seq<Seq<char>>,
    token_ids: Seq<Seq<char>>,
)
    ensures
        ({
            let sheet = sheet_of(outcomes, prices, token_ids);
            let two = outcomes.len() == 2 && prices.len() == 2 && token_ids.len() == 2;
            let up_first = outcomes[0] == "Up"@ && outcomes[1] == "Down"@;
            let down_first = outcomes[0] == "Down"@ && outcomes[1] == "Up"@;
            &&& sheet is Ok <==> two && (up_first || down_first)
            &&& two && up_first ==> sheet == Ok::<SheetView, ParseError>(
                SheetView {
                    up_idx: 0,
                    down_idx: 1,
                    up_price: prices[0],
                    down_price: prices[1],
                    up_token_id: token_ids[0],
                    down_token_id: token_ids[1],
                },
            )
            &&& two && down_first ==> sheet == Ok::<SheetView, ParseError>(
                SheetView {
                    up_idx: 1,
                    down_idx: 0,
                    up_price: prices[1],
                    down_price: prices[0],
                    up_token_id: token_ids[1],
                    down_token_id: token_ids[0],
                },
            )
            &&& !two ==> sheet == Err::<SheetView, ParseError>(ParseError::WrongCount)
            &&& two && outcomes[0] != "Up"@ && outcomes[1] != "Up"@ ==> sheet == Err::<
                SheetView,
                ParseError,
            >(ParseError::NoUpOutcome)
            &&& two && (outcomes[0] == "Up"@ || outcomes[1] == "Up"@) && outcomes[0] != "Down"@
                && outcomes[1] != "Down"@ ==> sheet == Err::<SheetView, ParseError>(
                ParseError::NoDownOutcome,
            )
        }),
{
    reveal_strlit("Up");
    reveal_strlit("Down");
    assert("Up"@.len() != "Down"@.len());
    if outcomes.len() == 2 {
        lemma_place_of_two(outcomes, "Up"@);
        lemma_place_of_two(outcomes, "Down"@);
    }
}

/// Where a text stands among two.
proof fn lemma_place_of_two(texts: Seq<Seq<char>>, wanted: Seq<char>)
    requires
        texts.len() == 2,
    ensures
        first_where(texts, is_outcome(wanted)) == if texts[0] == wanted {
            0int
        } else if texts[1] == wanted {
            1int
        } else {
            2int
        },
{
    let p = is_outcome(wanted);
    let k: int = if texts[0] == wanted {
        0
    } else if texts[1] == wanted {
        1
    } else {
        2
    };
    assert forall|j: int| 0 <= j < k implies !p(#[trigger] texts[j]) by {
        assert(j == 0 || j == 1);
    }
    lemma_first_where(texts, p, k);
}

/// An event is read from its first market: first its outcomes, then their prices, then their
/// tokens, of which the first that cannot be read is the error.
pub proof fn law_event_is_read_from_its_first_market(event: GammaEventResponse)
    ensures
        ({
            let sheet = sheet_in_event(event);
            let market = event.markets@[0];
            let outcomes = json_texts(market.outcomes@);
            let prices = json_texts(market.outcome_prices@);
            let tokens = json_texts(market.clob_token_ids@);
            if event.markets@.len() == 0 {
                sheet == Err::<SheetView, ParseError>(ParseError::NoMarkets)
            } else if outcomes is None {
                sheet == Err::<SheetView, ParseError>(ParseError::Outcomes)
            } else if prices is None {
                sheet == Err::<SheetView, ParseError>(ParseError::OutcomePrices)
            } else if tokens is None {
                sheet == Err::<SheetView, ParseError>(ParseError::TokenIds)
            } else {
                sheet == sheet_of(outcomes->0, prices->0, tokens->0)
            }
        }),
{
}

/// A market that was read is that of its event: with its ticker and its title, the condition of its
/// first market, the tokens of the sheet and the prices that were read. The best ask of the service
/// goes to the side that stands first. A price that cannot be read is an error, that of up first.
pub proof fn law_market_is_that_of_its_event(
    r: Result<ParsedMarketInfo, ParseError>,
    event: GammaEventResponse,
    sheet: SheetView,
    up: Option<Number>,
    down: Option<Number>,
)
    requires
        is_market_info(r, event, sheet, up, down),
    ensures
        r is Ok <==> up is Some && down is Some,
        up is None ==> r == Err::<ParsedMarketInfo, ParseError>(ParseError::UpPrice),
        up is Some && down is None ==> r == Err::<ParsedMarketInfo, ParseError>(
            ParseError::DownPrice,
        ),
        r matches Ok(info) ==> {
            &&& info.ticker@ == event.ticker@
            &&& info.title@ == event.title@
            &&& info.condition_id@ == event.markets@[0].condition_id@
            &&& info.up_token_id@ == sheet.up_token_id
            &&& info.down_token_id@ == sheet.down_token_id
            &&& up == Some(info.up_price)
            &&& down == Some(info.down_price)
            &&& sheet.up_idx == 0 ==> info.up_best_ask == event.markets@[0].best_ask
            &&& sheet.up_idx != 0 ==> info.up_best_ask is None
            &&& sheet.down_idx == 0 ==> info.down_best_ask == event.markets@[0].best_ask
            &&& sheet.down_idx != 0 ==> info.down_best_ask is None
        },
{
}

/// Where one trade is above the limit, the oldest evaluated one goes, at place `i`. Trades within
/// the limit all stay, and so they do without a limit.
pub proof fn law_oldest_evaluated_trade_goes(trades: Seq<TradeView>, limit: nat, i: int)
    requires
        0 <= i < trades.len(),
        trades[i].result is Some,
        forall|j: int| i < j < trades.len() ==> (#[trigger] trades[j]).result is None,
    ensures
        0 < limit < trades.len() ==> trimmed(trades, limit) == trimmed(trades.remove(i), limit),
        limit == trades.len() - 1 && limit > 0 ==> trimmed(trades, limit) == trades.remove(i),
        limit >= trades.len() ==> trimmed(trades, limit) == trades,
        trimmed(trades, 0) == trades,
{
    assert forall|j: int| i < j < trades.len() implies !is_evaluated()(#[trigger] trades[j]) by {
        assert(trades[j].result is None);
    }
    lemma_last_where(trades, is_evaluated(), i);
    reveal_with_fuel(trimmed, 2);
    assert(trades.remove(i).len() == trades.len() - 1);
}

/// Numbers are ordered as their bits say: without a sign by their bits, with a sign the other way
/// round, and each with a sign before each without, but for the two zeros, which are equal. Beyond
/// infinity there is no number.
pub proof fn law_numbers_are_ordered_by_their_bits(a: Number, b: Number)
    ensures
        a.bits <= INFINITE_MAGNITUDE && b.bits <= INFINITE_MAGNITUDE ==> (a.lt(b) <==> a.bits
            < b.bits),
        SIGN_BIT <= a.bits <= SIGN_BIT + INFINITE_MAGNITUDE && SIGN_BIT <= b.bits <= SIGN_BIT
            + INFINITE_MAGNITUDE ==> (a.lt(b) <==> b.bits < a.bits),
        SIGN_BIT <= a.bits <= SIGN_BIT + INFINITE_MAGNITUDE && b.bits <= INFINITE_MAGNITUDE ==> {
            &&& a.lt(b) <==> a.bits != SIGN_BIT || b.bits != 0
            &&& !b.lt(a)
        },
        INFINITE_MAGNITUDE < a.bits < SIGN_BIT || SIGN_BIT + INFINITE_MAGNITUDE < a.bits ==> !a.lt(
            b,
        ) && !b.lt(a),
{
}

/// A text on one line has the same characters, but for line feeds, which are spaces.
pub proof fn law_one_line_replaces_line_feeds(s: Seq<char>, i: int)
    requires
        0 <= i < s.len(),
    ensures
        one_line(s).len() == s.len(),
        s[i] != '\n' ==> one_line(s)[i] == s[i],
        s[i] == '\n' ==> one_line(s)[i] == ' ',
{
}

/// The first place at which two texts differ says which one comes before the other; a text comes
/// before those that it begins.
pub proof fn law_first_difference_decides(a: Seq<char>, b: Seq<char>, k: int)
    requires
        0 <= k <= a.len(),
        k < b.len(),
        forall|i: int| 0 <= i < k ==> #[trigger] a[i] == b[i],
        k < a.len() ==> a[k] != b[k],
    ensures
        comes_before(a, b) <==> k == a.len() || a[k] < b[k],
    decreases k,
{
    if k > 0 {
        assert(a[0] == b[0]);
        let ra = a.drop_first();
        let rb = b.drop_first();
        assert forall|i: int| 0 <= i < k - 1 implies #[trigger] ra[i] == rb[i] by {
            assert(a[i + 1] == b[i + 1]);
        }
        law_first_difference_decides(ra, rb, k - 1);
    }
}

} // verus!
