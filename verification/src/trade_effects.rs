//! What the strategy, the attempts to buy and the evaluation do, field by field.
use vstd::prelude::*;

use crate::clock::UtcInstant;
use crate::config::TradingConfig;
use crate::laws::side_signal;
use crate::notice::NoticeView;
use crate::number::Number;
use crate::number::WIN_PRICE_BITS;
use crate::search::change_first;
use crate::search::first_where;
use crate::search::lemma_first_where;
use crate::state::has_order;
use crate::state::is_trade;
use crate::state::is_unordered;
use crate::state::is_unsettled;
use crate::state::with_order;
use crate::state::AssetTradeWindow;
use crate::state::MarketPrices;
use crate::state::StateView;
use crate::state::TagState;
use crate::state::TradeStatus;
use crate::state::TradeView;
use crate::text::asset_name;
use crate::text::int_text;
use crate::text::one_line;
use crate::trading::address_in;
use crate::trading::client_of;
use crate::trading::plan_for;
use crate::trading::private_key_in;
use crate::trading::result_notices;
use crate::trading::side_actions;
use crate::trading::ActionView;
use crate::trading::AttemptView;
use crate::trading::AuthErrorView;
use crate::trading::ClientView;
use crate::trading::OutcomeView;
use crate::trading::PlanView;
use crate::trading::SideView;
use crate::trading::SignatureKind;

verus! {

/// The ask of one side.
pub open spec fn ask_on(prices: MarketPrices, is_up: bool) -> Option<Number> {
    if is_up {
        prices.up_best_ask
    } else {
        prices.down_best_ask
    }
}

/// The bid of one side.
pub open spec fn bid_on(prices: MarketPrices, is_up: bool) -> Option<Number> {
    if is_up {
        prices.up_best_bid
    } else {
        prices.down_best_bid
    }
}

/// An ask, or the number zero.
pub open spec fn ask_or_none(ask: Option<Number>) -> Number {
    match ask {
        Some(price) => price,
        None => Number { bits: 0 },
    }
}

/// The tag of one side of a market, which is none where the market has no entry.
pub open spec fn tag_on(state: StateView, slug: Seq<char>, is_up: bool) -> TagState {
    if !state.tags.contains_key(slug) {
        TagState { tagged: false, tagged_at: None }
    } else if is_up {
        state.tags[slug].up
    } else {
        state.tags[slug].down
    }
}

/// How many trades of an asset are counted for the interval that ends at `ts`.
pub open spec fn count_in(state: StateView, asset: Seq<char>, ts: i64) -> int {
    if state.windows.contains_key(asset) && state.windows[asset].window_start == ts {
        state.windows[asset].trade_count as int
    } else {
        0
    }
}

/// Whether the windows are those of `before`, but for that of `asset`, which is the one of the
/// interval that ends at `ts`, with `count` trades.
pub open spec fn only_window(
    before: StateView,
    after: StateView,
    asset: Seq<char>,
    ts: i64,
    count: int,
) -> bool {
    &&& after.windows.contains_key(asset)
    &&& after.windows[asset].window_start == ts
    &&& after.windows[asset].trade_count == count
    &&& forall|other: Seq<char>|
        other != asset ==> {
            &&& #[trigger] after.windows.contains_key(other) == before.windows.contains_key(other)
            &&& after.windows[other] == before.windows[other]
        }
}

/// The strategy looks at a market exactly where the interval has not ended, ends within the
/// window, and the market has prices.
pub proof fn law_strategy_looks_within_the_window(
    state: StateView,
    slug: Seq<char>,
    ts: i64,
    now: UtcInstant,
    config: TradingConfig,
)
    ensures
        state.is_monitored(slug, ts, now, config) <==> {
            &&& now.secs < ts
            &&& ts <= now.secs + config.monitoring_window_seconds
            &&& state.prices.contains_key(slug)
        },
{
}

/// A side is tagged exactly where it is not, its ask is below the threshold and above zero, the
/// prices are of this interval, and its asset was traded less often than it may be. It is to be
/// bought exactly where it is tagged and its ask is above the threshold for that. The price is the
/// ask, and the token is that of the side.
pub proof fn law_side_is_decided_by_its_own_tag_and_ask(
    state: StateView,
    slug: Seq<char>,
    ts: i64,
    config: TradingConfig,
    is_up: bool,
)
    ensures
        ({
            let signal = side_signal(state.signals(slug, ts, config), is_up);
            let tagged = tag_on(state, slug, is_up).tagged;
            let ask = ask_on(state.prices[slug], is_up);
            &&& signal.tag <==> {
                &&& !tagged
                &&& ask matches Some(price) && price.lt(config.tag_threshold) && Number {
                    bits: 0,
                }.lt(price)
                &&& state.prices[slug].last_update.secs >= ts - 300
                &&& count_in(state, asset_name(slug), ts) < config.max_asset_trades
            }
            &&& signal.execute <==> tagged && config.execute_threshold.lt(ask_or_none(ask))
            &&& signal.price == ask_or_none(ask)
            &&& signal.token_id == if !state.markets.contains_key(slug) {
                None
            } else if is_up {
                Some(state.markets[slug].up_token_id@)
            } else {
                Some(state.markets[slug].down_token_id@)
            }
            &&& state.signals(slug, ts, config).asset == asset_name(slug)
        }),
{
}

/// What is wanted for a side does not depend on the other side: where the tag and the ask of the
/// side, the time of the prices, the count of the asset and the market are the same, it is the
/// same.
pub proof fn law_other_side_does_not_matter(
    a: StateView,
    b: StateView,
    slug: Seq<char>,
    ts: i64,
    config: TradingConfig,
    is_up: bool,
)
    requires
        tag_on(a, slug, is_up) == tag_on(b, slug, is_up),
        ask_on(a.prices[slug], is_up) == ask_on(b.prices[slug], is_up),
        a.prices[slug].last_update == b.prices[slug].last_update,
        count_in(a, asset_name(slug), ts) == count_in(b, asset_name(slug), ts),
        a.markets == b.markets,
    ensures
        side_signal(a.signals(slug, ts, config), is_up) == side_signal(
            b.signals(slug, ts, config),
            is_up,
        ),
{
    law_side_is_decided_by_its_own_tag_and_ask(a, slug, ts, config, is_up);
    law_side_is_decided_by_its_own_tag_and_ask(b, slug, ts, config, is_up);
}

/// Looking at a market changes its tags, and the window of its asset to the current one with the
/// count that it has, and nothing else. A side that is to be bought loses its tag, one that is
/// tagged has it from now, and any other keeps what it has.
pub proof fn law_looking_at_a_market_changes_its_tags(
    state: StateView,
    slug: Seq<char>,
    ts: i64,
    now: UtcInstant,
    config: TradingConfig,
    is_up: bool,
    other: Seq<char>,
)
    requires
        other != slug,
    ensures
        ({
            let signal = side_signal(state.signals(slug, ts, config), is_up);
            let after = state.monitored(slug, ts, now, config);
            let asset = asset_name(slug);
            &&& after == StateView { tags: after.tags, windows: after.windows, ..state }
            &&& after.tags.contains_key(slug)
            &&& tag_on(after, slug, is_up) == if signal.execute {
                TagState { tagged: false, tagged_at: None }
            } else if signal.tag {
                TagState { tagged: true, tagged_at: Some(now) }
            } else {
                tag_on(state, slug, is_up)
            }
            &&& after.tags.contains_key(other) == state.tags.contains_key(other)
            &&& after.tags[other] == state.tags[other]
            &&& only_window(state, after, asset, ts, count_in(state, asset, ts))
        }),
{
}

/// For a side that is to be bought there is one attempt, of the market, the side and its token, at
/// the price of the signal, and it comes last; without a token, or where the side is not to be
/// bought, there is none. The user is told of a tag and of a side that is to be bought.
pub proof fn law_signal_leads_to_one_attempt(
    slug: Seq<char>,
    asset: Seq<char>,
    side: Seq<char>,
    signal: SideView,
)
    ensures
        ({
            let actions = side_actions(slug, asset, side, signal);
            let tag_notice = ActionView::Tell(NoticeView::tagged(asset, side, signal.price));
            let execute_notice = ActionView::Tell(
                NoticeView::execute_signal(asset, side, signal.price),
            );
            let told: int = (if signal.tag {
                1int
            } else {
                0int
            }) + if signal.execute {
                1int
            } else {
                0int
            };
            &&& signal.tag ==> actions.len() > 0 && actions[0] == tag_notice
            &&& signal.execute ==> actions.len() >= told && actions[told - 1] == execute_notice
            &&& match signal.token_id {
                Some(token_id) if signal.execute => {
                    &&& actions.len() == told + 1
                    &&& actions[told] == ActionView::Trade(
                        AttemptView {
                            market_slug: slug,
                            token_id,
                            side,
                            original_price: signal.price,
                            retry_count: 0,
                        },
                    )
                },
                _ => actions.len() == told,
            }
        }),
{
}

/// A first attempt that is simulated, of an asset under its limit, puts one trade before all
/// others: a successful one without a result, of the attempt's market and side, for the current
/// interval, at the attempt's own price and of the bet amount. It is counted once, and no order is
/// placed.
pub proof fn law_simulated_attempt_is_a_trade_at_its_price(
    attempt: AttemptView,
    state: StateView,
    config: TradingConfig,
    has_client: bool,
    now: UtcInstant,
)
    requires
        attempt.retry_count == 0,
        !config.enabled,
        count_in(state, asset_name(attempt.market_slug), state.next_interval)
            < config.max_asset_trades,
    ensures
        ({
            let begun = attempt.begin(state, config, has_client, now);
            let after = begun.state;
            let asset = asset_name(attempt.market_slug);
            let ts = state.next_interval;
            let t = after.trades[0];
            &&& after == StateView { trades: after.trades, windows: after.windows, ..state }
            &&& after.trades.len() == state.trades.len() + 1
            &&& forall|i: int|
                0 <= i < state.trades.len() ==> after.trades[i + 1] == #[trigger] state.trades[i]
            &&& t.status == TradeStatus::Success
            &&& t.result is None
            &&& t.market_slug == attempt.market_slug
            &&& t.asset == asset
            &&& t.side == attempt.side
            &&& t.price == attempt.original_price
            &&& t.amount == config.bet_amount
            &&& t.interval_ts == ts
            &&& t.timestamp == now
            &&& t.order_id == Some("SIM_"@ + int_text(now.secs as int))
            &&& only_window(state, after, asset, ts, count_in(state, asset, ts) + 1)
            &&& !begun.place_order
            &&& begun.notices == seq![
                NoticeView::simulated(
                    0,
                    config.max_retries as nat,
                    attempt.market_slug,
                    attempt.side,
                    attempt.original_price,
                    config.bet_amount,
                ),
            ]
        }),
{
}

/// A first attempt with an account, of an asset under its limit, puts one trade before all others:
/// a pending one without an order and without a result, of the attempt's market and side, for the
/// current interval, at the attempt's own price and of the bet amount. It is counted once, and the
/// order is placed.
pub proof fn law_live_attempt_is_a_pending_trade_at_its_price(
    attempt: AttemptView,
    state: StateView,
    config: TradingConfig,
    now: UtcInstant,
)
    requires
        attempt.retry_count == 0,
        config.enabled,
        count_in(state, asset_name(attempt.market_slug), state.next_interval)
            < config.max_asset_trades,
    ensures
        ({
            let begun = attempt.begin(state, config, true, now);
            let after = begun.state;
            let asset = asset_name(attempt.market_slug);
            let ts = state.next_interval;
            let t = after.trades[0];
            &&& after == StateView { trades: after.trades, windows: after.windows, ..state }
            &&& after.trades.len() == state.trades.len() + 1
            &&& forall|i: int|
                0 <= i < state.trades.len() ==> after.trades[i + 1] == #[trigger] state.trades[i]
            &&& t.status == TradeStatus::Pending
            &&& t.result is None
            &&& t.order_id is None
            &&& t.market_slug == attempt.market_slug
            &&& t.asset == asset
            &&& t.side == attempt.side
            &&& t.price == attempt.original_price
            &&& t.amount == config.bet_amount
            &&& t.interval_ts == ts
            &&& t.timestamp == now
            &&& only_window(state, after, asset, ts, count_in(state, asset, ts) + 1)
            &&& begun.place_order
            &&& begun.notices == seq![
                NoticeView::executing(
                    0,
                    config.max_retries as nat,
                    asset,
                    attempt.side,
                    attempt.original_price,
                    config.bet_amount,
                    attempt.token_id,
                ),
            ]
        }),
{
}

/// A first attempt of an asset that was traded as often as it may be puts nothing on record,
/// counts nothing and places no order. The user is told the count and the limit.
pub proof fn law_attempt_at_the_limit_is_refused(
    attempt: AttemptView,
    state: StateView,
    config: TradingConfig,
    has_client: bool,
    now: UtcInstant,
)
    requires
        attempt.retry_count == 0,
        count_in(state, asset_name(attempt.market_slug), state.next_interval)
            >= config.max_asset_trades,
    ensures
        ({
            let begun = attempt.begin(state, config, has_client, now);
            let asset = asset_name(attempt.market_slug);
            let ts = state.next_interval;
            let count = count_in(state, asset, ts);
            &&& begun.state == StateView { windows: begun.state.windows, ..state }
            &&& only_window(state, begun.state, asset, ts, count)
            &&& !begun.place_order
            &&& begun.notices == seq![
                NoticeView::limit_reached(
                    asset,
                    count as nat,
                    config.max_asset_trades as nat,
                    attempt.side,
                ),
            ]
        }),
{
}

/// A first attempt without an account, where trading is enabled, is counted and does nothing else.
pub proof fn law_attempt_without_account_is_only_counted(
    attempt: AttemptView,
    state: StateView,
    config: TradingConfig,
    now: UtcInstant,
)
    requires
        attempt.retry_count == 0,
        config.enabled,
        count_in(state, asset_name(attempt.market_slug), state.next_interval)
            < config.max_asset_trades,
    ensures
        ({
            let begun = attempt.begin(state, config, false, now);
            let asset = asset_name(attempt.market_slug);
            let ts = state.next_interval;
            &&& begun.state == StateView { windows: begun.state.windows, ..state }
            &&& only_window(state, begun.state, asset, ts, count_in(state, asset, ts) + 1)
            &&& !begun.place_order
            &&& begun.notices.len() == 0
        }),
{
}

/// Another attempt that is simulated puts one trade before all others, as the first one does, but
/// at the current ask of its side, and its first price where there is none. Nothing is counted.
pub proof fn law_simulated_retry_is_a_trade_at_the_ask(
    attempt: AttemptView,
    state: StateView,
    config: TradingConfig,
    has_client: bool,
    now: UtcInstant,
)
    requires
        attempt.retry_count > 0,
        !config.enabled,
        state.prices.contains_key(attempt.market_slug),
    ensures
        ({
            let begun = attempt.begin(state, config, has_client, now);
            let after = begun.state;
            let prices = state.prices[attempt.market_slug];
            let t = after.trades[0];
            &&& after == state.with_trades(after.trades)
            &&& after.trades.len() == state.trades.len() + 1
            &&& forall|i: int|
                0 <= i < state.trades.len() ==> after.trades[i + 1] == #[trigger] state.trades[i]
            &&& t.status == TradeStatus::Success
            &&& t.result is None
            &&& t.market_slug == attempt.market_slug
            &&& t.asset == asset_name(attempt.market_slug)
            &&& t.side == attempt.side
            &&& t.price == match if attempt.side == "UP"@ {
                prices.up_best_ask
            } else {
                prices.down_best_ask
            } {
                Some(ask) => ask,
                None => attempt.original_price,
            }
            &&& t.amount == config.bet_amount
            &&& t.interval_ts == state.next_interval
            &&& t.timestamp == now
            &&& t.order_id == Some("SIM_"@ + int_text(now.secs as int))
            &&& !begun.place_order
        }),
{
}

/// Whether a trade is a pending one of the market, the asset and the side of an attempt.
pub open spec fn waits_for_order_of(t: TradeView, attempt: AttemptView) -> bool {
    &&& t.market_slug == attempt.market_slug
    &&& t.asset == asset_name(attempt.market_slug)
    &&& t.side == attempt.side
    &&& t.status == TradeStatus::Pending
}

/// Another attempt for a market without prices does nothing but tell so.
pub proof fn law_retry_without_prices_is_given_up(
    attempt: AttemptView,
    state: StateView,
    config: TradingConfig,
    has_client: bool,
    now: UtcInstant,
)
    requires
        attempt.retry_count > 0,
        !state.prices.contains_key(attempt.market_slug),
    ensures
        ({
            let begun = attempt.begin(state, config, has_client, now);
            &&& begun.state == state
            &&& !begun.place_order
            &&& begun.notices == seq![
                NoticeView::cannot_retry(asset_name(attempt.market_slug), attempt.side),
            ]
        }),
{
}

/// Another attempt with an account places the order again. Its price is the current ask of its
/// side, and its first price where there is none; the newest pending trade of its market and side,
/// at place `i`, takes it over. Nothing is counted, and no other trade changes.
pub proof fn law_retry_is_placed_at_the_ask_of_its_side(
    attempt: AttemptView,
    state: StateView,
    config: TradingConfig,
    now: UtcInstant,
    i: int,
)
    requires
        attempt.retry_count > 0,
        config.enabled,
        state.prices.contains_key(attempt.market_slug),
        0 <= i <= state.trades.len(),
        i < state.trades.len() ==> waits_for_order_of(state.trades[i], attempt),
        forall|j: int| 0 <= j < i ==> !waits_for_order_of(#[trigger] state.trades[j], attempt),
    ensures
        ({
            let begun = attempt.begin(state, config, true, now);
            let prices = state.prices[attempt.market_slug];
            let price = match if attempt.side == "UP"@ {
                prices.up_best_ask
            } else {
                prices.down_best_ask
            } {
                Some(ask) => ask,
                None => attempt.original_price,
            };
            &&& begun.place_order
            &&& begun.state == state.with_trades(begun.state.trades)
            &&& begun.state.trades == if i < state.trades.len() {
                state.trades.update(i, TradeView { price, ..state.trades[i] })
            } else {
                state.trades
            }
            &&& begun.notices == seq![
                NoticeView::executing(
                    attempt.retry_count as nat,
                    config.max_retries as nat,
                    asset_name(attempt.market_slug),
                    attempt.side,
                    price,
                    config.bet_amount,
                    attempt.token_id,
                ),
            ]
        }),
{
    lemma_first_pending(state.trades, attempt, i);
}

/// The first pending trade of an attempt is at place `i`.
proof fn lemma_first_pending(trades: Seq<TradeView>, attempt: AttemptView, i: int)
    requires
        0 <= i <= trades.len(),
        i < trades.len() ==> waits_for_order_of(trades[i], attempt),
        forall|j: int| 0 <= j < i ==> !waits_for_order_of(#[trigger] trades[j], attempt),
    ensures
        first_where(
            trades,
            is_trade(
                attempt.market_slug,
                asset_name(attempt.market_slug),
                attempt.side,
                TradeStatus::Pending,
            ),
        ) == i,
{
    let p = is_trade(
        attempt.market_slug,
        asset_name(attempt.market_slug),
        attempt.side,
        TradeStatus::Pending,
    );
    assert forall|j: int| 0 <= j < i implies !p(#[trigger] trades[j]) by {
        assert(!waits_for_order_of(trades[j], attempt));
    }
    lemma_first_where(trades, p, i);
}

/// A filled order makes the newest pending trade of its market and side without an order, at place
/// `i`, a successful one with the order's id, where no newer trade has that id. No other trade
/// changes, nothing else does, and the order is not placed again.
pub proof fn law_filled_order_settles_the_newest_pending_trade(
    attempt: AttemptView,
    state: StateView,
    config: TradingConfig,
    id: Seq<char>,
    i: int,
)
    requires
        0 <= i < state.trades.len(),
        waits_for_order_of(state.trades[i], attempt),
        state.trades[i].order_id is None,
        forall|j: int|
            0 <= j < i ==> !(waits_for_order_of(#[trigger] state.trades[j], attempt)
                && state.trades[j].order_id is None),
        forall|j: int| 0 <= j < i ==> (#[trigger] state.trades[j]).order_id != Some(id),
    ensures
        ({
            let settled = attempt.settle(state, config, OutcomeView::Filled(Some(id)));
            &&& settled.state == state.with_trades(
                state.trades.update(
                    i,
                    TradeView {
                        status: TradeStatus::Success,
                        order_id: Some(id),
                        ..state.trades[i]
                    },
                ),
            )
            &&& settled.retry is None
            &&& settled.notices == seq![NoticeView::filled(id, attempt.retry_count as nat)]
        }),
{
    let name = asset_name(attempt.market_slug);
    let p = is_unordered(attempt.market_slug, name, attempt.side);
    assert forall|j: int| 0 <= j < i implies !p(#[trigger] state.trades[j]) by {
        assert(!(waits_for_order_of(state.trades[j], attempt)
            && state.trades[j].order_id is None));
    }
    lemma_first_where(state.trades, p, i);
    let ordered = change_first(state.trades, p, with_order(id));
    assert(ordered == state.trades.update(i, with_order(id)(state.trades[i])));
    assert forall|j: int| 0 <= j < i implies !has_order(id)(#[trigger] ordered[j]) by {
        assert(state.trades[j].order_id != Some(id));
    }
    lemma_first_where(ordered, has_order(id), i);
    let done = attempt.settle(state, config, OutcomeView::Filled(Some(id))).state.trades;
    assert(done =~= state.trades.update(
        i,
        TradeView { status: TradeStatus::Success, order_id: Some(id), ..state.trades[i] },
    ));
}

/// A filled order without an id changes nothing, and is not placed again.
pub proof fn law_filled_order_without_id_changes_nothing(
    attempt: AttemptView,
    state: StateView,
    config: TradingConfig,
)
    ensures
        ({
            let settled = attempt.settle(state, config, OutcomeView::Filled(None));
            &&& settled.state == state
            &&& settled.retry is None
            &&& settled.notices == seq![
                NoticeView::filled("unknown"@, attempt.retry_count as nat),
            ]
        }),
{
}

/// The error of an order that was not filled, on one line; `Unknown error` where the answer has
/// none. Of an order that could not be placed the error is told as it is.
pub open spec fn told_error(outcome: OutcomeView) -> Seq<char> {
    match outcome {
        OutcomeView::Unfilled(Some(error)) => one_line(error),
        OutcomeView::Unfilled(None) => one_line("Unknown error"@),
        OutcomeView::Failed(error) => error,
        OutcomeView::Filled(_) => Seq::empty(),
    }
}

/// An order that was not filled is placed again as long as fewer attempts were made again than
/// may be: the same attempt, with the next number. Nothing changes before that.
pub proof fn law_order_is_placed_again(
    attempt: AttemptView,
    state: StateView,
    config: TradingConfig,
    outcome: OutcomeView,
)
    requires
        outcome !is Filled,
        attempt.retry_count < config.max_retries,
    ensures
        ({
            let settled = attempt.settle(state, config, outcome);
            let next = (attempt.retry_count + 1) as nat;
            let max = config.max_retries as nat;
            &&& settled.state == state
            &&& settled.retry matches Some(retry) && {
                &&& retry.market_slug == attempt.market_slug
                &&& retry.token_id == attempt.token_id
                &&& retry.side == attempt.side
                &&& retry.original_price == attempt.original_price
                &&& retry.retry_count == attempt.retry_count + 1
            }
            &&& settled.notices == seq![
                if outcome is Unfilled {
                    NoticeView::retry_unfilled(told_error(outcome), next, max)
                } else {
                    NoticeView::retry_failed(told_error(outcome), next, max)
                },
            ]
        }),
{
}

/// An order that was not filled, and is not placed again, makes the newest pending trade of its
/// market and side, at place `i`, a failed one. No other trade changes, and nothing else does.
pub proof fn law_last_failure_fails_the_newest_pending_trade(
    attempt: AttemptView,
    state: StateView,
    config: TradingConfig,
    outcome: OutcomeView,
    i: int,
)
    requires
        outcome !is Filled,
        attempt.retry_count >= config.max_retries,
        0 <= i <= state.trades.len(),
        i < state.trades.len() ==> waits_for_order_of(state.trades[i], attempt),
        forall|j: int| 0 <= j < i ==> !waits_for_order_of(#[trigger] state.trades[j], attempt),
    ensures
        ({
            let settled = attempt.settle(state, config, outcome);
            &&& settled.retry is None
            &&& settled.state == state.with_trades(
                if i < state.trades.len() {
                    state.trades.update(
                        i,
                        TradeView { status: TradeStatus::Failed, ..state.trades[i] },
                    )
                } else {
                    state.trades
                },
            )
            &&& settled.notices == seq![
                NoticeView::gave_up(
                    config.max_retries as nat,
                    asset_name(attempt.market_slug),
                    attempt.side,
                    told_error(outcome),
                ),
            ]
        }),
{
    lemma_first_pending(state.trades, attempt, i);
}

/// Whether a trade is one that the evaluation of an interval is about, of a market with prices.
pub open spec fn is_judged(state: StateView, t: TradeView, ts: i64) -> bool {
    &&& t.interval_ts == ts
    &&& t.status == TradeStatus::Success
    &&& t.result is None
    &&& state.prices.contains_key(t.market_slug)
}

/// Whether the ask of the side of a trade is there and above the winning price.
pub open spec fn ask_has_won(state: StateView, t: TradeView) -> bool {
    let prices = state.prices[t.market_slug];
    let ask = if t.side == "UP"@ {
        prices.up_best_ask
    } else {
        prices.down_best_ask
    };
    ask matches Some(price) && (Number { bits: WIN_PRICE_BITS }).lt(price)
}

/// The evaluation of an interval gives each successful trade of that interval without a result,
/// whose market has prices, the result `WIN` where the ask of its side is above the winning price,
/// else `LOSS`. All other trades stay, all trades keep their places, and nothing else changes.
pub proof fn law_trade_is_judged_by_the_ask_of_its_side(state: StateView, ts: i64)
    ensures
        ({
            let after = state.evaluated(ts);
            &&& after == state.with_trades(after.trades)
            &&& after.trades.len() == state.trades.len()
            &&& forall|i: int|
                0 <= i < state.trades.len() ==> #[trigger] after.trades[i] == if is_judged(
                    state,
                    state.trades[i],
                    ts,
                ) {
                    TradeView {
                        result: Some(
                            if ask_has_won(state, state.trades[i]) {
                                "WIN"@
                            } else {
                                "LOSS"@
                            },
                        ),
                        ..state.trades[i]
                    }
                } else {
                    state.trades[i]
                }
        }),
{
}

/// The evaluation tells of each trade that it judges, in their order: the asset, the side, the
/// result and the ask of the side, zero where there is none.
pub proof fn law_evaluation_tells_each_result(
    state: StateView,
    trades: Seq<TradeView>,
    t: TradeView,
    ts: i64,
)
    ensures
        ({
            let before = result_notices(trades, state.prices, ts);
            let after = result_notices(trades.push(t), state.prices, ts);
            let prices = state.prices[t.market_slug];
            if is_judged(state, t, ts) {
                after == before.push(
                    NoticeView::evaluated(
                        t.asset,
                        t.side,
                        if ask_has_won(state, t) {
                            "WIN"@
                        } else {
                            "LOSS"@
                        },
                        ask_or_none(
                            if t.side == "UP"@ {
                                prices.up_best_ask
                            } else {
                                prices.down_best_ask
                            },
                        ),
                    ),
                )
            } else {
                after == before
            }
        }),
        result_notices(Seq::empty(), state.prices, ts).len() == 0,
{
    assert(trades.push(t).drop_last() =~= trades);
    assert(trades.push(t).last() == t);
}

/// After the results the evaluation tells how many there were, where there was any.
pub proof fn law_evaluation_tells_the_number_of_results(state: StateView, ts: i64)
    ensures
        ({
            let results = result_notices(state.trades, state.prices, ts);
            let told = state.evaluation_notices(ts);
            &&& results.len() == 0 ==> told.len() == 0
            &&& results.len() > 0 ==> told == results.push(
                NoticeView::evaluation_done(results.len(), ts as int),
            )
        }),
{
}

/// The status of a trade is changed by its order: that of the newest one with the order changes,
/// at place `i`, and nothing else does.
pub proof fn law_status_goes_to_the_newest_trade_with_the_order(
    state: StateView,
    id: Seq<char>,
    status: TradeStatus,
    i: int,
)
    requires
        0 <= i <= state.trades.len(),
        i < state.trades.len() ==> state.trades[i].order_id == Some(id),
        forall|j: int| 0 <= j < i ==> (#[trigger] state.trades[j]).order_id != Some(id),
    ensures
        state.with_order_status(id, status) == state.with_trades(
            if i < state.trades.len() {
                state.trades.update(i, TradeView { status, ..state.trades[i] })
            } else {
                state.trades
            },
        ),
{
    lemma_first_where(state.trades, has_order(id), i);
}

/// Whether a trade is of a market, an asset and a side, and has a status.
pub open spec fn is_of(
    t: TradeView,
    slug: Seq<char>,
    asset: Seq<char>,
    side: Seq<char>,
    status: TradeStatus,
) -> bool {
    &&& t.market_slug == slug
    &&& t.asset == asset
    &&& t.side == side
    &&& t.status == status
}

/// A failure and a new price go to the newest pending trade of the market, the asset and the side,
/// at place `i`, and nothing else changes.
pub proof fn law_failure_and_price_go_to_the_newest_pending_trade(
    state: StateView,
    slug: Seq<char>,
    asset: Seq<char>,
    side: Seq<char>,
    price: Number,
    i: int,
)
    requires
        0 <= i <= state.trades.len(),
        i < state.trades.len() ==> is_of(
            state.trades[i],
            slug,
            asset,
            side,
            TradeStatus::Pending,
        ),
        forall|j: int|
            0 <= j < i ==> !is_of(
                #[trigger] state.trades[j],
                slug,
                asset,
                side,
                TradeStatus::Pending,
            ),
    ensures
        state.with_trade_failed(slug, asset, side) == state.with_trades(
            if i < state.trades.len() {
                state.trades.update(
                    i,
                    TradeView { status: TradeStatus::Failed, ..state.trades[i] },
                )
            } else {
                state.trades
            },
        ),
        state.with_trade_price(slug, asset, side, price) == state.with_trades(
            if i < state.trades.len() {
                state.trades.update(i, TradeView { price, ..state.trades[i] })
            } else {
                state.trades
            },
        ),
{
    let p = is_trade(slug, asset, side, TradeStatus::Pending);
    assert forall|j: int| 0 <= j < i implies !p(#[trigger] state.trades[j]) by {
        assert(!is_of(state.trades[j], slug, asset, side, TradeStatus::Pending));
    }
    lemma_first_where(state.trades, p, i);
}

/// An order goes to the newest pending trade of the market, the asset and the side that has none,
/// at place `i`, and nothing else changes.
pub proof fn law_order_goes_to_the_newest_pending_trade_without_one(
    state: StateView,
    slug: Seq<char>,
    asset: Seq<char>,
    side: Seq<char>,
    id: Seq<char>,
    i: int,
)
    requires
        0 <= i <= state.trades.len(),
        i < state.trades.len() ==> is_of(
            state.trades[i],
            slug,
            asset,
            side,
            TradeStatus::Pending,
        ) && state.trades[i].order_id is None,
        forall|j: int|
            0 <= j < i ==> !(is_of(
                #[trigger] state.trades[j],
                slug,
                asset,
                side,
                TradeStatus::Pending,
            ) && state.trades[j].order_id is None),
    ensures
        state.with_trade_order(slug, asset, side, id) == state.with_trades(
            if i < state.trades.len() {
                state.trades.update(i, TradeView { order_id: Some(id), ..state.trades[i] })
            } else {
                state.trades
            },
        ),
{
    let p = is_unordered(slug, asset, side);
    assert forall|j: int| 0 <= j < i implies !p(#[trigger] state.trades[j]) by {
        assert(!(is_of(state.trades[j], slug, asset, side, TradeStatus::Pending)
            && state.trades[j].order_id is None));
    }
    lemma_first_where(state.trades, p, i);
}

/// A result goes to the newest successful trade of the market, the asset and the side that has
/// none, at place `i`, and nothing else changes.
pub proof fn law_result_goes_to_the_newest_successful_trade_without_one(
    state: StateView,
    slug: Seq<char>,
    asset: Seq<char>,
    side: Seq<char>,
    result: Seq<char>,
    i: int,
)
    requires
        0 <= i <= state.trades.len(),
        i < state.trades.len() ==> is_of(
            state.trades[i],
            slug,
            asset,
            side,
            TradeStatus::Success,
        ) && state.trades[i].result is None,
        forall|j: int|
            0 <= j < i ==> !(is_of(
                #[trigger] state.trades[j],
                slug,
                asset,
                side,
                TradeStatus::Success,
            ) && state.trades[j].result is None),
    ensures
        state.with_trade_result(slug, asset, side, result) == state.with_trades(
            if i < state.trades.len() {
                state.trades.update(i, TradeView { result: Some(result), ..state.trades[i] })
            } else {
                state.trades
            },
        ),
{
    let p = is_unsettled(slug, asset, side);
    assert forall|j: int| 0 <= j < i implies !p(#[trigger] state.trades[j]) by {
        assert(!(is_of(state.trades[j], slug, asset, side, TradeStatus::Success)
            && state.trades[j].result is None));
    }
    lemma_first_where(state.trades, p, i);
}

/// An asset is under its limit exactly where fewer trades of it are counted for the interval. An
/// attempt counts one where it is, and none where it is not; counting counts one. Each leaves the
/// asset with the window of that interval, and changes nothing else.
pub proof fn law_counting_changes_one_window(
    state: StateView,
    asset: Seq<char>,
    max: u32,
    ts: i64,
)
    requires
        count_in(state, asset, ts) < u32::MAX,
    ensures
        ({
            let count = count_in(state, asset, ts);
            let tried = state.attempted(asset, max, ts);
            let counted = state.counted(asset, ts);
            let looked = state.rolled(asset, ts);
            &&& state.under_limit(asset, max, ts) <==> count < max
            &&& state.window_of(asset, ts) == AssetTradeWindow {
                trade_count: count as u32,
                window_start: ts,
            }
            &&& only_window(
                state,
                tried,
                asset,
                ts,
                if count < max {
                    count + 1
                } else {
                    count
                },
            )
            &&& only_window(state, counted, asset, ts, count + 1)
            &&& only_window(state, looked, asset, ts, count)
            &&& tried == StateView { windows: tried.windows, ..state }
            &&& counted == StateView { windows: counted.windows, ..state }
            &&& looked == StateView { windows: looked.windows, ..state }
        }),
{
}

/// A new trade is the first, all others follow it unchanged, and nothing else changes.
pub proof fn law_new_trade_is_the_first(state: StateView, t: TradeView)
    ensures
        state.traded(t).trades.len() == state.trades.len() + 1,
        state.traded(t).trades[0] == t,
        forall|i: int|
            0 <= i < state.trades.len() ==> state.traded(t).trades[i + 1]
                == #[trigger] state.trades[i],
        state.traded(t) == state.with_trades(state.traded(t).trades),
{
}

/// An account signs in with its own key and, whatever its signatures are, with its proxy address as
/// the one that pays, where it has one. Number 1 stands for a proxy, 2 for a Gnosis safe, and any
/// other for an account of one's own. A key or an address that cannot be read is an error, the key
/// first.
pub proof fn law_sign_in_takes_the_whole_account(client: ClientView)
    ensures
        plan_for(client) matches Ok(plan) <==> {
            &&& private_key_in(client.private_key) is Ok
            &&& client.proxy_address.len() > 0 ==> address_in(client.proxy_address) is Ok
        },
        plan_for(client) matches Ok(plan) ==> {
            &&& private_key_in(client.private_key) == Ok::<Seq<u8>, Seq<char>>(plan.private_key)
            &&& plan.funder matches Some(address) ==> client.proxy_address.len() > 0
                && address_in(client.proxy_address) == Ok::<Seq<u8>, Seq<char>>(address)
            &&& plan.funder is None ==> client.proxy_address.len() == 0
            &&& plan.signature_kind == SignatureKind::Proxy <==> client.signature_type == 1
            &&& plan.signature_kind == SignatureKind::GnosisSafe <==> client.signature_type == 2
        },
        private_key_in(client.private_key) matches Err(message) ==> plan_for(client) == Err::<
            PlanView,
            AuthErrorView,
        >(AuthErrorView::PrivateKey(message)),
        private_key_in(client.private_key) is Ok && client.proxy_address.len() > 0 ==> (
        address_in(client.proxy_address) matches Err(message) ==> plan_for(client) == Err::<
            PlanView,
            AuthErrorView,
        >(AuthErrorView::ProxyAddress(message))),
{
}

/// An account is that of the configuration, and has not signed in.
pub proof fn law_account_is_that_of_the_configuration(config: TradingConfig)
    ensures
        client_of(config).session is None,
        client_of(config).private_key == config.private_key@,
        client_of(config).proxy_address == config.proxy_address@,
        client_of(config).signature_type == config.signature_type,
{
}

} // verus!
