//! The course of a session: a new interval, its markets, and the start of trading.
use vstd::prelude::*;
use vstd::string::*;

use crate::clock::utc_now;
use crate::clock::TimeSpan;
use crate::clock::UtcInstant;
use crate::gamma_api::interval_end;
use crate::gamma_api::interval_start;
use crate::gamma_api::is_market_info;
use crate::gamma_api::sheet_in_event;
use crate::gamma_api::GammaApiClient;
use crate::gamma_api::GammaEventResponse;
use crate::gamma_api::ParseError;
use crate::gamma_api::ParsedMarketInfo;
use crate::notice::notice_views;
use crate::notice::Notice;
use crate::notice::NoticeView;
use crate::number::Number;
use crate::state::text_views;
use crate::state::AppState;
use crate::state::StateView;
use crate::text::asset_name;
use crate::text::asset_of;
use crate::trading::TradingMonitor;

verus! {

/// The seconds to wait where the end of the interval has already passed.
pub const FALLBACK_WAIT_SECONDS: u64 = 60;

/// The milliseconds between two rounds of the trading task.
pub const ROUND_MILLIS: u64 = 500;

/// The milliseconds that the trading task rests after it has looked at all markets.
pub const REST_MILLIS: u64 = 100;

/// The seconds to wait after a sign-in that failed.
pub const SIGN_IN_WAIT_SECONDS: u64 = 5;

/// The seconds for which the exchange is given time to open the markets of a new interval.
pub const GRACE_SECONDS: u64 = 5;

impl StateView {
    /// After an interval has ended: the price feed is to be connected anew, and the trades of the
    /// interval are evaluated.
    pub open spec fn rolled_over(self) -> StateView {
        StateView {
            ws_connected: false,
            reconnect: true,
            ..if self.next_interval > 0 {
                self.evaluated(self.next_interval)
            } else {
                self
            }
        }
    }

    /// At the start of the interval that the second `secs` lies in. The first interval of a
    /// session follows none.
    pub open spec fn refreshed(self, first: bool, secs: int) -> StateView {
        StateView {
            next_interval: interval_end(secs) as i64,
            tags: Map::empty(),
            ..if first {
                self
            } else {
                self.rolled_over()
            }
        }
    }

    /// What the start of an interval tells.
    pub open spec fn refresh_notices(self, first: bool, secs: int) -> Seq<NoticeView> {
        let results = if !first && self.next_interval > 0 {
            self.evaluation_notices(self.next_interval)
        } else {
            Seq::empty()
        };
        results + seq![
            NoticeView::awaiting_markets(),
            NoticeView::fetching_markets(interval_start(secs)),
        ]
    }
}

/// The start of an interval: when it is, and what it tells.
#[derive(Clone, Debug)]
pub struct RefreshStart {
    pub interval_ts: i64,
    pub notices: Vec<Notice>,
}

/// Starts the current interval, as of now.
pub fn begin_refresh(state: &mut AppState, first: bool) -> (r: RefreshStart)
    ensures
        exists|now: UtcInstant|
            {
                &&& now.valid()
                &&& final(state)@ == #[trigger] old(state)@.refreshed(first, now.secs as int)
                &&& r.interval_ts == interval_start(now.secs as int)
                &&& notice_views(r.notices@) == old(state)@.refresh_notices(first, now.secs as int)
            },
{
    let now = utc_now();
    begin_refresh_at(state, first, now)
}

/// Starts the interval that `now` lies in.
pub fn begin_refresh_at(state: &mut AppState, first: bool, now: UtcInstant) -> (r: RefreshStart)
    requires
        now.valid(),
    ensures
        final(state)@ == old(state)@.refreshed(first, now.secs as int),
        r.interval_ts == interval_start(now.secs as int),
        notice_views(r.notices@) == old(state)@.refresh_notices(first, now.secs as int),
{
    let ghost before = state@;
    let mut notices: Vec<Notice> = Vec::new();
    if !first {
        state.set_ws_connected(false);
        state.request_ws_reconnect();
        let next_ts = state.next_interval;
        if next_ts > 0 {
            notices = TradingMonitor::evaluate_trades_at_interval_end(state, next_ts);
        }
        assert(state@ =~= before.rolled_over());
    }
    let ghost results = notice_views(notices@);
    let current_ts = GammaApiClient::current_5min_timestamp_at(now);
    let next_ts = GammaApiClient::next_5min_timestamp_after(now);
    state.set_next_interval(next_ts);
    notices.push(Notice::awaiting_markets());
    notices.push(Notice::fetching_markets(current_ts));
    state.reset_tag_states();
    proof {
        assert(notice_views(notices@) =~= results + seq![
            NoticeView::awaiting_markets(),
            NoticeView::fetching_markets(interval_start(now.secs as int)),
        ]);
        assert(results =~= if !first && before.next_interval > 0 {
            before.evaluation_notices(before.next_interval)
        } else {
            Seq::empty()
        });
        assert(state@ =~= before.refreshed(first, now.secs as int));
    }
    RefreshStart { interval_ts: current_ts, notices }
}

/// What came of asking for a market.
#[derive(Clone, Debug)]
pub enum FetchedMarket {
    Loaded(ParsedMarketInfo),
    Unreadable(ParseError),
    Unfetched(String),
}

/// Reads the answer to a question for a market: an event, or a message why there is none.
/// `read_price` reads a price in decimal.
pub fn read_answer<F: Fn(&str) -> Option<Number>>(
    answer: Result<GammaEventResponse, String>,
    read_price: F,
) -> (r: FetchedMarket)
    requires
        forall|text: &str| call_requires(read_price, (text,)),
    ensures
        match answer {
            Err(message) => r == FetchedMarket::Unfetched(message),
            Ok(event) => match sheet_in_event(event) {
                Err(e) => r == FetchedMarket::Unreadable(e),
                Ok(sheet) => exists|
                    up_text: &str,
                    up: Option<Number>,
                    down_text: &str,
                    down: Option<Number>,
                |
                    {
                        &&& up_text@ == sheet.up_price
                        &&& #[trigger] call_ensures(read_price, (up_text,), up)
                        &&& down_text@ == sheet.down_price
                        &&& #[trigger] call_ensures(read_price, (down_text,), down)
                        &&& match r {
                            FetchedMarket::Loaded(info) => is_market_info(
                                Ok(info),
                                event,
                                sheet,
                                up,
                                down,
                            ),
                            FetchedMarket::Unreadable(e) => is_market_info(
                                Err(e),
                                event,
                                sheet,
                                up,
                                down,
                            ),
                            FetchedMarket::Unfetched(_) => false,
                        }
                    },
            },
        },
{
    match answer {
        Ok(event) => match GammaApiClient::parse_market_info(&event, read_price) {
            Ok(info) => FetchedMarket::Loaded(info),
            Err(e) => FetchedMarket::Unreadable(e),
        },
        Err(message) => FetchedMarket::Unfetched(message),
    }
}

/// What the user is told of a market that was asked for.
pub open spec fn market_notice(event_slug: Seq<char>, fetched: FetchedMarket) -> NoticeView {
    match fetched {
        FetchedMarket::Loaded(info) => NoticeView::loaded(asset_name(info.ticker@)),
        FetchedMarket::Unreadable(e) => NoticeView::unreadable(event_slug, e.text()),
        FetchedMarket::Unfetched(message) => NoticeView::unfetched(event_slug, message@),
    }
}

/// Takes what came of asking for a market, as of now.
pub fn take_market(
    state: &mut AppState,
    market_slug: String,
    event_slug: &str,
    fetched: FetchedMarket,
) -> (r: Notice)
    ensures
        r@ == market_notice(event_slug@, fetched),
        match fetched {
            FetchedMarket::Loaded(info) => exists|at: UtcInstant|
                at.valid() && final(state)@ == #[trigger] old(state)@.tracking(
                    market_slug@,
                    info,
                    at,
                ),
            _ => final(state)@ == old(state)@,
        },
{
    let now = utc_now();
    take_market_at(state, market_slug, event_slug, fetched, now)
}

/// Takes what came of asking for a market, as of `now`.
pub fn take_market_at(
    state: &mut AppState,
    market_slug: String,
    event_slug: &str,
    fetched: FetchedMarket,
    now: UtcInstant,
) -> (r: Notice)
    ensures
        r@ == market_notice(event_slug@, fetched),
        final(state)@ == match fetched {
            FetchedMarket::Loaded(info) => old(state)@.tracking(market_slug@, info, now),
            _ => old(state)@,
        },
{
    match fetched {
        FetchedMarket::Loaded(info) => {
            let asset = asset_of(info.ticker.as_str());
            state.add_market_at(market_slug, info, now);
            Notice::loaded(asset.as_str())
        },
        FetchedMarket::Unreadable(e) => Notice::unreadable(event_slug, e.message().as_str()),
        FetchedMarket::Unfetched(message) => Notice::unfetched(event_slug, message.as_str()),
    }
}

/// How long to wait for the next interval, and what to tell of it.
#[derive(Clone, Debug)]
pub struct RefreshWait {
    pub seconds: u64,
    pub nanos: u32,
    pub notice: Notice,
}

/// The nanoseconds to wait for an interval that ends after `span`.
pub open spec fn wait_nanos(span: TimeSpan) -> int {
    if span.nanos < 0 {
        FALLBACK_WAIT_SECONDS * 1_000_000_000
    } else {
        span.nanos as int
    }
}

/// The time from `now` until the end of the interval that `later` lies in.
pub open spec fn until_interval_end(now: UtcInstant, later: UtcInstant) -> TimeSpan {
    TimeSpan {
        nanos: (interval_end(later.secs as int) * 1_000_000_000 - now.total_nanos()) as i128,
    }
}

/// Whether `wait` is that many nanoseconds, in whole seconds and the rest, and tells of the
/// seconds.
pub open spec fn is_wait(wait: RefreshWait, nanos: int) -> bool {
    &&& wait.seconds * 1_000_000_000 + wait.nanos == nanos
    &&& wait.nanos < 1_000_000_000
    &&& wait.notice@ == NoticeView::next_refresh(wait.seconds as nat)
}

/// How long to wait for the next interval, as of now.
pub fn refresh_wait() -> (r: RefreshWait)
    ensures
        exists|now: UtcInstant, later: UtcInstant|
            {
                &&& now.valid()
                &&& later.valid()
                &&& is_wait(r, wait_nanos(#[trigger] until_interval_end(now, later)))
            },
{
    let span = GammaApiClient::time_until_next_interval();
    proof {
        let (now, later) = choose|now: UtcInstant, later: UtcInstant|
            {
                &&& now.valid()
                &&& later.valid()
                &&& span.nanos == #[trigger] interval_end(later.secs as int) * 1_000_000_000
                    - #[trigger] now.total_nanos()
            };
        assert(span == until_interval_end(now, later));
    }
    refresh_wait_for(span)
}

/// How long to wait for an interval that ends after `span`. Where that has passed, a fixed time.
pub fn refresh_wait_for(span: TimeSpan) -> (r: RefreshWait)
    requires
        span.nanos < 1_000_000_000 * (i64::MAX + 1),
    ensures
        is_wait(r, wait_nanos(span)),
{
    let nanos: i128 = if span.nanos < 0 {
        60_000_000_000
    } else {
        span.nanos
    };
    let seconds: u64 = (nanos / 1_000_000_000) as u64;
    let rest: u32 = (nanos % 1_000_000_000) as u32;
    RefreshWait { seconds, nanos: rest, notice: Notice::next_refresh(seconds) }
}

/// What the trading task is to do next.
#[derive(Clone, Copy, PartialEq, Eq, Structural, Debug)]
pub enum TradingStep {
    /// There is nothing to do yet.
    Wait,
    /// Sign in to the exchange.
    SignIn,
    /// Look at the markets.
    Monitor,
}

/// What the trading task is to do next: before the first interval nothing; then it signs in, as
/// soon as all of the configured markets are there; then it looks at the markets.
pub open spec fn trading_step(state: StateView, signed_in: bool, configured: nat) -> TradingStep {
    if state.next_interval == 0 {
        TradingStep::Wait
    } else if signed_in {
        TradingStep::Monitor
    } else if state.market_order.len() >= configured && state.market_order.len() > 0 {
        TradingStep::SignIn
    } else {
        TradingStep::Wait
    }
}

/// What the trading task is to do next, as [`trading_step`] says.
pub fn next_trading_step(state: &AppState, signed_in: bool, configured: usize) -> (r: TradingStep)
    ensures
        r == trading_step(state@, signed_in, configured as nat),
{
    if state.next_interval == 0 {
        return TradingStep::Wait;
    }
    if signed_in {
        return TradingStep::Monitor;
    }
    let market_count: usize = state.tracked_markets.len();
    if market_count >= configured && market_count > 0 {
        TradingStep::SignIn
    } else {
        TradingStep::Wait
    }
}

/// Starts trading, or its simulation, after the sign-in.
pub fn start_trading(state: &mut AppState, enabled: bool) -> (r: Notice)
    ensures
        if enabled {
            &&& final(state)@ == (StateView { trading_enabled: true, ..old(state)@ })
            &&& r@ == NoticeView::live_trading()
        } else {
            &&& final(state)@ == old(state)@
            &&& r@ == NoticeView::simulating()
        },
{
    if enabled {
        state.trading_enabled = true;
        Notice::live_trading()
    } else {
        Notice::simulating()
    }
}

/// The slugs of the tracked markets, in the order in which they came.
pub fn market_slugs(state: &AppState) -> (r: Vec<String>)
    ensures
        text_views(r@) == state@.market_order,
{
    let mut slugs: Vec<String> = Vec::new();
    let mut i: usize = 0;
    while i < state.tracked_markets.len()
        invariant
            i <= state@.market_order.len(),
            text_views(slugs@) == state@.market_order.take(i as int),
        decreases state@.market_order.len() - i,
    {
        let slug = state.tracked_markets.key_at(i);
        let ghost before = text_views(slugs@);
        slugs.push(slug.clone());
        proof {
            assert(text_views(slugs@) =~= before.push(slug@));
            assert(state@.market_order.take(i + 1) =~= before.push(slug@));
        }
        i = i + 1;
    }
    assert(text_views(slugs@) =~= state@.market_order);
    slugs
}

} // verus!
