//! Markets as the Gamma service describes them, and the five-minute intervals that they run.
use vstd::prelude::*;
use vstd::string::*;

use crate::clock::minute_of;
use crate::clock::second_of;
use crate::clock::utc_now;
use crate::clock::TimeSpan;
use crate::clock::UtcInstant;
use crate::number::Number;
use crate::search::first_where;
use crate::search::lemma_first_where;
use crate::search::lemma_first_where_holds;
use crate::state::text_views;
use crate::text::asset_name;
use crate::text::digit_char;
use crate::text::i64_text;
use crate::text::int_text;
use crate::text::is_char;
use crate::text::nat_text;
use crate::text::same_text;
use crate::text::until_char;

verus! {

/// The seconds of an interval.
pub const INTERVAL_SECONDS: i64 = 300;

/// An event of the Gamma service.
#[derive(Clone, Debug)]
pub struct GammaEventResponse {
    pub id: String,
    pub ticker: String,
    pub slug: String,
    pub title: String,
    pub description: String,
    pub resolution_source: Option<String>,
    pub start_date: Option<String>,
    pub end_date: Option<String>,
    pub active: bool,
    pub closed: bool,
    pub markets: Vec<GammaMarket>,
}

/// A market of an event. Outcomes, their prices and their tokens are lists of texts in JSON.
#[derive(Clone, Debug)]
pub struct GammaMarket {
    pub id: String,
    pub question: String,
    pub condition_id: String,
    pub slug: String,
    pub outcomes: String,
    pub outcome_prices: String,
    pub clob_token_ids: String,
    pub best_bid: Option<Number>,
    pub best_ask: Option<Number>,
    pub last_trade_price: Option<Number>,
}

/// What is known of a tracked market.
#[derive(Clone, Debug)]
pub struct ParsedMarketInfo {
    pub ticker: String,
    pub title: String,
    pub condition_id: String,
    pub up_token_id: String,
    pub down_token_id: String,
    pub up_price: Number,
    pub down_price: Number,
    pub up_best_ask: Option<Number>,
    pub down_best_ask: Option<Number>,
}

/// Why an event gives no market to track.
#[derive(Clone, Copy, PartialEq, Eq, Structural, Debug)]
pub enum ParseError {
    NoMarkets,
    Outcomes,
    OutcomePrices,
    TokenIds,
    WrongCount,
    NoUpOutcome,
    NoDownOutcome,
    UpPrice,
    DownPrice,
}

impl ParseError {
    /// The message for an error.
    pub open spec fn text(self) -> Seq<char> {
        match self {
            ParseError::NoMarkets => "No markets found in event"@,
            ParseError::Outcomes => "Failed to parse outcomes"@,
            ParseError::OutcomePrices => "Failed to parse outcome prices"@,
            ParseError::TokenIds => "Failed to parse CLOB token IDs"@,
            ParseError::WrongCount => "Expected 2 outcomes, prices, and token IDs"@,
            ParseError::NoUpOutcome => "Could not find 'Up' outcome"@,
            ParseError::NoDownOutcome => "Could not find 'Down' outcome"@,
            ParseError::UpPrice => "Failed to parse Up price"@,
            ParseError::DownPrice => "Failed to parse Down price"@,
        }
    }

    /// The message for an error.
    pub fn message(&self) -> (r: String)
        ensures
            r@ == self.text(),
    {
        match self {
            ParseError::NoMarkets => "No markets found in event".to_string(),
            ParseError::Outcomes => "Failed to parse outcomes".to_string(),
            ParseError::OutcomePrices => "Failed to parse outcome prices".to_string(),
            ParseError::TokenIds => "Failed to parse CLOB token IDs".to_string(),
            ParseError::WrongCount => "Expected 2 outcomes, prices, and token IDs".to_string(),
            ParseError::NoUpOutcome => "Could not find 'Up' outcome".to_string(),
            ParseError::NoDownOutcome => "Could not find 'Down' outcome".to_string(),
            ParseError::UpPrice => "Failed to parse Up price".to_string(),
            ParseError::DownPrice => "Failed to parse Down price".to_string(),
        }
    }
}

/// Where the two outcomes of a market stand, their prices as texts, and their tokens.
#[derive(Clone, Debug)]
pub struct OutcomeSheet {
    pub up_idx: usize,
    pub down_idx: usize,
    pub up_price: String,
    pub down_price: String,
    pub up_token_id: String,
    pub down_token_id: String,
}

/// An [`OutcomeSheet`] with its texts as sequences of characters.
#[verifier::ext_equal]
pub struct SheetView {
    pub up_idx: int,
    pub down_idx: int,
    pub up_price: Seq<char>,
    pub down_price: Seq<char>,
    pub up_token_id: Seq<char>,
    pub down_token_id: Seq<char>,
}

impl View for OutcomeSheet {
    type V = SheetView;

    open spec fn view(&self) -> SheetView {
        SheetView {
            up_idx: self.up_idx as int,
            down_idx: self.down_idx as int,
            up_price: self.up_price@,
            down_price: self.down_price@,
            up_token_id: self.up_token_id@,
            down_token_id: self.down_token_id@,
        }
    }
}

/// Of being the text `wanted`.
pub open spec fn is_outcome(wanted: Seq<char>) -> spec_fn(Seq<char>) -> bool {
    |outcome: Seq<char>| outcome == wanted
}

/// The sheet of a market with these outcomes, prices and tokens: two of each, and among the
/// outcomes `Up` and `Down`.
pub open spec fn sheet_of(
    outcomes: Seq<Seq<char>>,
    prices: Seq<Seq<char>>,
    token_ids: Seq<Seq<char>>,
) -> Result<SheetView, ParseError> {
    let up = first_where(outcomes, is_outcome("Up"@));
    let down = first_where(outcomes, is_outcome("Down"@));
    if outcomes.len() != 2 || prices.len() != 2 || token_ids.len() != 2 {
        Err(ParseError::WrongCount)
    } else if up >= 2 {
        Err(ParseError::NoUpOutcome)
    } else if down >= 2 {
        Err(ParseError::NoDownOutcome)
    } else {
        Ok(
            SheetView {
                up_idx: up,
                down_idx: down,
                up_price: prices[up],
                down_price: prices[down],
                up_token_id: token_ids[up],
                down_token_id: token_ids[down],
            },
        )
    }
}

/// What `serde_json` reads in a text as a list of texts; nothing where it is no such list.
pub uninterp spec fn json_texts(text: Seq<char>) -> Option<Seq<Seq<char>>>;

/// The sheet of a market as its texts in JSON give it.
pub open spec fn sheet_in_market(market: GammaMarket) -> Result<SheetView, ParseError> {
    match (
        json_texts(market.outcomes@),
        json_texts(market.outcome_prices@),
        json_texts(market.clob_token_ids@),
    ) {
        (None, _, _) => Err(ParseError::Outcomes),
        (_, None, _) => Err(ParseError::OutcomePrices),
        (_, _, None) => Err(ParseError::TokenIds),
        (Some(outcomes), Some(prices), Some(token_ids)) => sheet_of(outcomes, prices, token_ids),
    }
}

/// The sheet of the first market of an event.
pub open spec fn sheet_in_event(event: GammaEventResponse) -> Result<SheetView, ParseError> {
    if event.markets@.len() == 0 {
        Err(ParseError::NoMarkets)
    } else {
        sheet_in_market(event.markets@[0])
    }
}

/// Whether `r` is what an event gives whose first market has the sheet `sheet` and whose prices
/// read as `up` and `down`. The best ask of the service is that of the outcome that stands first.
pub open spec fn is_market_info(
    r: Result<ParsedMarketInfo, ParseError>,
    event: GammaEventResponse,
    sheet: SheetView,
    up: Option<Number>,
    down: Option<Number>,
) -> bool {
    match (up, down) {
        (None, _) => r == Err::<ParsedMarketInfo, ParseError>(ParseError::UpPrice),
        (Some(_), None) => r == Err::<ParsedMarketInfo, ParseError>(ParseError::DownPrice),
        (Some(up_price), Some(down_price)) => {
            let market = event.markets@[0];
            r matches Ok(info) && {
                &&& info.ticker@ == event.ticker@
                &&& info.title@ == event.title@
                &&& info.condition_id@ == market.condition_id@
                &&& info.up_token_id@ == sheet.up_token_id
                &&& info.down_token_id@ == sheet.down_token_id
                &&& info.up_price == up_price
                &&& info.down_price == down_price
                &&& info.up_best_ask == if sheet.up_idx == 0 {
                    market.best_ask
                } else {
                    None
                }
                &&& info.down_best_ask == if sheet.down_idx == 0 {
                    market.best_ask
                } else {
                    None
                }
            }
        },
    }
}

/// The start of the interval that a second lies in.
pub open spec fn interval_start(secs: int) -> int {
    secs / 300 * 300
}

/// The end of the interval that a second lies in.
pub open spec fn interval_end(secs: int) -> int {
    interval_start(secs) + 300
}

/// The slug of the event of a market at a time.
pub open spec fn event_slug(base_slug: Seq<char>, timestamp: int) -> Seq<char> {
    base_slug + "-"@ + int_text(timestamp)
}

/// An error of `serde_json`.
#[verifier::external_type_specification]
#[verifier::external_body]
pub struct ExJsonError(serde_json::Error);

/// Calls `serde_json::from_str` for a list of texts. What it reads depends on the text alone and
/// is named [`json_texts`].
#[verifier::external_body]
fn read_json_texts(text: &str) -> (r: Result<Vec<String>, serde_json::Error>)
    ensures
        match r {
            Ok(list) => json_texts(text@) == Some(text_views(list@)),
            Err(_) => json_texts(text@) is None,
        },
{
    serde_json::from_str(text)
}

/// The Gamma service.
#[derive(Clone, Debug)]
pub struct GammaApiClient {
    pub base_url: String,
}

impl GammaApiClient {
    /// The service at `base_url`.
    pub fn new(base_url: String) -> (r: GammaApiClient)
        ensures
            r.base_url == base_url,
    {
        GammaApiClient { base_url }
    }

    /// The end of the current interval.
    pub fn get_next_5min_timestamp() -> (r: i64)
        ensures
            exists|now: UtcInstant|
                now.valid() && r == #[trigger] interval_end(now.secs as int),
    {
        let now = utc_now();
        GammaApiClient::next_5min_timestamp_after(now)
    }

    /// The end of the interval that `now` lies in.
    pub fn next_5min_timestamp_after(now: UtcInstant) -> (r: i64)
        requires
            now.valid(),
        ensures
            r == interval_end(now.secs as int),
    {
        let minutes = minute_of(now);
        let seconds = second_of(now);
        let minutes_to_next: u32 = 5 - minutes % 5;
        let minutes_to_add: i64 = if minutes % 5 == 0 && seconds == 0 {
            5
        } else {
            minutes_to_next as i64
        };
        now.secs + minutes_to_add * 60 - seconds as i64
    }

    /// The start of the current interval.
    pub fn get_current_5min_timestamp() -> (r: i64)
        ensures
            exists|now: UtcInstant|
                now.valid() && r == #[trigger] interval_start(now.secs as int),
    {
        let now = utc_now();
        GammaApiClient::current_5min_timestamp_at(now)
    }

    /// The start of the interval that `now` lies in.
    pub fn current_5min_timestamp_at(now: UtcInstant) -> (r: i64)
        requires
            now.valid(),
        ensures
            r == interval_start(now.secs as int),
    {
        now.secs / INTERVAL_SECONDS * INTERVAL_SECONDS
    }

    /// The slug of the event of a market at a time.
    pub fn build_event_slug(base_slug: &str, timestamp: i64) -> (r: String)
        ensures
            r@ == event_slug(base_slug@, timestamp as int),
    {
        let mut slug = base_slug.to_string();
        slug.append("-");
        slug.append(i64_text(timestamp).as_str());
        slug
    }

    /// Where the service answers for an event.
    pub fn event_url(&self, event_slug: &str) -> (r: String)
        ensures
            r@ == self.base_url@ + "/events/slug/"@ + event_slug@,
    {
        let mut url = self.base_url.clone();
        url.append("/events/slug/");
        url.append(event_slug);
        url
    }

    /// The sheet of a market with these outcomes, prices and tokens.
    pub fn outcome_sheet(
        outcomes: &Vec<String>,
        prices: &Vec<String>,
        token_ids: &Vec<String>,
    ) -> (r: Result<OutcomeSheet, ParseError>)
        ensures
            match sheet_of(text_views(outcomes@), text_views(prices@), text_views(token_ids@)) {
                Ok(sheet) => r matches Ok(s) && s@ == sheet,
                Err(e) => r == Err::<OutcomeSheet, ParseError>(e),
            },
    {
        if outcomes.len() != 2 || prices.len() != 2 || token_ids.len() != 2 {
            return Err(ParseError::WrongCount);
        }
        let up_idx = match position_of(outcomes, "Up") {
            Some(i) => i,
            None => {
                return Err(ParseError::NoUpOutcome);
            },
        };
        let down_idx = match position_of(outcomes, "Down") {
            Some(i) => i,
            None => {
                return Err(ParseError::NoDownOutcome);
            },
        };
        Ok(
            OutcomeSheet {
                up_idx,
                down_idx,
                up_price: prices[up_idx].clone(),
                down_price: prices[down_idx].clone(),
                up_token_id: token_ids[up_idx].clone(),
                down_token_id: token_ids[down_idx].clone(),
            },
        )
    }

    /// The sheet of the first market of an event.
    pub fn read_outcomes(event: &GammaEventResponse) -> (r: Result<OutcomeSheet, ParseError>)
        ensures
            match sheet_in_event(*event) {
                Ok(sheet) => r matches Ok(s) && s@ == sheet,
                Err(e) => r == Err::<OutcomeSheet, ParseError>(e),
            },
    {
        if event.markets.len() == 0 {
            return Err(ParseError::NoMarkets);
        }
        let market = &event.markets[0];
        let outcomes = match read_json_texts(market.outcomes.as_str()) {
            Ok(list) => list,
            Err(_) => {
                return Err(ParseError::Outcomes);
            },
        };
        let prices = match read_json_texts(market.outcome_prices.as_str()) {
            Ok(list) => list,
            Err(_) => {
                return Err(ParseError::OutcomePrices);
            },
        };
        let token_ids = match read_json_texts(market.clob_token_ids.as_str()) {
            Ok(list) => list,
            Err(_) => {
                return Err(ParseError::TokenIds);
            },
        };
        GammaApiClient::outcome_sheet(&outcomes, &prices, &token_ids)
    }

    /// The market that an event gives whose first market has the sheet `sheet`, with the prices
    /// that were read from it, as [`is_market_info`] says.
    pub fn market_info(
        event: &GammaEventResponse,
        sheet: OutcomeSheet,
        up_price: Option<Number>,
        down_price: Option<Number>,
    ) -> (r: Result<ParsedMarketInfo, ParseError>)
        requires
            event.markets@.len() > 0,
        ensures
            is_market_info(r, *event, sheet@, up_price, down_price),
    {
        let up_price = match up_price {
            Some(price) => price,
            None => {
                return Err(ParseError::UpPrice);
            },
        };
        let down_price = match down_price {
            Some(price) => price,
            None => {
                return Err(ParseError::DownPrice);
            },
        };
        let market = &event.markets[0];
        Ok(
            ParsedMarketInfo {
                ticker: event.ticker.clone(),
                title: event.title.clone(),
                condition_id: market.condition_id.clone(),
                up_token_id: sheet.up_token_id,
                down_token_id: sheet.down_token_id,
                up_price,
                down_price,
                up_best_ask: if sheet.up_idx == 0 {
                    market.best_ask
                } else {
                    None
                },
                down_best_ask: if sheet.down_idx == 0 {
                    market.best_ask
                } else {
                    None
                },
            },
        )
    }

    /// The market that an event gives. `read_price` reads a price in decimal.
    pub fn parse_market_info<F: Fn(&str) -> Option<Number>>(
        event: &GammaEventResponse,
        read_price: F,
    ) -> (r: Result<ParsedMarketInfo, ParseError>)
        requires
            forall|text: &str| call_requires(read_price, (text,)),
        ensures
            match sheet_in_event(*event) {
                Err(e) => r == Err::<ParsedMarketInfo, ParseError>(e),
                Ok(sheet) => exists|
                    up_text: &str,
                    up: Option<Number>,
                    down_text: &str,
                    down: Option<Number>,
                |
                    {
                        &&& up_text@ == sheet.up_price
                        &&& #[trigger] call_ensures(read_price, (up_text,), up)
                        &&& down_text@ == sheet.down_price
                        &&& #[trigger] call_ensures(read_price, (down_text,), down)
                        &&& is_market_info(r, *event, sheet, up, down)
                    },
            },
    {
        match GammaApiClient::read_outcomes(event) {
            Ok(sheet) => {
                let up = read_price(sheet.up_price.as_str());
                let down = read_price(sheet.down_price.as_str());
                GammaApiClient::market_info(event, sheet, up, down)
            },
            Err(e) => Err(e),
        }
    }

    /// The time until the current interval ends.
    pub fn time_until_next_interval() -> (r: TimeSpan)
        ensures
            exists|now: UtcInstant, later: UtcInstant|
                {
                    &&& now.valid()
                    &&& later.valid()
                    &&& r.nanos == #[trigger] interval_end(later.secs as int) * 1_000_000_000
                        - #[trigger] now.total_nanos()
                },
    {
        let now = utc_now();
        let next_ts = GammaApiClient::get_next_5min_timestamp();
        GammaApiClient::time_until(next_ts, now)
    }

    /// The time from `now` until the second `timestamp`.
    pub fn time_until(timestamp: i64, now: UtcInstant) -> (r: TimeSpan)
        ensures
            r.nanos == timestamp * 1_000_000_000 - now.total_nanos(),
    {
        TimeSpan {
            nanos: timestamp as i128 * 1_000_000_000 - now.secs as i128 * 1_000_000_000
                - now.nanos as i128,
        }
    }
}

/// Where a text first stands in a list.
fn position_of(list: &Vec<String>, wanted: &str) -> (r: Option<usize>)
    ensures
        match r {
            Some(i) => i < list@.len() && first_where(text_views(list@), is_outcome(wanted@)) == i,
            None => first_where(text_views(list@), is_outcome(wanted@)) == list@.len(),
        },
{
    let mut i: usize = 0;
    while i < list.len()
        invariant
            i <= list@.len(),
            forall|j: int|
                0 <= j < i ==> !is_outcome(wanted@)(#[trigger] text_views(list@)[j]),
        decreases list@.len() - i,
    {
        if same_text(list[i].as_str(), wanted) {
            proof {
                lemma_first_where(text_views(list@), is_outcome(wanted@), i as int);
            }
            return Some(i);
        }
        i = i + 1;
    }
    proof {
        lemma_first_where(text_views(list@), is_outcome(wanted@), i as int);
    }
    None
}

/// An interval starts and ends at a multiple of five minutes; its start is not after the second
/// that it holds, and its end is after it.
pub proof fn law_interval_holds_its_seconds(secs: int)
    ensures
        interval_start(secs) % 300 == 0,
        interval_end(secs) % 300 == 0,
        interval_start(secs) <= secs < interval_end(secs),
{
}

/// Intervals follow one another without a gap: the end of one is the start of the next, and all
/// seconds between lie in the same one.
pub proof fn law_intervals_follow_one_another(secs: int, other: int)
    ensures
        interval_start(interval_end(secs)) == interval_end(secs),
        interval_start(secs) <= other < interval_end(secs) ==> interval_start(other)
            == interval_start(secs),
{
}

/// The two outcomes of a market stand in different places, so that the best ask of the service is
/// that of exactly one of them.
pub proof fn law_outcomes_stand_apart(
    outcomes: Seq<Seq<char>>,
    prices: Seq<Seq<char>>,
    token_ids: Seq<Seq<char>>,
)
    ensures
        sheet_of(outcomes, prices, token_ids) matches Ok(sheet) ==> {
            &&& 0 <= sheet.up_idx < 2
            &&& 0 <= sheet.down_idx < 2
            &&& sheet.up_idx != sheet.down_idx
            &&& outcomes[sheet.up_idx] == "Up"@
            &&& outcomes[sheet.down_idx] == "Down"@
        },
{
    reveal_strlit("Up");
    reveal_strlit("Down");
    lemma_first_where_holds(outcomes, is_outcome("Up"@));
    lemma_first_where_holds(outcomes, is_outcome("Down"@));
    assert("Up"@.len() != "Down"@.len());
}

/// The slug of an event is about the same asset as the slug of its market.
pub proof fn law_event_slug_keeps_the_asset(base_slug: Seq<char>, timestamp: int)
    ensures
        asset_name(event_slug(base_slug, timestamp)) == asset_name(base_slug),
{
    reveal_strlit("-");
    let slug = event_slug(base_slug, timestamp);
    let k = first_where(base_slug, is_char('-'));
    lemma_first_where_holds(base_slug, is_char('-'));
    assert forall|j: int| 0 <= j < k implies !is_char('-')(#[trigger] slug[j]) by {
        assert(slug[j] == base_slug[j]);
    }
    assert(slug[base_slug.len() as int] == '-');
    if k < base_slug.len() {
        assert(slug[k] == base_slug[k]);
    }
    lemma_first_where(slug, is_char('-'), k);
    assert(until_char(slug, '-') == until_char(base_slug, '-'));
}

/// A number in decimal has a digit, and no minus sign before it.
proof fn lemma_nat_text_starts_with_a_digit(n: nat)
    ensures
        nat_text(n).len() > 0,
        nat_text(n)[0] != '-',
    decreases n,
{
    if n >= 10 {
        lemma_nat_text_starts_with_a_digit(n / 10);
        assert(nat_text(n)[0] == nat_text(n / 10)[0]);
    }
}

/// Two numbers with the same decimal text are the same.
proof fn lemma_nat_text_is_injective(a: nat, b: nat)
    requires
        nat_text(a) == nat_text(b),
    ensures
        a == b,
    decreases a,
{
    let last_a = nat_text(a).last();
    let last_b = nat_text(b).last();
    assert(last_a == digit_char((a % 10) as int));
    assert(last_b == digit_char((b % 10) as int));
    assert(a % 10 == b % 10);
    if a >= 10 {
        lemma_nat_text_starts_with_a_digit(a / 10);
    }
    if b >= 10 {
        lemma_nat_text_starts_with_a_digit(b / 10);
    }
    if a >= 10 && b >= 10 {
        assert(nat_text(a).drop_last() == nat_text(a / 10));
        assert(nat_text(b).drop_last() == nat_text(b / 10));
        lemma_nat_text_is_injective(a / 10, b / 10);
    }
}

/// Events of one market at different times have different slugs.
pub proof fn law_event_slugs_are_distinct(base_slug: Seq<char>, a: int, b: int)
    requires
        a != b,
    ensures
        event_slug(base_slug, a) != event_slug(base_slug, b),
{
    reveal_strlit("-");
    let n = base_slug.len() + 1;
    if event_slug(base_slug, a) == event_slug(base_slug, b) {
        assert(event_slug(base_slug, a).skip(n as int) == int_text(a));
        assert(event_slug(base_slug, b).skip(n as int) == int_text(b));
        lemma_nat_text_starts_with_a_digit(if a < 0 {
            (-a) as nat
        } else {
            a as nat
        });
        lemma_nat_text_starts_with_a_digit(if b < 0 {
            (-b) as nat
        } else {
            b as nat
        });
        if a < 0 && b < 0 {
            assert(int_text(a).drop_first() == nat_text((-a) as nat));
            assert(int_text(b).drop_first() == nat_text((-b) as nat));
            lemma_nat_text_is_injective((-a) as nat, (-b) as nat);
        } else if a >= 0 && b >= 0 {
            lemma_nat_text_is_injective(a as nat, b as nat);
        } else {
            assert(int_text(a)[0] != int_text(b)[0]);
        }
    }
}

} // verus!
