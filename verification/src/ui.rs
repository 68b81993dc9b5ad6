//! What the screen shows.
use vstd::prelude::*;
use vstd::string::*;

use crate::clock::utc_now;
use crate::clock::UtcInstant;
use crate::number::Number;
use crate::number::HALF_BITS;
use crate::state::success_count;
use crate::state::text_views;
use crate::state::AppState;
use crate::state::StateView;
use crate::state::TradeStatus;
use crate::state::TradeView;
use crate::state::TradingStats;
use crate::text::asset_name;
use crate::text::asset_of;
use crate::text::comes_before;
use crate::text::contains_text;
use crate::text::has_part;
use crate::text::is_asset_text;
use crate::text::minutes_seconds;
use crate::text::minutes_seconds_text;
use crate::text::nat_text;
use crate::text::same_text;
use crate::text::text_comes_before;
use crate::text::u64_text;
use crate::trading::ask_or_zero;

verus! {

/// The asset that a ticker is about: of `btc-updown-5m-123456` it is `BTC`.
pub fn extract_asset_name(ticker: &str) -> (r: String)
    ensures
        r@ == asset_name(ticker@),
        is_asset_text(ticker@, r@),
{
    asset_of(ticker)
}

/// The time that is left of an interval which ends at `next_interval`.
pub open spec fn time_left(next_interval: int, now: int) -> Seq<char> {
    if next_interval <= 0 {
        "Unknown"@
    } else if next_interval > now {
        minutes_seconds((next_interval - now) as nat)
    } else {
        "Refreshing..."@
    }
}

/// The time that is left of the current interval, as of now.
pub fn time_remaining(next_interval: i64) -> (r: String)
    ensures
        exists|now: UtcInstant|
            now.valid() && r@ == #[trigger] time_left(next_interval as int, now.secs as int),
{
    let now = utc_now();
    time_remaining_at(next_interval, now)
}

/// The time that is left of the current interval, as of `now`.
pub fn time_remaining_at(next_interval: i64, now: UtcInstant) -> (r: String)
    requires
        now.valid(),
    ensures
        r@ == time_left(next_interval as int, now.secs as int),
{
    if next_interval > 0 {
        let remaining: i64 = next_interval - now.secs;
        if remaining > 0 {
            minutes_seconds_text(remaining as u64)
        } else {
            "Refreshing...".to_string()
        }
    } else {
        "Unknown".to_string()
    }
}

/// How many markets there is room for: at least one.
pub open spec fn panel_count(markets: int) -> int {
    if markets < 1 {
        1
    } else {
        markets
    }
}

/// The height of the markets without the header, in lines of the screen, which are kept in 16 bits.
pub open spec fn panels_height(markets: int) -> u16 {
    (6 * panel_count(markets)) as u16
}

/// Whether the height of the markets can be counted in lines of the screen.
pub open spec fn fits_on_screen(markets: int) -> bool {
    6 * panel_count(markets) <= usize::MAX && 4 + panels_height(markets) <= u16::MAX
}

/// Whether the height of the markets can be counted in lines of the screen.
pub fn can_show(markets: usize) -> (r: bool)
    ensures
        r == fits_on_screen(markets as int),
{
    let panels: usize = if markets < 1 {
        1
    } else {
        markets
    };
    panels <= usize::MAX / 6 && (panels * 6) as u16 <= u16::MAX - 4
}

/// The height of the markets: four lines for the header, six for each market. Without markets
/// there is room for one.
pub fn markets_height(markets: usize) -> (r: u16)
    requires
        fits_on_screen(markets as int),
    ensures
        r == 4 + panels_height(markets as int),
        6 * panel_count(markets as int) <= u16::MAX ==> r == 4 + 6 * panel_count(markets as int),
{
    let panels: usize = if markets < 1 {
        1
    } else {
        markets
    };
    4 + (panels * 6) as u16
}

/// A market on the screen.
#[derive(Clone, Debug)]
pub struct MarketPanel {
    pub slug: String,
    pub title: String,
    pub up_ask: Option<Number>,
    pub down_ask: Option<Number>,
    /// The ask for up stands out.
    pub up_is_high: bool,
    /// The ask for down stands out.
    pub down_is_high: bool,
}

/// A [`MarketPanel`] with its texts as sequences of characters.
#[verifier::ext_equal]
pub struct PanelView {
    pub slug: Seq<char>,
    pub title: Seq<char>,
    pub up_ask: Option<Number>,
    pub down_ask: Option<Number>,
    pub up_is_high: bool,
    pub down_is_high: bool,
}

impl View for MarketPanel {
    type V = PanelView;

    open spec fn view(&self) -> PanelView {
        PanelView {
            slug: self.slug@,
            title: self.title@,
            up_ask: self.up_ask,
            down_ask: self.down_ask,
            up_is_high: self.up_is_high,
            down_is_high: self.down_is_high,
        }
    }
}

/// Whether an ask is above a half.
pub open spec fn is_high(ask: Option<Number>) -> bool {
    (Number { bits: HALF_BITS }).lt(ask_or_zero(ask))
}

impl StateView {
    /// The ask for up of a market, where there is one.
    pub open spec fn up_ask_of(self, slug: Seq<char>) -> Option<Number> {
        if self.prices.contains_key(slug) {
            self.prices[slug].up_best_ask
        } else {
            None
        }
    }

    /// The ask for down of a market, where there is one.
    pub open spec fn down_ask_of(self, slug: Seq<char>) -> Option<Number> {
        if self.prices.contains_key(slug) {
            self.prices[slug].down_best_ask
        } else {
            None
        }
    }

    /// How a tracked market looks on the screen.
    pub open spec fn panel_of(self, slug: Seq<char>) -> PanelView {
        PanelView {
            slug,
            title: asset_name(self.markets[slug].ticker@),
            up_ask: self.up_ask_of(slug),
            down_ask: self.down_ask_of(slug),
            up_is_high: is_high(self.up_ask_of(slug)),
            down_is_high: is_high(self.down_ask_of(slug)),
        }
    }
}

/// Whether each of `slugs` comes before those behind it.
pub open spec fn is_sorted(slugs: Seq<Seq<char>>) -> bool {
    forall|i: int, j: int|
        0 <= i < j < slugs.len() ==> comes_before(#[trigger] slugs[i], #[trigger] slugs[j])
}

/// Whether `slugs` are those of the tracked markets, sorted.
pub open spec fn is_listing(slugs: Seq<Seq<char>>, state: StateView) -> bool {
    &&& is_sorted(slugs)
    &&& forall|slug: Seq<char>| #[trigger]
        slugs.contains(slug) <==> state.markets.contains_key(slug)
}

/// The slugs of the tracked markets, sorted.
pub fn sorted_slugs(state: &AppState) -> (r: Vec<String>)
    ensures
        is_listing(text_views(r@), state@),
{
    let mut sorted: Vec<String> = Vec::new();
    let mut i: usize = 0;
    while i < state.tracked_markets.len()
        invariant
            i <= state@.market_order.len(),
            is_sorted(text_views(sorted@)),
            forall|slug: Seq<char>| #[trigger]
                text_views(sorted@).contains(slug) <==> state@.market_order.take(
                    i as int,
                ).contains(slug),
        decreases state@.market_order.len() - i,
    {
        let slug = state.tracked_markets.key_at(i);
        let ghost before = text_views(sorted@);
        proof {
            state.tracked_markets.lemma_order();
            lemma_take_next(state@.market_order, i as int);
            if before.contains(slug@) {
                let known = state@.market_order.take(i as int);
                let k = choose|k: int| 0 <= k < known.len() && known[k] == slug@;
                assert(state@.market_order[k] == slug@);
            }
        }
        let at = slot_of(&sorted, slug);
        sorted.insert(at, slug.clone());
        proof {
            assert(text_views(sorted@) =~= before.insert(at as int, slug@));
            lemma_insert_sorted(before, at as int, slug@);
            lemma_insert_contains(before, at as int, slug@);
        }
        i = i + 1;
    }
    proof {
        state.tracked_markets.lemma_order();
        assert(state@.market_order.take(i as int) =~= state@.market_order);
    }
    sorted
}

/// The slot that keeps `sorted` sorted when `slug` is put there.
fn slot_of(sorted: &Vec<String>, slug: &String) -> (r: usize)
    requires
        is_sorted(text_views(sorted@)),
        !text_views(sorted@).contains(slug@),
    ensures
        r <= sorted@.len(),
        forall|j: int| 0 <= j < r ==> comes_before(#[trigger] text_views(sorted@)[j], slug@),
        forall|j: int|
            r <= j < sorted@.len() ==> comes_before(slug@, #[trigger] text_views(sorted@)[j]),
{
    let ghost texts = text_views(sorted@);
    let mut at: usize = 0;
    while at < sorted.len() && text_comes_before(sorted[at].as_str(), slug.as_str())
        invariant
            at <= sorted@.len(),
            texts == text_views(sorted@),
            forall|j: int| 0 <= j < at ==> comes_before(#[trigger] texts[j], slug@),
        ensures
            at <= sorted@.len(),
            forall|j: int| 0 <= j < at ==> comes_before(#[trigger] texts[j], slug@),
            at < sorted@.len() ==> !comes_before(texts[at as int], slug@),
        decreases sorted@.len() - at,
    {
        at = at + 1;
    }
    proof {
        assert forall|j: int| at <= j < sorted@.len() implies comes_before(
            slug@,
            #[trigger] texts[j],
        ) by {
            assert(texts.contains(texts[at as int]));
            lemma_comes_before_is_total(texts[at as int], slug@);
            if j > at {
                lemma_comes_before_is_transitive(slug@, texts[at as int], texts[j]);
            }
        }
    }
    at
}

/// The tracked markets on the screen, sorted by their slugs.
pub fn market_panels(state: &AppState) -> (r: Vec<MarketPanel>)
    ensures
        is_listing(panel_slugs(r@), state@),
        forall|i: int| 0 <= i < r@.len() ==> (#[trigger] r@[i])@ == state@.panel_of(r@[i]@.slug),
{
    let slugs = sorted_slugs(state);
    let mut panels: Vec<MarketPanel> = Vec::new();
    let mut i: usize = 0;
    while i < slugs.len()
        invariant
            i <= slugs@.len(),
            is_listing(text_views(slugs@), state@),
            panels@.len() == i,
            forall|j: int| 0 <= j < i ==> (#[trigger] panels@[j])@ == state@.panel_of(slugs@[j]@),
        decreases slugs@.len() - i,
    {
        let slug = &slugs[i];
        proof {
            assert(text_views(slugs@)[i as int] == slug@);
            assert(text_views(slugs@).contains(slug@));
        }
        if let Some(info) = state.tracked_markets.get(slug.as_str()) {
            let (up_ask, down_ask) = match state.current_prices.get(slug.as_str()) {
                Some(prices) => (prices.up_best_ask, prices.down_best_ask),
                None => (None, None),
            };
            panels.push(
                MarketPanel {
                    slug: slug.clone(),
                    title: extract_asset_name(info.ticker.as_str()),
                    up_ask,
                    down_ask,
                    up_is_high: is_high_ask(up_ask),
                    down_is_high: is_high_ask(down_ask),
                },
            );
        }
        i = i + 1;
    }
    assert(panel_slugs(panels@) =~= text_views(slugs@));
    panels
}

/// The slugs of panels.
pub open spec fn panel_slugs(panels: Seq<MarketPanel>) -> Seq<Seq<char>> {
    Seq::new(panels.len(), |i: int| panels[i]@.slug)
}

/// Whether an ask is above a half.
fn is_high_ask(ask: Option<Number>) -> (r: bool)
    ensures
        r == is_high(ask),
{
    match ask {
        Some(price) => Number::from_bits(HALF_BITS).is_less_than(&price),
        None => Number::from_bits(HALF_BITS).is_less_than(&Number::from_bits(0)),
    }
}

/// A successful trade on the screen.
#[derive(Clone, Debug)]
pub struct TradeRow {
    pub timestamp: UtcInstant,
    pub asset: String,
    pub side: String,
    /// The side is `UP`.
    pub is_up: bool,
    pub price: Number,
    pub amount: Number,
}

/// A [`TradeRow`] with its texts as sequences of characters.
#[verifier::ext_equal]
pub struct RowView {
    pub timestamp: UtcInstant,
    pub asset: Seq<char>,
    pub side: Seq<char>,
    pub is_up: bool,
    pub price: Number,
    pub amount: Number,
}

impl View for TradeRow {
    type V = RowView;

    open spec fn view(&self) -> RowView {
        RowView {
            timestamp: self.timestamp,
            asset: self.asset@,
            side: self.side@,
            is_up: self.is_up,
            price: self.price,
            amount: self.amount,
        }
    }
}

/// The views of rows.
pub open spec fn row_views(rows: Seq<TradeRow>) -> Seq<RowView> {
    Seq::new(rows.len(), |i: int| rows[i]@)
}

/// How a trade looks on the screen.
pub open spec fn row_of(t: TradeView) -> RowView {
    RowView {
        timestamp: t.timestamp,
        asset: t.asset,
        side: t.side,
        is_up: t.side == "UP"@,
        price: t.price,
        amount: t.amount,
    }
}

/// The rows of the successful trades, in their order.
pub open spec fn success_rows(trades: Seq<TradeView>) -> Seq<RowView>
    decreases trades.len(),
{
    if trades.len() == 0 {
        Seq::empty()
    } else {
        let rest = success_rows(trades.drop_last());
        if trades.last().status == TradeStatus::Success {
            rest.push(row_of(trades.last()))
        } else {
            rest
        }
    }
}

/// How many of `available` lines there are when `height` lines are there, `taken` of them for
/// other things.
pub open spec fn shown(available: nat, height: u16, taken: u16) -> nat {
    let room: int = if height < taken {
        0
    } else {
        height - taken
    };
    if available <= room {
        available
    } else {
        room as nat
    }
}

/// The newest successful trades, as many as there is room for in an area of `height` lines, of
/// which the header and the border take four. Nothing where no trade succeeded.
pub fn trade_rows(state: &AppState, height: u16) -> (r: Option<Vec<TradeRow>>)
    ensures
        match r {
            None => success_count(state@.trades) == 0,
            Some(rows) => {
                let all = success_rows(state@.trades);
                &&& success_count(state@.trades) > 0
                &&& row_views(rows@) == all.take(shown(all.len(), height, 4) as int)
            },
        },
{
    let mut rows: Vec<TradeRow> = Vec::new();
    let mut successes: usize = 0;
    let room: usize = if height < 4 {
        0
    } else {
        (height - 4) as usize
    };
    let mut i: usize = 0;
    assert(row_views(rows@) =~= success_rows(state@.trades.take(0)).take(0));
    while i < state.trades.len()
        invariant
            i <= state.trades@.len(),
            successes <= i,
            room == if height < 4 {
                0int
            } else {
                height - 4
            },
            successes == success_count(state@.trades.take(i as int)),
            successes == success_rows(state@.trades.take(i as int)).len(),
            row_views(rows@) == success_rows(state@.trades.take(i as int)).take(
                shown(successes as nat, height, 4) as int,
            ),
        decreases state.trades@.len() - i,
    {
        let trade = &state.trades[i];
        let ghost before = row_views(rows@);
        let ghost all = success_rows(state@.trades.take(i as int));
        proof {
            assert(state@.trades.take(i + 1).drop_last() == state@.trades.take(i as int));
            assert(state@.trades.take(i + 1).last() == trade@);
        }
        if trade.status == TradeStatus::Success {
            if successes < room {
                rows.push(
                    TradeRow {
                        timestamp: trade.timestamp,
                        asset: trade.asset.clone(),
                        side: trade.side.clone(),
                        is_up: same_text(trade.side.as_str(), "UP"),
                        price: trade.price,
                        amount: trade.amount,
                    },
                );
                assert(row_views(rows@) =~= before.push(row_of(trade@)));
            }
            successes = successes + 1;
            assert(row_views(rows@) =~= all.push(row_of(trade@)).take(
                shown(successes as nat, height, 4) as int,
            ));
        }
        i = i + 1;
    }
    assert(state@.trades.take(i as int) == state@.trades);
    if successes == 0 {
        None
    } else {
        Some(rows)
    }
}

/// How a status message is to be read.
#[derive(Clone, Copy, PartialEq, Eq, Structural, Debug)]
pub enum Tone {
    Bad,
    Good,
    Neutral,
}

/// The tone of a status message: bad where it speaks of an error, else good where it speaks of a
/// connection or a subscription.
pub open spec fn tone_of(message: Seq<char>) -> Tone {
    if has_part(message, "Error"@) || has_part(message, "error"@) {
        Tone::Bad
    } else if has_part(message, "Connected"@) || has_part(message, "Subscribed"@) {
        Tone::Good
    } else {
        Tone::Neutral
    }
}

/// A status message on the screen.
#[derive(Clone, Debug)]
pub struct StatusLine {
    pub text: String,
    pub tone: Tone,
}

/// The texts and the tones of status lines.
pub open spec fn line_views(lines: Seq<StatusLine>) -> Seq<(Seq<char>, Tone)> {
    Seq::new(lines.len(), |i: int| (lines[i].text@, lines[i].tone))
}

/// The first `n` status messages with their tones.
pub open spec fn toned(messages: Seq<Seq<char>>, n: nat) -> Seq<(Seq<char>, Tone)> {
    Seq::new(n, |i: int| (messages[i], tone_of(messages[i])))
}

/// The newest status messages, as many as there is room for in an area of `height` lines, of
/// which the border takes two.
pub fn status_lines(state: &AppState, height: u16) -> (r: Vec<StatusLine>)
    ensures
        line_views(r@) == toned(
            state@.statuses,
            shown(state@.statuses.len(), height, 2),
        ),
{
    let mut lines: Vec<StatusLine> = Vec::new();
    let room: usize = if height < 2 {
        0
    } else {
        (height - 2) as usize
    };
    let mut i: usize = 0;
    while i < state.status_messages.len() && i < room
        invariant
            i <= state.status_messages@.len(),
            i <= room,
            lines@.len() == i,
            line_views(lines@) == toned(state@.statuses, i as nat),
        decreases state.status_messages@.len() - i,
    {
        let message = &state.status_messages[i];
        let ghost before = line_views(lines@);
        let tone = message_tone(message.as_str());
        lines.push(StatusLine { text: message.clone(), tone });
        proof {
            assert(state@.statuses[i as int] == message@);
            assert(line_views(lines@) =~= before.push((message@, tone)));
            assert(line_views(lines@) =~= toned(state@.statuses, (i + 1) as nat));
        }
        i = i + 1;
    }
    lines
}

/// The tone of a status message.
pub fn message_tone(message: &str) -> (r: Tone)
    ensures
        r == tone_of(message@),
{
    if contains_text(message, "Error") || contains_text(message, "error") {
        Tone::Bad
    } else if contains_text(message, "Connected") || contains_text(message, "Subscribed") {
        Tone::Good
    } else {
        Tone::Neutral
    }
}

/// What the screen says of whether trades are placed.
pub fn mode_label(trading_enabled: bool) -> (r: String)
    ensures
        r@ == if trading_enabled {
            "LIVE TRADING"@
        } else {
            "SIMULATION"@
        },
{
    if trading_enabled {
        "LIVE TRADING".to_string()
    } else {
        "SIMULATION".to_string()
    }
}

/// The lines with the counts of the trader's record.
pub fn count_lines(stats: &TradingStats) -> (r: Vec<String>)
    ensures
        text_views(r@) == seq![
            "Trade Count:   "@ + nat_text(stats.trade_count as nat),
            "Win Count:     "@ + nat_text(stats.win_count as nat),
            "Loss Count:    "@ + nat_text(stats.loss_count as nat),
        ],
{
    let mut trades = "Trade Count:   ".to_string();
    trades.append(u64_text(stats.trade_count as u64).as_str());
    let mut wins = "Win Count:     ".to_string();
    wins.append(u64_text(stats.win_count as u64).as_str());
    let mut losses = "Loss Count:    ".to_string();
    losses.append(u64_text(stats.loss_count as u64).as_str());
    let mut lines: Vec<String> = Vec::new();
    lines.push(trades);
    lines.push(wins);
    lines.push(losses);
    assert(text_views(lines@) =~= seq![trades@, wins@, losses@]);
    lines
}

/// No text comes before itself.
pub proof fn law_nothing_comes_before_itself(a: Seq<char>)
    ensures
        !comes_before(a, a),
    decreases a.len(),
{
    if a.len() > 0 {
        law_nothing_comes_before_itself(a.drop_first());
    }
}

/// Of two different texts one comes before the other.
proof fn lemma_comes_before_is_total(a: Seq<char>, b: Seq<char>)
    ensures
        a == b || comes_before(a, b) || comes_before(b, a),
    decreases a.len(),
{
    if a.len() == 0 || b.len() == 0 {
        assert(a.len() == b.len() ==> a =~= b);
    } else if a[0] == b[0] {
        lemma_comes_before_is_total(a.drop_first(), b.drop_first());
        if a.drop_first() == b.drop_first() {
            assert(a =~= seq![a[0]] + a.drop_first());
            assert(b =~= seq![b[0]] + b.drop_first());
        }
    }
}

/// What comes before a text comes before all that the text comes before.
proof fn lemma_comes_before_is_transitive(a: Seq<char>, b: Seq<char>, c: Seq<char>)
    requires
        comes_before(a, b),
        comes_before(b, c),
    ensures
        comes_before(a, c),
    decreases a.len(),
{
    if a.len() > 0 && a[0] == b[0] && b[0] == c[0] {
        lemma_comes_before_is_transitive(a.drop_first(), b.drop_first(), c.drop_first());
    }
}

/// One more of a sequence.
proof fn lemma_take_next(s: Seq<Seq<char>>, i: int)
    requires
        0 <= i < s.len(),
    ensures
        forall|x: Seq<char>| #[trigger]
            s.take(i + 1).contains(x) <==> s.take(i).contains(x) || x == s[i],
{
    assert forall|x: Seq<char>| #[trigger] s.take(i + 1).contains(x) implies s.take(i).contains(x)
        || x == s[i] by {
        let t = s.take(i + 1);
        let k = choose|k: int| 0 <= k < t.len() && t[k] == x;
        if k < i {
            assert(s.take(i)[k] == x);
        }
    }
    assert forall|x: Seq<char>| s.take(i).contains(x) || x == s[i] implies #[trigger] s.take(
        i + 1,
    ).contains(x) by {
        if s.take(i).contains(x) {
            let t = s.take(i);
            let k = choose|k: int| 0 <= k < t.len() && t[k] == x;
            assert(s.take(i + 1)[k] == x);
        } else {
            assert(s.take(i + 1)[i] == x);
        }
    }
}

/// A text put where it belongs keeps texts sorted.
proof fn lemma_insert_sorted(s: Seq<Seq<char>>, at: int, x: Seq<char>)
    requires
        is_sorted(s),
        0 <= at <= s.len(),
        forall|j: int| 0 <= j < at ==> comes_before(#[trigger] s[j], x),
        forall|j: int| at <= j < s.len() ==> comes_before(x, #[trigger] s[j]),
    ensures
        is_sorted(s.insert(at, x)),
{
    let t = s.insert(at, x);
    assert forall|i: int, j: int| 0 <= i < j < t.len() implies comes_before(
        #[trigger] t[i],
        #[trigger] t[j],
    ) by {
        let a = if i < at {
            i
        } else {
            i - 1
        };
        let b = if j < at {
            j
        } else {
            j - 1
        };
        if i == at {
            assert(t[j] == s[b]);
        } else if j == at {
            assert(t[i] == s[a]);
        } else {
            assert(t[i] == s[a] && t[j] == s[b]);
        }
    }
}

/// What a sequence holds after something was put into it.
proof fn lemma_insert_contains(s: Seq<Seq<char>>, at: int, x: Seq<char>)
    requires
        0 <= at <= s.len(),
    ensures
        forall|y: Seq<char>| #[trigger] s.insert(at, x).contains(y) <==> s.contains(y) || y == x,
{
    let t = s.insert(at, x);
    assert forall|y: Seq<char>| #[trigger] t.contains(y) implies s.contains(y) || y == x by {
        let k = choose|k: int| 0 <= k < t.len() && t[k] == y;
        if k < at {
            assert(s[k] == y);
        } else if k > at {
            assert(s[k - 1] == y);
        }
    }
    assert forall|y: Seq<char>| s.contains(y) || y == x implies #[trigger] t.contains(y) by {
        if s.contains(y) {
            let k = choose|k: int| 0 <= k < s.len() && s[k] == y;
            if k < at {
                assert(t[k] == y);
            } else {
                assert(t[k + 1] == y);
            }
        } else {
            assert(t[at] == y);
        }
    }
}

/// The markets have one order on the screen: two sorted listings of the same markets are the
/// same.
pub proof fn law_listing_is_unique(a: Seq<Seq<char>>, b: Seq<Seq<char>>, state: StateView)
    requires
        is_listing(a, state),
        is_listing(b, state),
    ensures
        a == b,
{
    assert forall|x: Seq<char>| a.contains(x) == b.contains(x) by {
        assert(a.contains(x) <==> state.markets.contains_key(x));
        assert(b.contains(x) <==> state.markets.contains_key(x));
    }
    lemma_sorted_is_unique(a, b);
}

/// Sorted sequences that hold the same are the same.
proof fn lemma_sorted_is_unique(a: Seq<Seq<char>>, b: Seq<Seq<char>>)
    requires
        is_sorted(a),
        is_sorted(b),
        forall|x: Seq<char>| a.contains(x) == b.contains(x),
    ensures
        a == b,
    decreases a.len(),
{
    if a.len() == 0 {
        if b.len() > 0 {
            assert(b.contains(b[0]));
            assert(a.contains(b[0]));
        }
        assert(a =~= b);
    } else {
        assert(a.contains(a[0]));
        assert(b.contains(a[0]));
        let k = choose|k: int| 0 <= k < b.len() && b[k] == a[0];
        assert(b.contains(b[0]));
        assert(a.contains(b[0]));
        let m = choose|m: int| 0 <= m < a.len() && a[m] == b[0];
        if k > 0 {
            assert(comes_before(b[0], b[k]));
            if m > 0 {
                assert(comes_before(a[0], a[m]));
                lemma_comes_before_is_transitive(a[0], b[0], a[0]);
            }
            law_nothing_comes_before_itself(a[0]);
        }
        assert(a[0] == b[0]);
        let ra = a.drop_first();
        let rb = b.drop_first();
        assert(is_sorted(ra)) by {
            assert forall|i: int, j: int| 0 <= i < j < ra.len() implies comes_before(
                #[trigger] ra[i],
                #[trigger] ra[j],
            ) by {
                assert(comes_before(a[i + 1], a[j + 1]));
            }
        }
        assert(is_sorted(rb)) by {
            assert forall|i: int, j: int| 0 <= i < j < rb.len() implies comes_before(
                #[trigger] rb[i],
                #[trigger] rb[j],
            ) by {
                assert(comes_before(b[i + 1], b[j + 1]));
            }
        }
        assert forall|x: Seq<char>| ra.contains(x) == rb.contains(x) by {
            lemma_rest_contains(a, x);
            lemma_rest_contains(b, x);
        }
        lemma_sorted_is_unique(ra, rb);
        assert(a =~= seq![a[0]] + ra);
        assert(b =~= seq![b[0]] + rb);
    }
}

/// What the rest of a sorted sequence holds: all but the first.
proof fn lemma_rest_contains(s: Seq<Seq<char>>, x: Seq<char>)
    requires
        is_sorted(s),
        s.len() > 0,
    ensures
        s.drop_first().contains(x) == (s.contains(x) && x != s[0]),
{
    let rest = s.drop_first();
    if rest.contains(x) {
        let k = choose|k: int| 0 <= k < rest.len() && rest[k] == x;
        assert(s[k + 1] == x);
        assert(comes_before(s[0], s[k + 1]));
        law_nothing_comes_before_itself(s[0]);
    }
    if s.contains(x) && x != s[0] {
        let k = choose|k: int| 0 <= k < s.len() && s[k] == x;
        assert(rest[k - 1] == x);
    }
}

} // verus!
