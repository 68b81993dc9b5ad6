//! What the trader tells its user.
use vstd::prelude::*;
use vstd::string::*;

use crate::number::Number;
use crate::text::i64_text;
use crate::text::int_text;
use crate::text::minutes_seconds;
use crate::text::minutes_seconds_text;
use crate::text::nat_text;
use crate::text::u64_text;

verus! {

/// A message, with the places where a price and an amount are to be written.
#[derive(Clone, Debug)]
pub struct Notice {
    pub before: String,
    /// Written with three decimals.
    pub price: Option<Number>,
    pub middle: String,
    /// Written with two decimals.
    pub amount: Option<Number>,
    pub after: String,
}

/// A [`Notice`] with its texts as sequences of characters.
#[verifier::ext_equal]
pub struct NoticeView {
    pub before: Seq<char>,
    pub price: Option<Number>,
    pub middle: Seq<char>,
    pub amount: Option<Number>,
    pub after: Seq<char>,
}

impl View for Notice {
    type V = NoticeView;

    open spec fn view(&self) -> NoticeView {
        NoticeView {
            before: self.before@,
            price: self.price,
            middle: self.middle@,
            amount: self.amount,
            after: self.after@,
        }
    }
}

/// The views of notices.
pub open spec fn notice_views(notices: Seq<Notice>) -> Seq<NoticeView> {
    Seq::new(notices.len(), |i: int| notices[i]@)
}

/// `text` where there is a number for it.
pub open spec fn filled_in(number: Option<Number>, text: Seq<char>) -> Seq<char> {
    if number is Some {
        text
    } else {
        Seq::empty()
    }
}

/// Which retry of how many this is; nothing for the first attempt.
pub open spec fn retry_mark(retry: nat, max_retries: nat) -> Seq<char> {
    if retry > 0 {
        " (Retry "@ + nat_text(retry) + "/"@ + nat_text(max_retries) + ")"@
    } else {
        Seq::empty()
    }
}

/// After how many retries; nothing for none.
pub open spec fn retries_mark(retry: nat) -> Seq<char> {
    if retry > 0 {
        " (after "@ + nat_text(retry) + " retries)"@
    } else {
        Seq::empty()
    }
}

impl NoticeView {
    /// A message without numbers to fill in.
    pub open spec fn plain(text: Seq<char>) -> NoticeView {
        NoticeView {
            before: text,
            price: None,
            middle: Seq::empty(),
            amount: None,
            after: Seq::empty(),
        }
    }

    /// The message, with its price written as `price` and its amount as `amount`.
    pub open spec fn written(self, price: Seq<char>, amount: Seq<char>) -> Seq<char> {
        self.before + filled_in(self.price, price) + self.middle + filled_in(self.amount, amount)
            + self.after
    }

    /// A side was tagged.
    pub open spec fn tagged(asset: Seq<char>, side: Seq<char>, price: Number) -> NoticeView {
        NoticeView {
            before: "[EVENT] "@ + asset + " "@ + side + " tagged at "@,
            price: Some(price),
            middle: Seq::empty(),
            amount: None,
            after: Seq::empty(),
        }
    }

    /// A tagged side has recovered.
    pub open spec fn execute_signal(
        asset: Seq<char>,
        side: Seq<char>,
        price: Number,
    ) -> NoticeView {
        NoticeView {
            before: "[TRADE] "@ + asset + " "@ + side + " execute signal! Price: "@,
            price: Some(price),
            middle: Seq::empty(),
            amount: None,
            after: Seq::empty(),
        }
    }

    /// A trade cannot be tried again, for want of a price.
    pub open spec fn cannot_retry(asset: Seq<char>, side: Seq<char>) -> NoticeView {
        NoticeView::plain(
            "[TRADE] Cannot retry "@ + asset + " "@ + side + " - no current price available"@,
        )
    }

    /// An asset was traded as often as it may be.
    pub open spec fn limit_reached(
        asset: Seq<char>,
        count: nat,
        limit: nat,
        side: Seq<char>,
    ) -> NoticeView {
        NoticeView::plain(
            "[TRADE] Entry limit reached for "@ + asset + " ("@ + nat_text(count) + "/"@
                + nat_text(limit) + " trades this window) - skipping "@ + side + " trade"@,
        )
    }

    /// A trade was simulated.
    pub open spec fn simulated(
        retry: nat,
        max_retries: nat,
        slug: Seq<char>,
        side: Seq<char>,
        price: Number,
        amount: Number,
    ) -> NoticeView {
        NoticeView {
            before: "[TRADE] Simulated trade"@ + retry_mark(retry, max_retries) + ": "@ + slug
                + " "@ + side + " @ "@,
            price: Some(price),
            middle: " for $"@,
            amount: Some(amount),
            after: Seq::empty(),
        }
    }

    /// An order is about to be placed.
    pub open spec fn executing(
        retry: nat,
        max_retries: nat,
        asset: Seq<char>,
        side: Seq<char>,
        price: Number,
        amount: Number,
        token_id: Seq<char>,
    ) -> NoticeView {
        NoticeView {
            before: "[TRADE] Executing"@ + retry_mark(retry, max_retries) + ": "@ + asset + " "@
                + side + " @ "@,
            price: Some(price),
            middle: " for $"@,
            amount: Some(amount),
            after: " (Token: "@ + token_id + ")"@,
        }
    }

    /// An order was filled.
    pub open spec fn filled(order_id: Seq<char>, retry: nat) -> NoticeView {
        NoticeView::plain("[TRADE] Success! Order ID: "@ + order_id + retries_mark(retry))
    }

    /// An order was not filled and is placed again.
    pub open spec fn retry_unfilled(
        error: Seq<char>,
        attempt: nat,
        max_retries: nat,
    ) -> NoticeView {
        NoticeView::plain(
            "[TRADE] Failed to fill: "@ + error + " - Retrying at market price (Attempt "@
                + nat_text(attempt) + "/"@ + nat_text(max_retries) + ")"@,
        )
    }

    /// An order could not be placed and is placed again.
    pub open spec fn retry_failed(error: Seq<char>, attempt: nat, max_retries: nat) -> NoticeView {
        NoticeView::plain(
            "[TRADE] Error: "@ + error + " - Retrying at market price (Attempt "@
                + nat_text(attempt) + "/"@ + nat_text(max_retries) + ")"@,
        )
    }

    /// An order is not placed again.
    pub open spec fn gave_up(
        max_retries: nat,
        asset: Seq<char>,
        side: Seq<char>,
        error: Seq<char>,
    ) -> NoticeView {
        NoticeView::plain(
            "[TRADE] Max retries reached ("@ + nat_text(max_retries) + ") - Skipping "@ + asset
                + " "@ + side + " trade. Last error: "@ + error,
        )
    }

    /// A trade was evaluated.
    pub open spec fn evaluated(
        asset: Seq<char>,
        side: Seq<char>,
        result: Seq<char>,
        price: Number,
    ) -> NoticeView {
        NoticeView {
            before: "[EVAL] "@ + asset + " "@ + side + " trade result: "@ + result
                + " (final price: "@,
            price: Some(price),
            middle: ")"@,
            amount: None,
            after: Seq::empty(),
        }
    }

    /// The trades of an interval were evaluated.
    pub open spec fn evaluation_done(count: nat, interval_ts: int) -> NoticeView {
        NoticeView::plain(
            "[EVAL] Evaluated "@ + nat_text(count) + " trades for interval ending at "@
                + int_text(interval_ts),
        )
    }

    /// The trader starts.
    pub open spec fn starting() -> NoticeView {
        NoticeView::plain("[EVENT] Starting Polymarket Trader..."@)
    }

    /// New markets are awaited.
    pub open spec fn awaiting_markets() -> NoticeView {
        NoticeView::plain("[EVENT] Waiting for new markets to be available..."@)
    }

    /// The markets of an interval are asked for.
    pub open spec fn fetching_markets(timestamp: int) -> NoticeView {
        NoticeView::plain("[EVENT] Fetching markets for interval ending at "@ + int_text(timestamp))
    }

    /// A market came.
    pub open spec fn loaded(asset: Seq<char>) -> NoticeView {
        NoticeView::plain("[EVENT] Loaded: "@ + asset)
    }

    /// An event could not be read.
    pub open spec fn unreadable(event_slug: Seq<char>, error: Seq<char>) -> NoticeView {
        NoticeView::plain("[EVENT] Parse error for "@ + event_slug + ": "@ + error)
    }

    /// An event could not be had.
    pub open spec fn unfetched(event_slug: Seq<char>, error: Seq<char>) -> NoticeView {
        NoticeView::plain("[EVENT] Fetch error for "@ + event_slug + ": "@ + error)
    }

    /// When the markets are asked for again.
    pub open spec fn next_refresh(seconds: nat) -> NoticeView {
        NoticeView::plain("[EVENT] Next refresh in "@ + minutes_seconds(seconds))
    }

    /// The price feed waits for markets.
    pub open spec fn awaiting_tokens() -> NoticeView {
        NoticeView::plain("[EVENT] Waiting for market data..."@)
    }

    /// The price feed is being connected.
    pub open spec fn connecting(count: nat) -> NoticeView {
        NoticeView::plain(
            "[EVENT] Connecting to WebSocket with "@ + nat_text(count) + " tokens..."@,
        )
    }

    /// The price feed failed.
    pub open spec fn feed_error(error: Seq<char>) -> NoticeView {
        NoticeView::plain("WebSocket error: "@ + error)
    }

    /// The price feed could not be kept alive.
    pub open spec fn ping_failed(error: Seq<char>) -> NoticeView {
        NoticeView::plain("Ping failed: "@ + error)
    }

    /// The price feed has nothing to subscribe to.
    pub open spec fn feed_without_tokens() -> NoticeView {
        NoticeView::plain("[EVENT] No tokens to subscribe to, waiting..."@)
    }

    /// The price feed will be connected again.
    pub open spec fn feed_disconnected() -> NoticeView {
        NoticeView::plain("[EVENT] WebSocket disconnected, reconnecting in 3s..."@)
    }

    /// The price feed is connected anew for a new interval.
    pub open spec fn feed_rollover() -> NoticeView {
        NoticeView::plain("[EVENT] Reconnecting for new interval..."@)
    }

    /// The exchange has accepted the account under an address.
    pub open spec fn authenticated_as(address: Seq<char>) -> NoticeView {
        NoticeView::plain(
            "[AUTH] Successfully authenticated with Polymarket CLOB. Address: "@ + address,
        )
    }

    /// The exchange has not accepted the account.
    pub open spec fn not_authenticated(error: Seq<char>) -> NoticeView {
        NoticeView::plain("[AUTH] Authentication failed: "@ + error)
    }

    /// Trading could not start.
    pub open spec fn trading_init_error(error: Seq<char>) -> NoticeView {
        NoticeView::plain("Trading init error: "@ + error)
    }

    /// Trades are placed.
    pub open spec fn live_trading() -> NoticeView {
        NoticeView::plain("[EVENT] Live Trading ENABLED"@)
    }

    /// Trades are simulated.
    pub open spec fn simulating() -> NoticeView {
        NoticeView::plain("[EVENT] Trading in SIMULATION mode"@)
    }

    /// There is no trading.
    pub open spec fn trading_not_configured() -> NoticeView {
        NoticeView::plain("Trading not configured"@)
    }

    /// The user asked for a refresh.
    pub open spec fn manual_refresh() -> NoticeView {
        NoticeView::plain("Manual refresh requested..."@)
    }

    /// An order is about to be signed.
    pub open spec fn signing_order(
        maker: Seq<char>,
        signer: Seq<char>,
        token_id: Seq<char>,
        maker_amount: Seq<char>,
        taker_amount: Seq<char>,
    ) -> NoticeView {
        NoticeView::plain(
            "[TRADE] Signing Order: Maker="@ + maker + ", Signer="@ + signer + ", Token="@
                + token_id + ", MakerAmt="@ + maker_amount + ", TakerAmt="@ + taker_amount,
        )
    }

    /// An order was signed.
    pub open spec fn signed_order(owner: Seq<char>, signature: Seq<char>) -> NoticeView {
        NoticeView::plain("[TRADE] Signed Order: Owner="@ + owner + ", Sig="@ + signature)
    }
}

/// Which retry of how many this is, as [`retry_mark`] says.
fn retry_mark_text(retry: u64, max_retries: u64) -> (r: String)
    ensures
        r@ == retry_mark(retry as nat, max_retries as nat),
{
    if retry > 0 {
        let mut text = " (Retry ".to_string();
        text.append(u64_text(retry).as_str());
        text.append("/");
        text.append(u64_text(max_retries).as_str());
        text.append(")");
        text
    } else {
        String::new()
    }
}

/// After how many retries, as [`retries_mark`] says.
fn retries_mark_text(retry: u64) -> (r: String)
    ensures
        r@ == retries_mark(retry as nat),
{
    if retry > 0 {
        let mut text = " (after ".to_string();
        text.append(u64_text(retry).as_str());
        text.append(" retries)");
        text
    } else {
        String::new()
    }
}

impl Notice {
    /// A message without numbers to fill in.
    pub fn plain(text: String) -> (r: Notice)
        ensures
            r@ == NoticeView::plain(text@),
    {
        Notice {
            before: text,
            price: None,
            middle: String::new(),
            amount: None,
            after: String::new(),
        }
    }

    /// The message, with its price written as `price` and its amount as `amount`.
    pub fn text(&self, price: &str, amount: &str) -> (r: String)
        ensures
            r@ == self@.written(price@, amount@),
    {
        let mut text = self.before.clone();
        let ghost start = text@;
        if self.price.is_some() {
            text.append(price);
        }
        assert(text@ == start + filled_in(self.price, price@));
        text.append(self.middle.as_str());
        let ghost so_far = text@;
        if self.amount.is_some() {
            text.append(amount);
        }
        assert(text@ == so_far + filled_in(self.amount, amount@));
        text.append(self.after.as_str());
        text
    }

    /// A side was tagged.
    pub fn tagged(asset: &str, side: &str, price: Number) -> (r: Notice)
        ensures
            r@ == NoticeView::tagged(asset@, side@, price),
    {
        let mut before = "[EVENT] ".to_string();
        before.append(asset);
        before.append(" ");
        before.append(side);
        before.append(" tagged at ");
        let middle = String::new();
        let after = String::new();
        Notice {
            before,
            price: Some(price),
            middle,
            amount: None,
            after,
        }
    }

    /// A tagged side has recovered.
    pub fn execute_signal(asset: &str, side: &str, price: Number) -> (r: Notice)
        ensures
            r@ == NoticeView::execute_signal(asset@, side@, price),
    {
        let mut before = "[TRADE] ".to_string();
        before.append(asset);
        before.append(" ");
        before.append(side);
        before.append(" execute signal! Price: ");
        let middle = String::new();
        let after = String::new();
        Notice {
            before,
            price: Some(price),
            middle,
            amount: None,
            after,
        }
    }

    /// A trade cannot be tried again, for want of a price.
    pub fn cannot_retry(asset: &str, side: &str) -> (r: Notice)
        ensures
            r@ == NoticeView::cannot_retry(asset@, side@),
    {
        let mut text = "[TRADE] Cannot retry ".to_string();
        text.append(asset);
        text.append(" ");
        text.append(side);
        text.append(" - no current price available");
        Notice::plain(text)
    }

    /// An asset was traded as often as it may be.
    pub fn limit_reached(asset: &str, count: u64, limit: u64, side: &str) -> (r: Notice)
        ensures
            r@ == NoticeView::limit_reached(asset@, count as nat, limit as nat, side@),
    {
        let mut text = "[TRADE] Entry limit reached for ".to_string();
        text.append(asset);
        text.append(" (");
        text.append(u64_text(count).as_str());
        text.append("/");
        text.append(u64_text(limit).as_str());
        text.append(" trades this window) - skipping ");
        text.append(side);
        text.append(" trade");
        Notice::plain(text)
    }

    /// A trade was simulated.
    pub fn simulated(
        retry: u64,
        max_retries: u64,
        slug: &str,
        side: &str,
        price: Number,
        amount: Number,
    ) -> (r: Notice)
        ensures
            r@ == NoticeView::simulated(
                retry as nat,
                max_retries as nat,
                slug@,
                side@,
                price,
                amount,
            ),
    {
        let mut before = "[TRADE] Simulated trade".to_string();
        before.append(retry_mark_text(retry, max_retries).as_str());
        before.append(": ");
        before.append(slug);
        before.append(" ");
        before.append(side);
        before.append(" @ ");
        let middle = " for $".to_string();
        let after = String::new();
        Notice {
            before,
            price: Some(price),
            middle,
            amount: Some(amount),
            after,
        }
    }

    /// An order is about to be placed.
    pub fn executing(
        retry: u64,
        max_retries: u64,
        asset: &str,
        side: &str,
        price: Number,
        amount: Number,
        token_id: &str,
    ) -> (r: Notice)
        ensures
            r@ == NoticeView::executing(
                retry as nat,
                max_retries as nat,
                asset@,
                side@,
                price,
                amount,
                token_id@,
            ),
    {
        let mut before = "[TRADE] Executing".to_string();
        before.append(retry_mark_text(retry, max_retries).as_str());
        before.append(": ");
        before.append(asset);
        before.append(" ");
        before.append(side);
        before.append(" @ ");
        let middle = " for $".to_string();
        let mut after = " (Token: ".to_string();
        after.append(token_id);
        after.append(")");
        Notice {
            before,
            price: Some(price),
            middle,
            amount: Some(amount),
            after,
        }
    }

    /// An order was filled.
    pub fn filled(order_id: &str, retry: u64) -> (r: Notice)
        ensures
            r@ == NoticeView::filled(order_id@, retry as nat),
    {
        let mut text = "[TRADE] Success! Order ID: ".to_string();
        text.append(order_id);
        text.append(retries_mark_text(retry).as_str());
        Notice::plain(text)
    }

    /// An order was not filled and is placed again.
    pub fn retry_unfilled(error: &str, attempt: u64, max_retries: u64) -> (r: Notice)
        ensures
            r@ == NoticeView::retry_unfilled(error@, attempt as nat, max_retries as nat),
    {
        let mut text = "[TRADE] Failed to fill: ".to_string();
        text.append(error);
        text.append(" - Retrying at market price (Attempt ");
        text.append(u64_text(attempt).as_str());
        text.append("/");
        text.append(u64_text(max_retries).as_str());
        text.append(")");
        Notice::plain(text)
    }

    /// An order could not be placed and is placed again.
    pub fn retry_failed(error: &str, attempt: u64, max_retries: u64) -> (r: Notice)
        ensures
            r@ == NoticeView::retry_failed(error@, attempt as nat, max_retries as nat),
    {
        let mut text = "[TRADE] Error: ".to_string();
        text.append(error);
        text.append(" - Retrying at market price (Attempt ");
        text.append(u64_text(attempt).as_str());
        text.append("/");
        text.append(u64_text(max_retries).as_str());
        text.append(")");
        Notice::plain(text)
    }

    /// An order is not placed again.
    pub fn gave_up(max_retries: u64, asset: &str, side: &str, error: &str) -> (r: Notice)
        ensures
            r@ == NoticeView::gave_up(max_retries as nat, asset@, side@, error@),
    {
        let mut text = "[TRADE] Max retries reached (".to_string();
        text.append(u64_text(max_retries).as_str());
        text.append(") - Skipping ");
        text.append(asset);
        text.append(" ");
        text.append(side);
        text.append(" trade. Last error: ");
        text.append(error);
        Notice::plain(text)
    }

    /// A trade was evaluated.
    pub fn evaluated(asset: &str, side: &str, result: &str, price: Number) -> (r: Notice)
        ensures
            r@ == NoticeView::evaluated(asset@, side@, result@, price),
    {
        let mut before = "[EVAL] ".to_string();
        before.append(asset);
        before.append(" ");
        before.append(side);
        before.append(" trade result: ");
        before.append(result);
        before.append(" (final price: ");
        let middle = ")".to_string();
        let after = String::new();
        Notice {
            before,
            price: Some(price),
            middle,
            amount: None,
            after,
        }
    }

    /// The trades of an interval were evaluated.
    pub fn evaluation_done(count: u64, interval_ts: i64) -> (r: Notice)
        ensures
            r@ == NoticeView::evaluation_done(count as nat, interval_ts as int),
    {
        let mut text = "[EVAL] Evaluated ".to_string();
        text.append(u64_text(count).as_str());
        text.append(" trades for interval ending at ");
        text.append(i64_text(interval_ts).as_str());
        Notice::plain(text)
    }

    /// The trader starts.
    pub fn starting() -> (r: Notice)
        ensures
            r@ == NoticeView::starting(),
    {
        let text = "[EVENT] Starting Polymarket Trader...".to_string();
        Notice::plain(text)
    }

    /// New markets are awaited.
    pub fn awaiting_markets() -> (r: Notice)
        ensures
            r@ == NoticeView::awaiting_markets(),
    {
        let text = "[EVENT] Waiting for new markets to be available...".to_string();
        Notice::plain(text)
    }

    /// The markets of an interval are asked for.
    pub fn fetching_markets(timestamp: i64) -> (r: Notice)
        ensures
            r@ == NoticeView::fetching_markets(timestamp as int),
    {
        let mut text = "[EVENT] Fetching markets for interval ending at ".to_string();
        text.append(i64_text(timestamp).as_str());
        Notice::plain(text)
    }

    /// A market came.
    pub fn loaded(asset: &str) -> (r: Notice)
        ensures
            r@ == NoticeView::loaded(asset@),
    {
        let mut text = "[EVENT] Loaded: ".to_string();
        text.append(asset);
        Notice::plain(text)
    }

    /// An event could not be read.
    pub fn unreadable(event_slug: &str, error: &str) -> (r: Notice)
        ensures
            r@ == NoticeView::unreadable(event_slug@, error@),
    {
        let mut text = "[EVENT] Parse error for ".to_string();
        text.append(event_slug);
        text.append(": ");
        text.append(error);
        Notice::plain(text)
    }

    /// An event could not be had.
    pub fn unfetched(event_slug: &str, error: &str) -> (r: Notice)
        ensures
            r@ == NoticeView::unfetched(event_slug@, error@),
    {
        let mut text = "[EVENT] Fetch error for ".to_string();
        text.append(event_slug);
        text.append(": ");
        text.append(error);
        Notice::plain(text)
    }

    /// When the markets are asked for again.
    pub fn next_refresh(seconds: u64) -> (r: Notice)
        ensures
            r@ == NoticeView::next_refresh(seconds as nat),
    {
        let mut text = "[EVENT] Next refresh in ".to_string();
        text.append(minutes_seconds_text(seconds).as_str());
        Notice::plain(text)
    }

    /// The price feed waits for markets.
    pub fn awaiting_tokens() -> (r: Notice)
        ensures
            r@ == NoticeView::awaiting_tokens(),
    {
        let text = "[EVENT] Waiting for market data...".to_string();
        Notice::plain(text)
    }

    /// The price feed is being connected.
    pub fn connecting(count: u64) -> (r: Notice)
        ensures
            r@ == NoticeView::connecting(count as nat),
    {
        let mut text = "[EVENT] Connecting to WebSocket with ".to_string();
        text.append(u64_text(count).as_str());
        text.append(" tokens...");
        Notice::plain(text)
    }

    /// The price feed failed.
    pub fn feed_error(error: &str) -> (r: Notice)
        ensures
            r@ == NoticeView::feed_error(error@),
    {
        let mut text = "WebSocket error: ".to_string();
        text.append(error);
        Notice::plain(text)
    }

    /// The price feed could not be kept alive.
    pub fn ping_failed(error: &str) -> (r: Notice)
        ensures
            r@ == NoticeView::ping_failed(error@),
    {
        let mut text = "Ping failed: ".to_string();
        text.append(error);
        Notice::plain(text)
    }

    /// The price feed has nothing to subscribe to.
    pub fn feed_without_tokens() -> (r: Notice)
        ensures
            r@ == NoticeView::feed_without_tokens(),
    {
        let text = "[EVENT] No tokens to subscribe to, waiting...".to_string();
        Notice::plain(text)
    }

    /// The price feed will be connected again.
    pub fn feed_disconnected() -> (r: Notice)
        ensures
            r@ == NoticeView::feed_disconnected(),
    {
        let text = "[EVENT] WebSocket disconnected, reconnecting in 3s...".to_string();
        Notice::plain(text)
    }

    /// The price feed is connected anew for a new interval.
    pub fn feed_rollover() -> (r: Notice)
        ensures
            r@ == NoticeView::feed_rollover(),
    {
        let text = "[EVENT] Reconnecting for new interval...".to_string();
        Notice::plain(text)
    }

    /// The exchange has accepted the account under an address.
    pub fn authenticated_as(address: &str) -> (r: Notice)
        ensures
            r@ == NoticeView::authenticated_as(address@),
    {
        let mut text =
            "[AUTH] Successfully authenticated with Polymarket CLOB. Address: ".to_string();
        text.append(address);
        Notice::plain(text)
    }

    /// The exchange has not accepted the account.
    pub fn not_authenticated(error: &str) -> (r: Notice)
        ensures
            r@ == NoticeView::not_authenticated(error@),
    {
        let mut text = "[AUTH] Authentication failed: ".to_string();
        text.append(error);
        Notice::plain(text)
    }

    /// Trading could not start.
    pub fn trading_init_error(error: &str) -> (r: Notice)
        ensures
            r@ == NoticeView::trading_init_error(error@),
    {
        let mut text = "Trading init error: ".to_string();
        text.append(error);
        Notice::plain(text)
    }

    /// Trades are placed.
    pub fn live_trading() -> (r: Notice)
        ensures
            r@ == NoticeView::live_trading(),
    {
        let text = "[EVENT] Live Trading ENABLED".to_string();
        Notice::plain(text)
    }

    /// Trades are simulated.
    pub fn simulating() -> (r: Notice)
        ensures
            r@ == NoticeView::simulating(),
    {
        let text = "[EVENT] Trading in SIMULATION mode".to_string();
        Notice::plain(text)
    }

    /// There is no trading.
    pub fn trading_not_configured() -> (r: Notice)
        ensures
            r@ == NoticeView::trading_not_configured(),
    {
        let text = "Trading not configured".to_string();
        Notice::plain(text)
    }

    /// The user asked for a refresh.
    pub fn manual_refresh() -> (r: Notice)
        ensures
            r@ == NoticeView::manual_refresh(),
    {
        let text = "Manual refresh requested...".to_string();
        Notice::plain(text)
    }

    /// An order is about to be signed.
    pub fn signing_order(
        maker: &str,
        signer: &str,
        token_id: &str,
        maker_amount: &str,
        taker_amount: &str,
    ) -> (r: Notice)
        ensures
            r@ == NoticeView::signing_order(
                maker@,
                signer@,
                token_id@,
                maker_amount@,
                taker_amount@,
            ),
    {
        let mut text = "[TRADE] Signing Order: Maker=".to_string();
        text.append(maker);
        text.append(", Signer=");
        text.append(signer);
        text.append(", Token=");
        text.append(token_id);
        text.append(", MakerAmt=");
        text.append(maker_amount);
        text.append(", TakerAmt=");
        text.append(taker_amount);
        Notice::plain(text)
    }

    /// An order was signed.
    pub fn signed_order(owner: &str, signature: &str) -> (r: Notice)
        ensures
            r@ == NoticeView::signed_order(owner@, signature@),
    {
        let mut text = "[TRADE] Signed Order: Owner=".to_string();
        text.append(owner);
        text.append(", Sig=");
        text.append(signature);
        Notice::plain(text)
    }
}

} // verus!
