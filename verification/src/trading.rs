//! The trading strategy: tag a side that has become cheap, buy it when it recovers.
use std::str::FromStr;
use vstd::prelude::*;
use vstd::string::*;

use crate::clock::utc_now;
use crate::clock::UtcInstant;
use crate::config::TradingConfig;
use crate::notice::notice_views;
use crate::notice::Notice;
use crate::notice::NoticeView;
use crate::number::Number;
use crate::number::WIN_PRICE_BITS;
use crate::search::change_first;
use crate::state::has_order;
use crate::state::is_trade;
use crate::state::is_unordered;
use crate::state::text_view;
use crate::state::with_order;
use crate::state::with_price;
use crate::state::with_status;
use crate::state::AppState;
use crate::state::MarketPrices;
use crate::state::MarketTagState;
use crate::state::StateView;
use crate::state::TagState;
use crate::state::TradeRecord;
use crate::state::TradeStatus;
use crate::state::TradeView;
use crate::text::asset_name;
use crate::text::asset_of;
use crate::text::i64_text;
use crate::text::int_text;
use crate::text::is_asset_text;
use crate::text::one_line;
use crate::text::same_text;
use crate::text::single_line;

verus! {

/// How the exchange checks the account's signatures.
#[derive(Clone, Copy, PartialEq, Eq, Structural, Debug)]
pub enum SignatureKind {
    Eoa,
    Proxy,
    GnosisSafe,
}

/// Whether an order buys or sells.
#[derive(Clone, Copy, PartialEq, Eq, Structural, Debug)]
pub enum OrderSide {
    Buy,
    Sell,
}

/// The kind of signatures that a number in the configuration stands for.
pub open spec fn signature_kind_of(signature_type: u8) -> SignatureKind {
    if signature_type == 1 {
        SignatureKind::Proxy
    } else if signature_type == 2 {
        SignatureKind::GnosisSafe
    } else {
        SignatureKind::Eoa
    }
}

/// What is needed to sign in to the exchange: the key, the kind of signatures, and the account
/// that pays, where it is not the key's own.
#[derive(Clone, Debug)]
pub struct AuthPlan {
    pub private_key: [u8; 32],
    pub signature_kind: SignatureKind,
    pub funder: Option<[u8; 20]>,
}

/// Why the configuration does not allow to sign in.
#[derive(Clone, Debug)]
pub enum AuthError {
    PrivateKey(String),
    ProxyAddress(String),
}

impl AuthError {
    /// The message for an error.
    pub fn message(&self) -> (r: String)
        ensures
            r@ == match self {
                AuthError::PrivateKey(e) => "Invalid private key: "@ + e@,
                AuthError::ProxyAddress(e) => "Invalid proxy address: "@ + e@,
            },
    {
        match self {
            AuthError::PrivateKey(e) => {
                let mut text = "Invalid private key: ".to_string();
                text.append(e.as_str());
                text
            },
            AuthError::ProxyAddress(e) => {
                let mut text = "Invalid proxy address: ".to_string();
                text.append(e.as_str());
                text
            },
        }
    }
}

/// Why an order was not placed.
#[derive(Clone, Debug)]
pub enum OrderError {
    NotInitialized,
    InvalidAmount,
    Amount(String),
    Build(String),
    PrivateKey(String),
    Sign(String),
    Post(String),
}

impl OrderError {
    /// The message for an error. What the exchange says goes on one line.
    pub fn message(&self) -> (r: String)
        ensures
            r@ == match self {
                OrderError::NotInitialized => "SDK client not initialized"@,
                OrderError::InvalidAmount => "Invalid amount"@,
                OrderError::Amount(e) => e@,
                OrderError::Build(e) => "Failed to build market order: "@ + e@,
                OrderError::PrivateKey(e) => "Invalid private key: "@ + e@,
                OrderError::Sign(e) => "Failed to sign order: "@ + e@,
                OrderError::Post(e) => "Failed to post order: "@ + one_line(e@),
            },
    {
        match self {
            OrderError::NotInitialized => "SDK client not initialized".to_string(),
            OrderError::InvalidAmount => "Invalid amount".to_string(),
            OrderError::Amount(e) => e.clone(),
            OrderError::Build(e) => {
                let mut text = "Failed to build market order: ".to_string();
                text.append(e.as_str());
                text
            },
            OrderError::PrivateKey(e) => {
                let mut text = "Invalid private key: ".to_string();
                text.append(e.as_str());
                text
            },
            OrderError::Sign(e) => {
                let mut text = "Failed to sign order: ".to_string();
                text.append(e.as_str());
                text
            },
            OrderError::Post(e) => {
                let mut text = "Failed to post order: ".to_string();
                text.append(single_line(e.as_str()).as_str());
                text
            },
        }
    }
}

/// What alloy reads in a text as a private key, or its message where it is none.
pub uninterp spec fn private_key_in(text: Seq<char>) -> Result<Seq<u8>, Seq<char>>;

/// What alloy reads in a text as an address, or its message where it is none.
pub uninterp spec fn address_in(text: Seq<char>) -> Result<Seq<u8>, Seq<char>>;

/// Calls `alloy::signers::local::PrivateKeySigner::from_str` and takes the key's bytes. What it
/// reads, or the message of its error, depends on the text alone and is named
/// [`private_key_in`].
#[verifier::external_body]
fn read_private_key(text: &str) -> (r: Result<[u8; 32], String>)
    ensures
        match r {
            Ok(key) => private_key_in(text@) == Ok::<Seq<u8>, Seq<char>>(key@),
            Err(e) => private_key_in(text@) == Err::<Seq<u8>, Seq<char>>(e@),
        },
{
    match alloy::signers::local::PrivateKeySigner::from_str(text) {
        Ok(signer) => Ok(signer.to_bytes().0),
        Err(e) => Err(e.to_string()),
    }
}

/// Calls `alloy::primitives::Address::from_str` and takes the address's bytes. What it reads, or
/// the message of its error, depends on the text alone and is named [`address_in`].
#[verifier::external_body]
fn read_address(text: &str) -> (r: Result<[u8; 20], String>)
    ensures
        match r {
            Ok(address) => address_in(text@) == Ok::<Seq<u8>, Seq<char>>(address@),
            Err(e) => address_in(text@) == Err::<Seq<u8>, Seq<char>>(e@),
        },
{
    match alloy::primitives::Address::from_str(text) {
        Ok(address) => Ok(address.into_array()),
        Err(e) => Err(e.to_string()),
    }
}

/// The account at the exchange.
#[derive(Clone, Debug)]
pub struct ClobClient {
    /// The address under which the account signed in.
    session: Option<String>,
    private_key: String,
    proxy_address: String,
    signature_type: u8,
}

/// The answer of the exchange to an order.
#[derive(Clone, Debug)]
pub struct OrderResponse {
    pub success: bool,
    pub error_msg: Option<String>,
    pub order_id: Option<String>,
}

/// A [`ClobClient`] with its texts as sequences of characters.
#[verifier::ext_equal]
pub struct ClientView {
    pub session: Option<Seq<char>>,
    pub private_key: Seq<char>,
    pub proxy_address: Seq<char>,
    pub signature_type: u8,
}

impl View for ClobClient {
    type V = ClientView;

    closed spec fn view(&self) -> ClientView {
        ClientView {
            session: text_view(self.session),
            private_key: self.private_key@,
            proxy_address: self.proxy_address@,
            signature_type: self.signature_type,
        }
    }
}

/// The account that a configuration describes, before it signs in.
pub open spec fn client_of(config: TradingConfig) -> ClientView {
    ClientView {
        session: None,
        private_key: config.private_key@,
        proxy_address: config.proxy_address@,
        signature_type: config.signature_type,
    }
}

/// An [`AuthPlan`] over sequences of bytes.
#[verifier::ext_equal]
pub struct PlanView {
    pub private_key: Seq<u8>,
    pub signature_kind: SignatureKind,
    pub funder: Option<Seq<u8>>,
}

impl View for AuthPlan {
    type V = PlanView;

    open spec fn view(&self) -> PlanView {
        PlanView {
            private_key: self.private_key@,
            signature_kind: self.signature_kind,
            funder: match self.funder {
                Some(address) => Some(address@),
                None => None,
            },
        }
    }
}

/// An [`AuthError`] with its text as a sequence of characters.
pub enum AuthErrorView {
    PrivateKey(Seq<char>),
    ProxyAddress(Seq<char>),
}

impl View for AuthError {
    type V = AuthErrorView;

    open spec fn view(&self) -> AuthErrorView {
        match self {
            AuthError::PrivateKey(e) => AuthErrorView::PrivateKey(e@),
            AuthError::ProxyAddress(e) => AuthErrorView::ProxyAddress(e@),
        }
    }
}

/// What an account needs to sign in. A proxy address that is given has to be an address; where
/// none is given, the account pays for itself.
pub open spec fn plan_for(client: ClientView) -> Result<PlanView, AuthErrorView> {
    match private_key_in(client.private_key) {
        Err(message) => Err(AuthErrorView::PrivateKey(message)),
        Ok(private_key) => {
            let signature_kind = signature_kind_of(client.signature_type);
            if client.proxy_address.len() == 0 {
                Ok(PlanView { private_key, signature_kind, funder: None })
            } else {
                match address_in(client.proxy_address) {
                    Err(message) => Err(AuthErrorView::ProxyAddress(message)),
                    Ok(address) => Ok(
                        PlanView { private_key, signature_kind, funder: Some(address) },
                    ),
                }
            }
        },
    }
}

impl ClobClient {
    /// The account that a configuration describes.
    pub fn new(config: &TradingConfig) -> (r: ClobClient)
        ensures
            r@ == client_of(*config),
    {
        ClobClient {
            session: None,
            private_key: config.private_key.clone(),
            proxy_address: config.proxy_address.clone(),
            signature_type: config.signature_type,
        }
    }

    /// What is needed to sign in. A proxy address that is given has to be an address; where none
    /// is given, the account pays for itself.
    pub fn auth_plan(&self) -> (r: Result<AuthPlan, AuthError>)
        ensures
            match plan_for(self@) {
                Ok(wanted) => r matches Ok(plan) && plan@ == wanted,
                Err(wanted) => r matches Err(e) && e@ == wanted,
            },
    {
        let private_key = match read_private_key(self.private_key.as_str()) {
            Ok(key) => key,
            Err(e) => {
                return Err(AuthError::PrivateKey(e));
            },
        };
        let signature_kind = match self.signature_type {
            1 => SignatureKind::Proxy,
            2 => SignatureKind::GnosisSafe,
            _ => SignatureKind::Eoa,
        };
        let funder = if !self.proxy_address.as_str().is_empty() {
            match read_address(self.proxy_address.as_str()) {
                Ok(address) => Some(address),
                Err(e) => {
                    return Err(AuthError::ProxyAddress(e));
                },
            }
        } else {
            None
        };
        Ok(AuthPlan { private_key, signature_kind, funder })
    }

    /// The key that signs orders.
    pub fn signing_key(&self) -> (r: Result<[u8; 32], OrderError>)
        ensures
            match private_key_in(self@.private_key) {
                Err(message) => r matches Err(OrderError::PrivateKey(e)) && e@ == message,
                Ok(bytes) => r matches Ok(key) && key@ == bytes,
            },
    {
        match read_private_key(self.private_key.as_str()) {
            Ok(key) => Ok(key),
            Err(e) => Err(OrderError::PrivateKey(e)),
        }
    }

    /// Notes that the account has signed in under an address.
    pub fn signed_in(&mut self, address: String)
        ensures
            final(self)@ == (ClientView { session: Some(address@), ..old(self)@ }),
    {
        self.session = Some(address);
    }

    /// The address under which the account signed in.
    pub fn address(&self) -> (r: Option<String>)
        ensures
            text_view(r) == self@.session,
    {
        self.session.clone()
    }

    /// Whether orders can be placed: the account has signed in.
    pub fn ready(&self) -> (r: Result<(), OrderError>)
        ensures
            match self@.session {
                None => r == Err::<(), OrderError>(OrderError::NotInitialized),
                Some(_) => r is Ok,
            },
    {
        match &self.session {
            Some(_) => Ok(()),
            None => Err(OrderError::NotInitialized),
        }
    }

    /// Whether an order buys: the word for that is `BUY`.
    pub fn order_side(side: &str) -> (r: OrderSide)
        ensures
            r == if side@ == "BUY"@ {
                OrderSide::Buy
            } else {
                OrderSide::Sell
            },
    {
        if same_text(side, "BUY") {
            OrderSide::Buy
        } else {
            OrderSide::Sell
        }
    }
}

/// What the strategy wants for one side of a market.
#[derive(Clone, Debug)]
pub struct SideSignal {
    /// The side was tagged.
    pub tag: bool,
    /// The side is to be bought.
    pub execute: bool,
    pub price: Number,
    pub token_id: Option<String>,
}

/// What the strategy wants for a market.
#[derive(Clone, Debug)]
pub struct MarketSignals {
    pub asset: String,
    pub up: SideSignal,
    pub down: SideSignal,
}

/// A [`SideSignal`] with its text as a sequence of characters.
#[verifier::ext_equal]
pub struct SideView {
    pub tag: bool,
    pub execute: bool,
    pub price: Number,
    pub token_id: Option<Seq<char>>,
}

/// A [`MarketSignals`] with its texts as sequences of characters.
#[verifier::ext_equal]
pub struct SignalsView {
    pub asset: Seq<char>,
    pub up: SideView,
    pub down: SideView,
}

impl View for SideSignal {
    type V = SideView;

    open spec fn view(&self) -> SideView {
        SideView {
            tag: self.tag,
            execute: self.execute,
            price: self.price,
            token_id: text_view(self.token_id),
        }
    }
}

impl View for MarketSignals {
    type V = SignalsView;

    open spec fn view(&self) -> SignalsView {
        SignalsView { asset: self.asset@, up: self.up@, down: self.down@ }
    }
}

/// Whether the time is in the monitoring window: before the end of the interval, by at most as
/// many seconds as the window has.
pub open spec fn in_window(next_interval_ts: int, now: int, window_seconds: u64) -> bool {
    0 < next_interval_ts - now <= window_seconds
}

/// An ask, zero where there is none.
pub open spec fn ask_or_zero(ask: Option<Number>) -> Number {
    match ask {
        Some(price) => price,
        None => Number::zero(),
    }
}

/// Whether prices are from the current interval.
pub open spec fn is_fresh(prices: MarketPrices, next_interval_ts: int) -> bool {
    prices.last_update.secs >= next_interval_ts - 300
}

/// Whether a side is to be tagged: it is not, its price is of this interval, above zero and
/// below the threshold, and its asset may still be traded.
pub open spec fn should_tag(
    tag: TagState,
    price: Number,
    fresh: bool,
    tradable: bool,
    threshold: Number,
) -> bool {
    !tag.tagged && fresh && price.lt(threshold) && Number::zero().lt(price) && tradable
}

/// Whether a side is to be bought: it is tagged, and its price has recovered above the threshold.
pub open spec fn should_execute(tag: TagState, price: Number, threshold: Number) -> bool {
    tag.tagged && threshold.lt(price)
}

/// The tag of a side after a decision.
pub open spec fn tag_after(
    tag: TagState,
    tagging: bool,
    executing: bool,
    now: UtcInstant,
) -> TagState {
    if executing {
        TagState::untagged()
    } else if tagging {
        TagState { tagged: true, tagged_at: Some(now) }
    } else {
        tag
    }
}

impl StateView {
    /// The tags of a market; none where it has no entry.
    pub open spec fn tags_of(self, slug: Seq<char>) -> MarketTagState {
        if self.tags.contains_key(slug) {
            self.tags[slug]
        } else {
            MarketTagState::untagged()
        }
    }

    /// Whether the strategy looks at a market: the time is in the window, and the market has
    /// prices.
    pub open spec fn is_monitored(
        self,
        slug: Seq<char>,
        next_interval_ts: i64,
        now: UtcInstant,
        config: TradingConfig,
    ) -> bool {
        in_window(
            next_interval_ts as int,
            now.secs as int,
            config.monitoring_window_seconds,
        ) && self.prices.contains_key(slug)
    }

    /// What the strategy wants for a market that it looks at.
    pub open spec fn signals(
        self,
        slug: Seq<char>,
        next_interval_ts: i64,
        config: TradingConfig,
    ) -> SignalsView {
        let asset = asset_name(slug);
        let prices = self.prices[slug];
        let tags = self.tags_of(slug);
        let up_price = ask_or_zero(prices.up_best_ask);
        let down_price = ask_or_zero(prices.down_best_ask);
        let fresh = is_fresh(prices, next_interval_ts as int);
        let tradable = self.under_limit(asset, config.max_asset_trades, next_interval_ts);
        SignalsView {
            asset,
            up: SideView {
                tag: should_tag(tags.up, up_price, fresh, tradable, config.tag_threshold),
                execute: should_execute(tags.up, up_price, config.execute_threshold),
                price: up_price,
                token_id: if self.markets.contains_key(slug) {
                    Some(self.markets[slug].up_token_id@)
                } else {
                    None
                },
            },
            down: SideView {
                tag: should_tag(tags.down, down_price, fresh, tradable, config.tag_threshold),
                execute: should_execute(tags.down, down_price, config.execute_threshold),
                price: down_price,
                token_id: if self.markets.contains_key(slug) {
                    Some(self.markets[slug].down_token_id@)
                } else {
                    None
                },
            },
        }
    }

    /// After the strategy has looked at a market: its tags follow the signals, and the window of
    /// its asset is the current one.
    pub open spec fn monitored(
        self,
        slug: Seq<char>,
        next_interval_ts: i64,
        now: UtcInstant,
        config: TradingConfig,
    ) -> StateView {
        let signals = self.signals(slug, next_interval_ts, config);
        let tags = self.tags_of(slug);
        StateView {
            tags: self.tags.insert(
                slug,
                MarketTagState {
                    up: tag_after(tags.up, signals.up.tag, signals.up.execute, now),
                    down: tag_after(tags.down, signals.down.tag, signals.down.execute, now),
                },
            ),
            ..self.rolled(signals.asset, next_interval_ts)
        }
    }
}

/// Something to do about a market: to tell the user, or to buy a side.
#[derive(Clone, Debug)]
pub enum SignalAction {
    Tell(Notice),
    Trade(TradeAttempt),
}

/// A [`SignalAction`] over sequences of characters.
pub enum ActionView {
    Tell(NoticeView),
    Trade(AttemptView),
}

impl View for SignalAction {
    type V = ActionView;

    open spec fn view(&self) -> ActionView {
        match self {
            SignalAction::Tell(notice) => ActionView::Tell(notice@),
            SignalAction::Trade(attempt) => ActionView::Trade(attempt@),
        }
    }
}

/// The views of actions.
pub open spec fn action_views(actions: Seq<SignalAction>) -> Seq<ActionView> {
    Seq::new(actions.len(), |i: int| actions[i]@)
}

/// What to do about one side of a market, in order: tell of the tag, tell of the recovery, buy.
pub open spec fn side_actions(
    slug: Seq<char>,
    asset: Seq<char>,
    side: Seq<char>,
    signal: SideView,
) -> Seq<ActionView> {
    let tell_tag = if signal.tag {
        seq![ActionView::Tell(NoticeView::tagged(asset, side, signal.price))]
    } else {
        Seq::empty()
    };
    let tell_execute = if signal.execute {
        seq![ActionView::Tell(NoticeView::execute_signal(asset, side, signal.price))]
    } else {
        Seq::empty()
    };
    let trade = match signal.token_id {
        Some(token_id) if signal.execute => seq![
            ActionView::Trade(
                AttemptView {
                    market_slug: slug,
                    token_id,
                    side,
                    original_price: signal.price,
                    retry_count: 0,
                },
            ),
        ],
        _ => Seq::empty(),
    };
    tell_tag + tell_execute + trade
}

/// An attempt to buy a side of a market.
#[derive(Clone, Debug)]
pub struct TradeAttempt {
    pub market_slug: String,
    pub token_id: String,
    /// `UP` or `DOWN`.
    pub side: String,
    /// The price at which the side was to be bought at first.
    pub original_price: Number,
    /// How many attempts there were before.
    pub retry_count: u32,
}

/// A [`TradeAttempt`] with its texts as sequences of characters.
#[verifier::ext_equal]
pub struct AttemptView {
    pub market_slug: Seq<char>,
    pub token_id: Seq<char>,
    pub side: Seq<char>,
    pub original_price: Number,
    pub retry_count: u32,
}

impl View for TradeAttempt {
    type V = AttemptView;

    open spec fn view(&self) -> AttemptView {
        AttemptView {
            market_slug: self.market_slug@,
            token_id: self.token_id@,
            side: self.side@,
            original_price: self.original_price,
            retry_count: self.retry_count,
        }
    }
}

/// What an attempt leads to: notices, and whether the order is to be placed.
#[derive(Clone, Debug)]
pub struct AttemptStep {
    pub notices: Vec<Notice>,
    pub place_order: bool,
}

/// What the answer to an order leads to: notices, and where the order is to be placed again, the
/// attempt that does so.
#[derive(Clone, Debug)]
pub struct SettleStep {
    pub notices: Vec<Notice>,
    pub retry: Option<TradeAttempt>,
}

/// What came of placing an order: an answer, or a message why there is none.
#[derive(Clone, Debug)]
pub enum OrderOutcome {
    Answered(OrderResponse),
    Failed(String),
}

/// An [`OrderOutcome`] over sequences of characters.
pub enum OutcomeView {
    Filled(Option<Seq<char>>),
    Unfilled(Option<Seq<char>>),
    Failed(Seq<char>),
}

impl View for OrderOutcome {
    type V = OutcomeView;

    open spec fn view(&self) -> OutcomeView {
        match self {
            OrderOutcome::Answered(response) => if response.success {
                OutcomeView::Filled(text_view(response.order_id))
            } else {
                OutcomeView::Unfilled(text_view(response.error_msg))
            },
            OrderOutcome::Failed(message) => OutcomeView::Failed(message@),
        }
    }
}

/// The ask of one side.
pub open spec fn side_ask(prices: MarketPrices, side: Seq<char>) -> Option<Number> {
    if side == "UP"@ {
        prices.up_best_ask
    } else {
        prices.down_best_ask
    }
}

/// The state, the notices, and whether an order is to be placed.
pub struct AttemptResult {
    pub state: StateView,
    pub notices: Seq<NoticeView>,
    pub place_order: bool,
}

/// The state, the notices, and the attempt that follows.
pub struct SettleResult {
    pub state: StateView,
    pub notices: Seq<NoticeView>,
    pub retry: Option<AttemptView>,
}

/// The record of a trade.
pub open spec fn trade_of(
    attempt: AttemptView,
    config: TradingConfig,
    interval_ts: i64,
    price: Number,
    status: TradeStatus,
    order_id: Option<Seq<char>>,
    now: UtcInstant,
) -> TradeView {
    TradeView {
        timestamp: now,
        market_slug: attempt.market_slug,
        asset: asset_name(attempt.market_slug),
        side: attempt.side,
        amount: config.bet_amount,
        price,
        status,
        order_id,
        interval_ts,
        result: None,
    }
}

impl AttemptView {
    /// The price of an attempt: the first one's own, a later one's the current ask, where there
    /// is one. Without prices of the market there is no later attempt.
    pub open spec fn price_in(self, state: StateView) -> Option<Number> {
        if self.retry_count == 0 {
            Some(self.original_price)
        } else if state.prices.contains_key(self.market_slug) {
            match side_ask(state.prices[self.market_slug], self.side) {
                Some(ask) => Some(ask),
                None => Some(self.original_price),
            }
        } else {
            None
        }
    }

    /// What an attempt leads to. The first one is counted, and goes no further where the asset
    /// has reached its limit. Where trades are simulated it ends there, with a successful trade
    /// on record. Where the account is known, a pending trade is on record, at the attempt's
    /// price, and the order is to be placed.
    pub open spec fn begin(
        self,
        state: StateView,
        config: TradingConfig,
        has_client: bool,
        now: UtcInstant,
    ) -> AttemptResult {
        let asset = asset_name(self.market_slug);
        let ts = state.next_interval;
        let max = config.max_asset_trades;
        let first = self.retry_count == 0;
        match self.price_in(state) {
            None => AttemptResult {
                state,
                notices: seq![NoticeView::cannot_retry(asset, self.side)],
                place_order: false,
            },
            Some(price) => if first && !state.under_limit(asset, max, ts) {
                AttemptResult {
                    state: state.rolled(asset, ts),
                    notices: seq![
                        NoticeView::limit_reached(
                            asset,
                            state.window_of(asset, ts).trade_count as nat,
                            max as nat,
                            self.side,
                        ),
                    ],
                    place_order: false,
                }
            } else {
                let entered = if first {
                    state.attempted(asset, max, ts)
                } else {
                    state
                };
                if !config.enabled {
                    let order_id = "SIM_"@ + int_text(now.secs as int);
                    let traded = entered.traded(
                        trade_of(
                            self,
                            config,
                            ts,
                            price,
                            TradeStatus::Success,
                            Some(order_id),
                            now,
                        ),
                    );
                    AttemptResult {
                        state: traded,
                        notices: seq![
                            NoticeView::simulated(
                                self.retry_count as nat,
                                config.max_retries as nat,
                                self.market_slug,
                                self.side,
                                price,
                                config.bet_amount,
                            ),
                        ],
                        place_order: false,
                    }
                } else if has_client {
                    AttemptResult {
                        state: if first {
                            entered.traded(
                                trade_of(self, config, ts, price, TradeStatus::Pending, None, now),
                            )
                        } else {
                            entered.with_trades(
                                change_first(
                                    entered.trades,
                                    is_trade(
                                        self.market_slug,
                                        asset,
                                        self.side,
                                        TradeStatus::Pending,
                                    ),
                                    with_price(price),
                                ),
                            )
                        },
                        notices: seq![
                            NoticeView::executing(
                                self.retry_count as nat,
                                config.max_retries as nat,
                                asset,
                                self.side,
                                price,
                                config.bet_amount,
                                self.token_id,
                            ),
                        ],
                        place_order: true,
                    }
                } else {
                    AttemptResult { state: entered, notices: Seq::empty(), place_order: false }
                }
            },
        }
    }

    /// What a failed order leads to: another attempt as long as there are retries left, else the
    /// pending trade is marked as failed.
    pub open spec fn fail(
        self,
        state: StateView,
        config: TradingConfig,
        error: Seq<char>,
        answered: bool,
    ) -> SettleResult {
        let asset = asset_name(self.market_slug);
        let max = config.max_retries as nat;
        let next = self.retry_count as nat + 1;
        if self.retry_count < config.max_retries {
            SettleResult {
                state,
                notices: seq![
                    if answered {
                        NoticeView::retry_unfilled(error, next, max)
                    } else {
                        NoticeView::retry_failed(error, next, max)
                    },
                ],
                retry: Some(AttemptView { retry_count: next as u32, ..self }),
            }
        } else {
            SettleResult {
                state: state.with_trades(
                    change_first(
                        state.trades,
                        is_trade(self.market_slug, asset, self.side, TradeStatus::Pending),
                        with_status(TradeStatus::Failed),
                    ),
                ),
                notices: seq![NoticeView::gave_up(max, asset, self.side, error)],
                retry: None,
            }
        }
    }

    /// What the answer to an order leads to. Where it was filled, the pending trade gets the
    /// order's id and is successful.
    pub open spec fn settle(
        self,
        state: StateView,
        config: TradingConfig,
        outcome: OutcomeView,
    ) -> SettleResult {
        let asset = asset_name(self.market_slug);
        let retry = self.retry_count as nat;
        match outcome {
            OutcomeView::Filled(None) => SettleResult {
                state,
                notices: seq![NoticeView::filled("unknown"@, retry)],
                retry: None,
            },
            OutcomeView::Filled(Some(id)) => {
                let ordered = change_first(
                    state.trades,
                    is_unordered(self.market_slug, asset, self.side),
                    with_order(id),
                );
                SettleResult {
                    state: state.with_trades(
                        change_first(ordered, has_order(id), with_status(TradeStatus::Success)),
                    ),
                    notices: seq![NoticeView::filled(id, retry)],
                    retry: None,
                }
            },
            OutcomeView::Unfilled(message) => self.fail(
                state,
                config,
                one_line(
                    match message {
                        Some(error) => error,
                        None => "Unknown error"@,
                    },
                ),
                true,
            ),
            OutcomeView::Failed(error) => self.fail(state, config, error, false),
        }
    }
}

/// The strategy, with its account where trades are to be placed.
pub struct TradingMonitor {
    config: TradingConfig,
    clob_client: Option<ClobClient>,
}

impl TradingMonitor {
    /// The configuration.
    pub closed spec fn settings(&self) -> TradingConfig {
        self.config
    }

    /// The account.
    pub closed spec fn client(&self) -> Option<ClientView> {
        match self.clob_client {
            Some(client) => Some(client@),
            None => None,
        }
    }

    /// The strategy that a configuration describes. It has an account where trading is enabled
    /// and there is a private key.
    pub fn new(config: TradingConfig) -> (r: TradingMonitor)
        ensures
            r.settings() == config,
            r.client() == if config.enabled && config.private_key@.len() > 0 {
                Some(client_of(config))
            } else {
                None
            },
    {
        let clob_client = if config.enabled && !config.private_key.as_str().is_empty() {
            Some(ClobClient::new(&config))
        } else {
            None
        };
        TradingMonitor { config, clob_client }
    }

    /// The configuration.
    pub fn trading_config(&self) -> (r: &TradingConfig)
        ensures
            *r == self.settings(),
    {
        &self.config
    }

    /// The account.
    pub fn account(&self) -> (r: Option<&ClobClient>)
        ensures
            match r {
                Some(client) => self.client() == Some(client@),
                None => self.client() is None,
            },
    {
        match &self.clob_client {
            Some(client) => Some(client),
            None => None,
        }
    }

    /// Takes what came of signing in: the address, or a message why it failed. Without an
    /// account there is nothing to take.
    pub fn finish_initialize(&mut self, outcome: Result<String, String>) -> (r: Option<Notice>)
        ensures
            final(self).settings() == old(self).settings(),
            match old(self).client() {
                None => r is None && final(self).client() is None,
                Some(client) => match outcome {
                    Ok(address) => {
                        &&& final(self).client() == Some(
                            ClientView { session: Some(address@), ..client },
                        )
                        &&& r matches Some(notice) && notice@ == NoticeView::authenticated_as(
                            address@,
                        )
                    },
                    Err(e) => {
                        &&& final(self).client() == Some(client)
                        &&& r matches Some(notice) && notice@ == NoticeView::not_authenticated(e@)
                    },
                },
            },
    {
        match &mut self.clob_client {
            Some(client) => match outcome {
                Ok(address) => {
                    let notice = Notice::authenticated_as(address.as_str());
                    client.signed_in(address);
                    Some(notice)
                },
                Err(e) => Some(Notice::not_authenticated(e.as_str())),
            },
            None => None,
        }
    }

    /// The asset that a market is about.
    pub fn extract_asset_name(&self, market_slug: &str) -> (r: String)
        ensures
            r@ == asset_name(market_slug@),
            is_asset_text(market_slug@, r@),
    {
        asset_of(market_slug)
    }

    /// The token for the up side of a market.
    pub fn get_up_token_id(&self, state: &AppState, market_slug: &str) -> (r: Option<String>)
        ensures
            text_view(r) == if state@.markets.contains_key(market_slug@) {
                Some(state@.markets[market_slug@].up_token_id@)
            } else {
                None
            },
    {
        match state.tracked_markets.get(market_slug) {
            Some(info) => Some(info.up_token_id.clone()),
            None => None,
        }
    }

    /// The token for the down side of a market.
    pub fn get_down_token_id(&self, state: &AppState, market_slug: &str) -> (r: Option<String>)
        ensures
            text_view(r) == if state@.markets.contains_key(market_slug@) {
                Some(state@.markets[market_slug@].down_token_id@)
            } else {
                None
            },
    {
        match state.tracked_markets.get(market_slug) {
            Some(info) => Some(info.down_token_id.clone()),
            None => None,
        }
    }

    /// Looks at a market, as of now.
    pub fn monitor_market(
        &self,
        state: &mut AppState,
        market_slug: &str,
        next_interval_ts: i64,
    ) -> (r: Option<MarketSignals>)
        ensures
            exists|now: UtcInstant|
                {
                    &&& now.valid()
                    &&& if #[trigger] old(state)@.is_monitored(
                        market_slug@,
                        next_interval_ts,
                        now,
                        self.settings(),
                    ) {
                        &&& r matches Some(signals) && signals@ == old(state)@.signals(
                            market_slug@,
                            next_interval_ts,
                            self.settings(),
                        )
                        &&& final(state)@ == old(state)@.monitored(
                            market_slug@,
                            next_interval_ts,
                            now,
                            self.settings(),
                        )
                    } else {
                        r is None && final(state)@ == old(state)@
                    }
                },
    {
        let now = utc_now();
        self.monitor_market_at(state, market_slug, next_interval_ts, now)
    }

    /// Looks at a market, as of `now`.
    pub fn monitor_market_at(
        &self,
        state: &mut AppState,
        market_slug: &str,
        next_interval_ts: i64,
        now: UtcInstant,
    ) -> (r: Option<MarketSignals>)
        ensures
            if old(state)@.is_monitored(market_slug@, next_interval_ts, now, self.settings()) {
                &&& r matches Some(signals) && signals@ == old(state)@.signals(
                    market_slug@,
                    next_interval_ts,
                    self.settings(),
                )
                &&& final(state)@ == old(state)@.monitored(
                    market_slug@,
                    next_interval_ts,
                    now,
                    self.settings(),
                )
            } else {
                r is None && final(state)@ == old(state)@
            },
    {
        let ghost before = state@;
        let time_until_interval: i128 = next_interval_ts as i128 - now.secs as i128;
        let window: i128 = self.config.monitoring_window_seconds as i128;
        if !(time_until_interval > 0 && time_until_interval <= window) {
            return None;
        }
        let asset = self.extract_asset_name(market_slug);
        let prices = match state.current_prices.get(market_slug) {
            Some(prices) => *prices,
            None => {
                return None;
            },
        };
        let up_price = price_or_zero(prices.up_best_ask);
        let down_price = price_or_zero(prices.down_best_ask);
        let fresh = prices.last_update.secs as i128 >= next_interval_ts as i128 - 300;
        let mut tags = match state.tag_states.get(market_slug) {
            Some(tags) => *tags,
            None => MarketTagState::default(),
        };
        let tradable = state.can_trade_asset(
            asset.as_str(),
            self.config.max_asset_trades,
            next_interval_ts,
        );
        let up_tag = self.wants_tag(tags.up, up_price, fresh, tradable);
        let up_execute = tags.up.tagged && self.config.execute_threshold.is_less_than(&up_price);
        let down_tag = self.wants_tag(tags.down, down_price, fresh, tradable);
        let down_execute = tags.down.tagged && self.config.execute_threshold.is_less_than(
            &down_price,
        );
        if up_tag {
            tags.up = TagState { tagged: true, tagged_at: Some(now) };
        }
        if up_execute {
            tags.up = TagState { tagged: false, tagged_at: None };
        }
        if down_tag {
            tags.down = TagState { tagged: true, tagged_at: Some(now) };
        }
        if down_execute {
            tags.down = TagState { tagged: false, tagged_at: None };
        }
        state.tag_states.insert(market_slug.to_string(), tags);
        let up_token_id = self.get_up_token_id(state, market_slug);
        let down_token_id = self.get_down_token_id(state, market_slug);
        assert(state@ =~= before.monitored(market_slug@, next_interval_ts, now, self.config));
        Some(
            MarketSignals {
                asset,
                up: SideSignal {
                    tag: up_tag,
                    execute: up_execute,
                    price: up_price,
                    token_id: up_token_id,
                },
                down: SideSignal {
                    tag: down_tag,
                    execute: down_execute,
                    price: down_price,
                    token_id: down_token_id,
                },
            },
        )
    }

    /// Whether a side is to be tagged, as [`should_tag`] says.
    fn wants_tag(&self, tag: TagState, price: Number, fresh: bool, tradable: bool) -> (r: bool)
        ensures
            r == should_tag(tag, price, fresh, tradable, self.settings().tag_threshold),
    {
        !tag.tagged && fresh && price.is_less_than(&self.config.tag_threshold)
            && Number::from_bits(0).is_less_than(&price) && tradable
    }

    /// What to do about a market, in order: first about its up side, then about its down side.
    pub fn signal_actions(market_slug: &str, signals: &MarketSignals) -> (r: Vec<SignalAction>)
        ensures
            action_views(r@) == side_actions(
                market_slug@,
                signals@.asset,
                "UP"@,
                signals@.up,
            ) + side_actions(market_slug@, signals@.asset, "DOWN"@, signals@.down),
    {
        let mut actions: Vec<SignalAction> = Vec::new();
        push_side_actions(&mut actions, market_slug, signals.asset.as_str(), "UP", &signals.up);
        push_side_actions(&mut actions, market_slug, signals.asset.as_str(), "DOWN", &signals.down);
        actions
    }

    /// The first attempt to buy a side of a market.
    pub fn execute_trade(market_slug: &str, token_id: &str, side: &str, price: Number) -> (r:
        TradeAttempt)
        ensures
            r@ == (AttemptView {
                market_slug: market_slug@,
                token_id: token_id@,
                side: side@,
                original_price: price,
                retry_count: 0,
            }),
    {
        TradeAttempt {
            market_slug: market_slug.to_string(),
            token_id: token_id.to_string(),
            side: side.to_string(),
            original_price: price,
            retry_count: 0,
        }
    }

    /// Makes an attempt to buy a side of a market, up to the placing of the order, as of now.
    pub fn execute_trade_with_retries(&self, state: &mut AppState, attempt: &TradeAttempt) -> (r:
        AttemptStep)
        ensures
            exists|now: UtcInstant|
                {
                    &&& now.valid()
                    &&& final(state)@ == (#[trigger] attempt@.begin(
                        old(state)@,
                        self.settings(),
                        self.client() is Some,
                        now,
                    )).state
                    &&& notice_views(r.notices@) == attempt@.begin(
                        old(state)@,
                        self.settings(),
                        self.client() is Some,
                        now,
                    ).notices
                    &&& r.place_order == attempt@.begin(
                        old(state)@,
                        self.settings(),
                        self.client() is Some,
                        now,
                    ).place_order
                },
    {
        let now = utc_now();
        self.execute_trade_with_retries_at(state, attempt, now)
    }

    /// Makes an attempt to buy a side of a market, up to the placing of the order, as of `now`.
    pub fn execute_trade_with_retries_at(
        &self,
        state: &mut AppState,
        attempt: &TradeAttempt,
        now: UtcInstant,
    ) -> (r: AttemptStep)
        ensures
            final(state)@ == attempt@.begin(
                old(state)@,
                self.settings(),
                self.client() is Some,
                now,
            ).state,
            notice_views(r.notices@) == attempt@.begin(
                old(state)@,
                self.settings(),
                self.client() is Some,
                now,
            ).notices,
            r.place_order == attempt@.begin(
                old(state)@,
                self.settings(),
                self.client() is Some,
                now,
            ).place_order,
    {
        let ghost before = state@;
        let ghost result = attempt@.begin(before, self.config, self.clob_client is Some, now);
        let slug = attempt.market_slug.as_str();
        let side = attempt.side.as_str();
        let asset = self.extract_asset_name(slug);
        let next_interval_ts = state.next_interval;
        let retry_count = attempt.retry_count;
        let max_retries = self.config.max_retries as u64;
        let mut notices: Vec<Notice> = Vec::new();

        let current_price = if retry_count > 0 {
            match state.current_prices.get(slug) {
                Some(prices) => {
                    let ask = if same_text(side, "UP") {
                        prices.up_best_ask
                    } else {
                        prices.down_best_ask
                    };
                    match ask {
                        Some(price) => price,
                        None => attempt.original_price,
                    }
                },
                None => {
                    notices.push(Notice::cannot_retry(asset.as_str(), side));
                    assert(notice_views(notices@) =~= result.notices);
                    return AttemptStep { notices, place_order: false };
                },
            }
        } else {
            attempt.original_price
        };

        if retry_count == 0 {
            let max = self.config.max_asset_trades;
            if !state.try_trade_asset(asset.as_str(), max, next_interval_ts) {
                let count = state.get_asset_trade_count(asset.as_str(), next_interval_ts);
                notices.push(Notice::limit_reached(asset.as_str(), count as u64, max as u64, side));
                assert(notice_views(notices@) =~= result.notices);
                return AttemptStep { notices, place_order: false };
            }
        }
        if !self.config.enabled {
            notices.push(
                Notice::simulated(
                    retry_count as u64,
                    max_retries,
                    slug,
                    side,
                    current_price,
                    self.config.bet_amount,
                ),
            );
            let mut order_id = "SIM_".to_string();
            order_id.append(i64_text(now.secs).as_str());
            state.add_trade(
                TradeRecord {
                    timestamp: now,
                    market_slug: attempt.market_slug.clone(),
                    asset: asset.clone(),
                    side: attempt.side.clone(),
                    amount: self.config.bet_amount,
                    price: current_price,
                    status: TradeStatus::Success,
                    order_id: Some(order_id),
                    interval_ts: next_interval_ts,
                    result: None,
                },
            );
            assert(notice_views(notices@) =~= result.notices);
            return AttemptStep { notices, place_order: false };
        }
        if self.clob_client.is_none() {
            assert(notice_views(notices@) =~= result.notices);
            return AttemptStep { notices, place_order: false };
        }
        notices.push(
            Notice::executing(
                retry_count as u64,
                max_retries,
                asset.as_str(),
                side,
                current_price,
                self.config.bet_amount,
                attempt.token_id.as_str(),
            ),
        );
        if retry_count == 0 {
            state.add_trade(
                TradeRecord {
                    timestamp: now,
                    market_slug: attempt.market_slug.clone(),
                    asset: asset.clone(),
                    side: attempt.side.clone(),
                    amount: self.config.bet_amount,
                    price: current_price,
                    status: TradeStatus::Pending,
                    order_id: None,
                    interval_ts: next_interval_ts,
                    result: None,
                },
            );
        } else {
            state.update_trade_price(slug, asset.as_str(), side, current_price);
        }
        assert(notice_views(notices@) =~= result.notices);
        AttemptStep { notices, place_order: true }
    }

    /// Takes what came of placing the order of an attempt.
    pub fn settle_order(
        &self,
        state: &mut AppState,
        attempt: &TradeAttempt,
        outcome: OrderOutcome,
    ) -> (r: SettleStep)
        ensures
            final(state)@ == attempt@.settle(old(state)@, self.settings(), outcome@).state,
            notice_views(r.notices@) == attempt@.settle(
                old(state)@,
                self.settings(),
                outcome@,
            ).notices,
            match attempt@.settle(old(state)@, self.settings(), outcome@).retry {
                Some(next) => r.retry matches Some(retry) && retry@ == next,
                None => r.retry is None,
            },
    {
        let ghost result = attempt@.settle(state@, self.config, outcome@);
        let asset = self.extract_asset_name(attempt.market_slug.as_str());
        match outcome {
            OrderOutcome::Answered(response) => {
                if response.success {
                    let mut notices: Vec<Notice> = Vec::new();
                    match response.order_id {
                        Some(order_id) => {
                            notices.push(
                                Notice::filled(order_id.as_str(), attempt.retry_count as u64),
                            );
                            state.set_trade_order_id(
                                attempt.market_slug.as_str(),
                                asset.as_str(),
                                attempt.side.as_str(),
                                order_id.clone(),
                            );
                            state.update_trade_status(order_id.as_str(), TradeStatus::Success);
                        },
                        None => {
                            notices.push(Notice::filled("unknown", attempt.retry_count as u64));
                        },
                    }
                    assert(notice_views(notices@) =~= result.notices);
                    SettleStep { notices, retry: None }
                } else {
                    let error = match response.error_msg {
                        Some(message) => single_line(message.as_str()),
                        None => single_line("Unknown error"),
                    };
                    self.fail_order(state, attempt, error.as_str(), true)
                }
            },
            OrderOutcome::Failed(error) => self.fail_order(state, attempt, error.as_str(), false),
        }
    }

    /// Takes the failure of the order of an attempt.
    fn fail_order(
        &self,
        state: &mut AppState,
        attempt: &TradeAttempt,
        error: &str,
        answered: bool,
    ) -> (r: SettleStep)
        ensures
            final(state)@ == attempt@.fail(old(state)@, self.settings(), error@, answered).state,
            notice_views(r.notices@) == attempt@.fail(
                old(state)@,
                self.settings(),
                error@,
                answered,
            ).notices,
            match attempt@.fail(old(state)@, self.settings(), error@, answered).retry {
                Some(next) => r.retry matches Some(retry) && retry@ == next,
                None => r.retry is None,
            },
    {
        let ghost result = attempt@.fail(state@, self.config, error@, answered);
        let mut notices: Vec<Notice> = Vec::new();
        let max_retries = self.config.max_retries as u64;
        if attempt.retry_count < self.config.max_retries {
            let next: u32 = attempt.retry_count + 1;
            notices.push(
                if answered {
                    Notice::retry_unfilled(error, next as u64, max_retries)
                } else {
                    Notice::retry_failed(error, next as u64, max_retries)
                },
            );
            assert(notice_views(notices@) =~= result.notices);
            SettleStep {
                notices,
                retry: Some(
                    TradeAttempt {
                        market_slug: attempt.market_slug.clone(),
                        token_id: attempt.token_id.clone(),
                        side: attempt.side.clone(),
                        original_price: attempt.original_price,
                        retry_count: next,
                    },
                ),
            }
        } else {
            let asset = self.extract_asset_name(attempt.market_slug.as_str());
            notices.push(
                Notice::gave_up(max_retries, asset.as_str(), attempt.side.as_str(), error),
            );
            state.set_latest_trade_failed(
                attempt.market_slug.as_str(),
                asset.as_str(),
                attempt.side.as_str(),
            );
            assert(notice_views(notices@) =~= result.notices);
            SettleStep { notices, retry: None }
        }
    }

    /// Evaluates the successful trades of an interval: a trade has won where the last ask of its
    /// side is above the winning price. Trades of markets without prices stay as they are.
    pub fn evaluate_trades_at_interval_end(state: &mut AppState, interval_ts: i64) -> (r: Vec<
        Notice,
    >)
        ensures
            final(state)@ == old(state)@.evaluated(interval_ts),
            notice_views(r@) == old(state)@.evaluation_notices(interval_ts),
    {
        let ghost before = state@;
        let mut notices: Vec<Notice> = Vec::new();
        let mut evaluated_count: u64 = 0;
        let mut i: usize = 0;
        assert(state@ =~= before.with_trades(state@.trades));
        while i < state.trades.len()
            invariant
                i <= state@.trades.len(),
                state@ == before.with_trades(state@.trades),
                state@.trades.len() == before.trades.len(),
                forall|j: int|
                    0 <= j < i ==> #[trigger] state@.trades[j] == judged(
                        before.trades[j],
                        before.prices,
                        interval_ts,
                    ),
                forall|j: int|
                    i <= j < before.trades.len() ==> #[trigger] state@.trades[j]
                        == before.trades[j],
                notice_views(notices@) == result_notices(
                    before.trades.take(i as int),
                    before.prices,
                    interval_ts,
                ),
                evaluated_count == notices@.len(),
                evaluated_count <= i,
            decreases before.trades.len() - i,
        {
            let trade = &state.trades[i];
            let ghost told = notice_views(notices@);
            proof {
                assert(before.trades.take(i + 1).drop_last() == before.trades.take(i as int));
                assert(state@.trades[i as int] == before.trades[i as int]);
                assert(before.trades.take(i + 1).last() == trade@);
            }
            if trade.interval_ts == interval_ts && trade.status == TradeStatus::Success
                && trade.result.is_none() {
                if let Some(prices) = state.current_prices.get(trade.market_slug.as_str()) {
                    let final_price = price_or_zero(
                        if same_text(trade.side.as_str(), "UP") {
                            prices.up_best_ask
                        } else {
                            prices.down_best_ask
                        },
                    );
                    let result = if Number::from_bits(WIN_PRICE_BITS).is_less_than(&final_price) {
                        "WIN"
                    } else {
                        "LOSS"
                    };
                    notices.push(
                        Notice::evaluated(
                            trade.asset.as_str(),
                            trade.side.as_str(),
                            result,
                            final_price,
                        ),
                    );
                    evaluated_count = evaluated_count + 1;
                    assert(notice_views(notices@) =~= told.push(notices@.last()@));
                    state.judge_trade(i, result.to_string());
                }
            }
            i = i + 1;
        }
        assert(before.trades.take(i as int) == before.trades);
        assert(state@.trades =~= before.evaluated(interval_ts).trades);
        if evaluated_count > 0 {
            let ghost told = notice_views(notices@);
            notices.push(Notice::evaluation_done(evaluated_count, interval_ts));
            assert(notice_views(notices@) =~= told.push(notices@.last()@));
        }
        notices
    }
}

/// An ask, zero where there is none.
fn price_or_zero(ask: Option<Number>) -> (r: Number)
    ensures
        r == ask_or_zero(ask),
{
    match ask {
        Some(price) => price,
        None => Number::from_bits(0),
    }
}

/// Puts what is to do about one side of a market behind `actions`.
fn push_side_actions(
    actions: &mut Vec<SignalAction>,
    market_slug: &str,
    asset: &str,
    side: &str,
    signal: &SideSignal,
)
    ensures
        action_views(final(actions)@) == action_views(old(actions)@) + side_actions(
            market_slug@,
            asset@,
            side@,
            signal@,
        ),
{
    let ghost before = action_views(actions@);
    if signal.tag {
        actions.push(SignalAction::Tell(Notice::tagged(asset, side, signal.price)));
    }
    if signal.execute {
        actions.push(SignalAction::Tell(Notice::execute_signal(asset, side, signal.price)));
        if let Some(token_id) = &signal.token_id {
            actions.push(
                SignalAction::Trade(
                    TradingMonitor::execute_trade(
                        market_slug,
                        token_id.as_str(),
                        side,
                        signal.price,
                    ),
                ),
            );
        }
    }
    assert(action_views(actions@) =~= before + side_actions(
        market_slug@,
        asset@,
        side@,
        signal@,
    ));
}

/// Whether a trade of an interval is to be evaluated: it succeeded and has no result.
pub open spec fn is_due(t: TradeView, interval_ts: i64) -> bool {
    t.interval_ts == interval_ts && t.status == TradeStatus::Success && t.result is None
}

/// The last ask of the side of a trade, zero where there is none; nothing where its market has no
/// prices.
pub open spec fn final_price(prices: Map<Seq<char>, MarketPrices>, t: TradeView) -> Option<Number> {
    if prices.contains_key(t.market_slug) {
        Some(ask_or_zero(side_ask(prices[t.market_slug], t.side)))
    } else {
        None
    }
}

/// The result of a trade whose side ended at a price.
pub open spec fn result_at(price: Number) -> Seq<char> {
    if (Number { bits: WIN_PRICE_BITS }).lt(price) {
        "WIN"@
    } else {
        "LOSS"@
    }
}

/// A trade after the evaluation of an interval: where it is due and its market has prices, with
/// the result that the last ask of its side gives it.
pub open spec fn judged(
    t: TradeView,
    prices: Map<Seq<char>, MarketPrices>,
    interval_ts: i64,
) -> TradeView {
    match final_price(prices, t) {
        Some(price) if is_due(t, interval_ts) => TradeView {
            result: Some(result_at(price)),
            ..t
        },
        _ => t,
    }
}

/// The notices of the results that the evaluation of an interval gives, in the order of the
/// trades.
pub open spec fn result_notices(
    trades: Seq<TradeView>,
    prices: Map<Seq<char>, MarketPrices>,
    interval_ts: i64,
) -> Seq<NoticeView>
    decreases trades.len(),
{
    if trades.len() == 0 {
        Seq::empty()
    } else {
        let rest = result_notices(trades.drop_last(), prices, interval_ts);
        let t = trades.last();
        match final_price(prices, t) {
            Some(price) if is_due(t, interval_ts) => rest.push(
                NoticeView::evaluated(t.asset, t.side, result_at(price), price),
            ),
            _ => rest,
        }
    }
}

impl StateView {
    /// After the trades of an interval were evaluated.
    pub open spec fn evaluated(self, interval_ts: i64) -> StateView {
        self.with_trades(
            Seq::new(
                self.trades.len(),
                |i: int| judged(self.trades[i], self.prices, interval_ts),
            ),
        )
    }

    /// What the evaluation of an interval tells: each result, and where there was any, how many.
    pub open spec fn evaluation_notices(self, interval_ts: i64) -> Seq<NoticeView> {
        let results = result_notices(self.trades, self.prices, interval_ts);
        if results.len() > 0 {
            results.push(NoticeView::evaluation_done(results.len(), interval_ts as int))
        } else {
            results
        }
    }
}

} // verus!
