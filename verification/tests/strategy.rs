use polymarket_tracker::clock::UtcInstant;
use polymarket_tracker::config::TradingConfig;
use polymarket_tracker::gamma_api::ParsedMarketInfo;
use polymarket_tracker::number::Number;
use polymarket_tracker::state::AppState;
use polymarket_tracker::state::AssetTradeWindow;
use polymarket_tracker::state::PriceUpdate;
use polymarket_tracker::state::TradeStatus;
use polymarket_tracker::trading::AuthError;
use polymarket_tracker::trading::ClobClient;
use polymarket_tracker::trading::OrderError;
use polymarket_tracker::trading::OrderOutcome;
use polymarket_tracker::trading::OrderResponse;
use polymarket_tracker::trading::OrderSide;
use polymarket_tracker::trading::SignalAction;
use polymarket_tracker::trading::SignatureKind;
use polymarket_tracker::trading::TradeAttempt;
use polymarket_tracker::trading::TradingMonitor;

const SLUG: &str = "btc-updown-5m";

fn number(x: f64) -> Number {
    Number::from_bits(x.to_bits())
}

fn at(secs: i64) -> UtcInstant {
    UtcInstant { secs, nanos: 0 }
}

fn key() -> String {
    let mut text = "0x".to_string();
    for _ in 0..32 {
        text.push_str("01");
    }
    text
}

fn config(enabled: bool) -> TradingConfig {
    TradingConfig {
        enabled,
        bet_amount: number(1.0),
        private_key: key(),
        proxy_address: "".to_string(),
        signature_type: 1,
        tag_threshold: number(0.75),
        execute_threshold: number(0.80),
        monitoring_window_seconds: 120,
        max_asset_trades: 1,
        max_retries: 2,
    }
}

fn start() -> AppState {
    let mut state = AppState::new();
    state.set_next_interval(900);
    state.add_market_at(
        SLUG.to_string(),
        ParsedMarketInfo {
            ticker: "btc-updown-5m-600".to_string(),
            title: "t".to_string(),
            condition_id: "c".to_string(),
            up_token_id: "11".to_string(),
            down_token_id: "22".to_string(),
            up_price: number(0.5),
            down_price: number(0.5),
            up_best_ask: None,
            down_best_ask: None,
        },
        at(601),
    );
    state
}

fn quote(state: &mut AppState, is_up: bool, ask: f64, secs: i64) {
    state.update_price(PriceUpdate {
        market_slug: SLUG.to_string(),
        is_up,
        best_ask: Some(number(ask)),
        best_bid: None,
        timestamp: at(secs),
    });
}

fn attempts(actions: &Vec<SignalAction>) -> Vec<TradeAttempt> {
    let mut all = Vec::new();
    for action in actions {
        if let SignalAction::Trade(attempt) = action {
            all.push(attempt.clone());
        }
    }
    all
}

fn first_attempt() -> TradeAttempt {
    TradingMonitor::execute_trade(SLUG, "11", "UP", number(0.82))
}

fn unfilled(message: Option<&str>) -> OrderOutcome {
    OrderOutcome::Answered(OrderResponse {
        success: false,
        error_msg: message.map(|m| m.to_string()),
        order_id: None,
    })
}

fn filled(id: Option<&str>) -> OrderOutcome {
    OrderOutcome::Answered(OrderResponse {
        success: true,
        error_msg: None,
        order_id: id.map(|i| i.to_string()),
    })
}

#[test]
fn a_side_is_tagged_and_then_bought() {
    let monitor = TradingMonitor::new(config(false));
    let mut state = start();
    quote(&mut state, true, 0.70, 790);
    quote(&mut state, false, 0.76, 790);
    let signals = match monitor.monitor_market_at(&mut state, SLUG, 900, at(800)) {
        Some(signals) => signals,
        None => panic!("in the window"),
    };
    assert_eq!(signals.asset, "BTC");
    assert!(signals.up.tag && !signals.up.execute);
    assert!(!signals.down.tag && !signals.down.execute);
    match state.tag_states.get(SLUG) {
        Some(tags) => {
            assert!(tags.up.tagged);
            assert_eq!(tags.up.tagged_at, Some(at(800)));
            assert!(!tags.down.tagged);
        }
        None => panic!("no tags"),
    }
    let actions = TradingMonitor::signal_actions(SLUG, &signals);
    assert_eq!(actions.len(), 1);

    quote(&mut state, true, 0.79, 810);
    match monitor.monitor_market_at(&mut state, SLUG, 900, at(811)) {
        Some(signals) => assert!(!signals.up.tag && !signals.up.execute),
        None => panic!("in the window"),
    }

    quote(&mut state, true, 0.80, 820);
    match monitor.monitor_market_at(&mut state, SLUG, 900, at(821)) {
        Some(signals) => {
            assert!(!signals.up.tag && !signals.up.execute);
            assert!(TradingMonitor::signal_actions(SLUG, &signals).is_empty());
        }
        None => panic!("in the window"),
    }
    match state.tag_states.get(SLUG) {
        Some(tags) => assert!(tags.up.tagged),
        None => panic!("no tags"),
    }

    quote(&mut state, true, 0.81, 830);
    let signals = match monitor.monitor_market_at(&mut state, SLUG, 900, at(831)) {
        Some(signals) => signals,
        None => panic!("in the window"),
    };
    assert!(!signals.up.tag && signals.up.execute);
    assert_eq!(signals.up.price, number(0.81));
    match state.tag_states.get(SLUG) {
        Some(tags) => assert!(!tags.up.tagged && tags.up.tagged_at.is_none()),
        None => panic!("no tags"),
    }
    let actions = TradingMonitor::signal_actions(SLUG, &signals);
    assert_eq!(actions.len(), 2);
    let attempts = attempts(&actions);
    assert_eq!(attempts.len(), 1);
    assert_eq!(attempts[0].market_slug, SLUG);
    assert_eq!(attempts[0].token_id, "11");
    assert_eq!(attempts[0].side, "UP");
    assert_eq!(attempts[0].original_price, number(0.81));
    assert_eq!(attempts[0].retry_count, 0);
}

#[test]
fn both_sides_act_up_first() {
    let monitor = TradingMonitor::new(config(false));
    let mut state = start();
    quote(&mut state, true, 0.70, 790);
    quote(&mut state, false, 0.30, 790);
    match monitor.monitor_market_at(&mut state, SLUG, 900, at(800)) {
        Some(signals) => assert!(signals.up.tag && signals.down.tag),
        None => panic!("in the window"),
    }
    quote(&mut state, true, 0.90, 810);
    quote(&mut state, false, 0.95, 810);
    match monitor.monitor_market_at(&mut state, SLUG, 900, at(820)) {
        Some(signals) => {
            let attempts = attempts(&TradingMonitor::signal_actions(SLUG, &signals));
            assert_eq!(attempts.len(), 2);
            assert_eq!(attempts[0].side, "UP");
            assert_eq!(attempts[1].side, "DOWN");
            assert_eq!(attempts[1].token_id, "22");
        }
        None => panic!("in the window"),
    }
}

#[test]
fn nothing_happens_outside_the_window() {
    let monitor = TradingMonitor::new(config(false));
    let mut state = start();
    quote(&mut state, true, 0.70, 700);
    assert!(monitor.monitor_market_at(&mut state, SLUG, 900, at(779)).is_none());
    assert!(monitor.monitor_market_at(&mut state, SLUG, 900, at(900)).is_none());
    assert!(monitor.monitor_market_at(&mut state, SLUG, 900, at(901)).is_none());
    assert!(monitor.monitor_market_at(&mut state, "eth-updown-5m", 900, at(800)).is_none());
    assert_eq!(state.tag_states.len(), 0);
    assert!(monitor.monitor_market_at(&mut state, SLUG, 900, at(780)).is_some());
    assert!(monitor.monitor_market_at(&mut state, SLUG, 900, at(899)).is_some());
    assert!(monitor.monitor_market(&mut state, SLUG, 900).is_none());
}

#[test]
fn sides_that_are_not_tagged() {
    let monitor = TradingMonitor::new(config(false));
    let mut state = start();
    match monitor.monitor_market_at(&mut state, SLUG, 900, at(800)) {
        Some(signals) => assert!(!signals.up.tag && !signals.down.tag),
        None => panic!("in the window"),
    }
    quote(&mut state, true, 0.75, 790);
    quote(&mut state, false, f64::NAN, 790);
    match monitor.monitor_market_at(&mut state, SLUG, 900, at(800)) {
        Some(signals) => assert!(!signals.up.tag && !signals.down.tag),
        None => panic!("in the window"),
    }
    quote(&mut state, true, 0.70, 599);
    match monitor.monitor_market_at(&mut state, SLUG, 900, at(800)) {
        Some(signals) => assert!(!signals.up.tag),
        None => panic!("in the window"),
    }
    quote(&mut state, true, 0.70, 600);
    state.increment_asset_trades("BTC", 900);
    match monitor.monitor_market_at(&mut state, SLUG, 900, at(800)) {
        Some(signals) => assert!(!signals.up.tag),
        None => panic!("in the window"),
    }
}

#[test]
fn simulated_trade() {
    let monitor = TradingMonitor::new(config(false));
    let mut state = start();
    let attempt = first_attempt();
    let step = monitor.execute_trade_with_retries_at(&mut state, &attempt, at(850));
    assert!(!step.place_order);
    assert_eq!(step.notices.len(), 1);
    assert_eq!(
        step.notices[0].text("0.820", "1.00"),
        "[TRADE] Simulated trade: btc-updown-5m UP @ 0.820 for $1.00"
    );
    assert_eq!(state.trades.len(), 1);
    assert_eq!(state.trades[0].status, TradeStatus::Success);
    assert_eq!(state.trades[0].order_id, Some("SIM_850".to_string()));
    assert_eq!(state.trades[0].interval_ts, 900);
    assert_eq!(state.trades[0].asset, "BTC");
    assert_eq!(state.trades[0].timestamp, at(850));
    assert_eq!(state.get_asset_trade_count("BTC", 900), 1);
    let step = monitor.execute_trade_with_retries_at(&mut state, &attempt, at(851));
    assert_eq!(
        step.notices[0].text("", ""),
        "[TRADE] Entry limit reached for BTC (1/1 trades this window) - skipping UP trade"
    );
    assert_eq!(state.trades.len(), 1);
}

#[test]
fn trades_of_an_interval_stay_within_the_limit() {
    for enabled in [true, false] {
        for max in 0..4 {
            let mut settings = config(enabled);
            settings.max_asset_trades = max;
            let monitor = TradingMonitor::new(settings);
            let mut state = start();
            for _ in 0..6 {
                let attempt = first_attempt();
                let step = monitor.execute_trade_with_retries_at(&mut state, &attempt, at(850));
                if step.place_order {
                    monitor.settle_order(&mut state, &attempt, filled(Some("id")));
                }
                assert_eq!(
                    state.get_asset_trade_count("BTC", 900) as usize,
                    state.trades.len()
                );
            }
            assert_eq!(state.trades.len(), max as usize);
        }
    }
}

#[test]
fn filled_order() {
    let monitor = TradingMonitor::new(config(true));
    let mut state = start();
    let attempt = first_attempt();
    let step = monitor.execute_trade_with_retries_at(&mut state, &attempt, at(850));
    assert!(step.place_order);
    assert_eq!(state.trades[0].status, TradeStatus::Pending);
    assert_eq!(state.trades[0].order_id, None);
    assert_eq!(state.get_asset_trade_count("BTC", 900), 1);
    let settled = monitor.settle_order(&mut state, &attempt, filled(Some("order")));
    assert!(settled.retry.is_none());
    assert_eq!(settled.notices[0].text("", ""), "[TRADE] Success! Order ID: order");
    assert_eq!(state.trades[0].status, TradeStatus::Success);
    assert_eq!(state.trades[0].order_id, Some("order".to_string()));
    assert_eq!(state.trades[0].price, number(0.82));
}

#[test]
fn filled_order_without_id() {
    let monitor = TradingMonitor::new(config(true));
    let mut state = start();
    let attempt = first_attempt();
    monitor.execute_trade_with_retries_at(&mut state, &attempt, at(850));
    let settled = monitor.settle_order(&mut state, &attempt, filled(None));
    assert_eq!(settled.notices[0].text("", ""), "[TRADE] Success! Order ID: unknown");
    assert_eq!(state.trades[0].status, TradeStatus::Pending);
}

#[test]
fn unfilled_order_is_retried_at_the_current_ask() {
    let monitor = TradingMonitor::new(config(true));
    let mut state = start();
    let attempt = first_attempt();
    monitor.execute_trade_with_retries_at(&mut state, &attempt, at(850));
    let settled = monitor.settle_order(&mut state, &attempt, unfilled(Some("no\nmatch")));
    assert_eq!(
        settled.notices[0].text("", ""),
        "[TRADE] Failed to fill: no match - Retrying at market price (Attempt 1/2)"
    );
    let retry = match settled.retry {
        Some(retry) => retry,
        None => panic!("a retry is left"),
    };
    assert_eq!(retry.retry_count, 1);
    quote(&mut state, true, 0.85, 851);
    let step = monitor.execute_trade_with_retries_at(&mut state, &retry, at(852));
    assert!(step.place_order);
    assert_eq!(
        step.notices[0].text("0.850", "1.00"),
        "[TRADE] Executing (Retry 1/2): BTC UP @ 0.850 for $1.00 (Token: 11)"
    );
    assert_eq!(state.trades.len(), 1);
    assert_eq!(state.trades[0].price, number(0.85));
    assert_eq!(state.get_asset_trade_count("BTC", 900), 1);
    let settled = monitor.settle_order(&mut state, &retry, filled(Some("late")));
    assert_eq!(
        settled.notices[0].text("", ""),
        "[TRADE] Success! Order ID: late (after 1 retries)"
    );
}

#[test]
fn retries_run_out() {
    let monitor = TradingMonitor::new(config(true));
    let mut state = start();
    let mut attempt = first_attempt();
    let mut orders = 0;
    loop {
        let step = monitor.execute_trade_with_retries_at(&mut state, &attempt, at(850));
        assert!(step.place_order);
        orders += 1;
        let failed = OrderOutcome::Failed("down".to_string());
        let settled = monitor.settle_order(&mut state, &attempt, failed);
        match settled.retry {
            Some(retry) => {
                assert_eq!(
                    settled.notices[0].text("", ""),
                    format!("[TRADE] Error: down - Retrying at market price (Attempt {}/2)", orders)
                );
                attempt = retry;
            }
            None => {
                assert_eq!(
                    settled.notices[0].text("", ""),
                    "[TRADE] Max retries reached (2) - Skipping BTC UP trade. Last error: down"
                );
                break;
            }
        }
    }
    assert_eq!(orders, 3);
    assert_eq!(state.trades.len(), 1);
    assert_eq!(state.trades[0].status, TradeStatus::Failed);
}

#[test]
fn unfilled_order_without_message() {
    let mut settings = config(true);
    settings.max_retries = 0;
    let monitor = TradingMonitor::new(settings);
    let mut state = start();
    let attempt = first_attempt();
    monitor.execute_trade_with_retries_at(&mut state, &attempt, at(850));
    let settled = monitor.settle_order(&mut state, &attempt, unfilled(None));
    assert!(settled.retry.is_none());
    assert_eq!(
        settled.notices[0].text("", ""),
        "[TRADE] Max retries reached (0) - Skipping BTC UP trade. Last error: Unknown error"
    );
    assert_eq!(state.trades[0].status, TradeStatus::Failed);
}

#[test]
fn retry_without_prices() {
    let monitor = TradingMonitor::new(config(true));
    let mut state = start();
    let mut attempt = first_attempt();
    attempt.market_slug = "eth-updown-5m".to_string();
    attempt.retry_count = 1;
    let step = monitor.execute_trade_with_retries(&mut state, &attempt);
    assert!(!step.place_order);
    assert_eq!(
        step.notices[0].text("", ""),
        "[TRADE] Cannot retry ETH UP - no current price available"
    );
    attempt.market_slug = SLUG.to_string();
    let step = monitor.execute_trade_with_retries_at(&mut state, &attempt, at(850));
    assert_eq!(step.notices[0].price, Some(number(0.82)));
}

#[test]
fn enabled_without_a_key_places_nothing() {
    let mut settings = config(true);
    settings.private_key = "".to_string();
    let monitor = TradingMonitor::new(settings);
    assert!(monitor.account().is_none());
    let mut state = start();
    let step = monitor.execute_trade_with_retries_at(&mut state, &first_attempt(), at(850));
    assert!(!step.place_order);
    assert!(step.notices.is_empty());
    assert!(state.trades.is_empty());
    assert_eq!(state.get_asset_trade_count("BTC", 900), 1);
    assert!(TradingMonitor::new(config(false)).account().is_none());
    assert!(TradingMonitor::new(config(true)).account().is_some());
}

#[test]
fn counting_up_to_the_largest_number() {
    let mut settings = config(false);
    settings.max_asset_trades = u32::MAX;
    let monitor = TradingMonitor::new(settings);
    let mut state = start();
    let mut window = AssetTradeWindow::new(900);
    window.trade_count = u32::MAX - 1;
    state.asset_trade_windows.insert("BTC".to_string(), window);
    for _ in 0..3 {
        monitor.execute_trade_with_retries_at(&mut state, &first_attempt(), at(850));
    }
    assert_eq!(state.get_asset_trade_count("BTC", 900), u32::MAX);
    assert_eq!(state.trades.len(), 1);
}

#[test]
fn windows_of_any_length() {
    let mut settings = config(false);
    settings.monitoring_window_seconds = u64::MAX;
    let monitor = TradingMonitor::new(settings);
    let mut state = start();
    assert!(monitor.monitor_market_at(&mut state, SLUG, 900, at(0)).is_some());
    assert!(monitor.monitor_market_at(&mut state, SLUG, 900, at(900)).is_none());
}

#[test]
fn evaluation_of_an_interval() {
    let mut settings = config(true);
    settings.max_asset_trades = 9;
    let monitor = TradingMonitor::new(settings);
    let mut state = start();
    for (side, id) in [("UP", "a"), ("DOWN", "b"), ("UP", "c")] {
        let attempt = TradingMonitor::execute_trade(SLUG, "11", side, number(0.82));
        monitor.execute_trade_with_retries_at(&mut state, &attempt, at(850));
        monitor.settle_order(&mut state, &attempt, filled(Some(id)));
    }
    let pending = first_attempt();
    monitor.execute_trade_with_retries_at(&mut state, &pending, at(850));
    quote(&mut state, true, 0.951, 899);
    quote(&mut state, false, 0.95, 899);
    let notices = TradingMonitor::evaluate_trades_at_interval_end(&mut state, 600);
    assert!(notices.is_empty());
    let notices = TradingMonitor::evaluate_trades_at_interval_end(&mut state, 900);
    assert_eq!(notices.len(), 4);
    assert_eq!(
        notices[0].text("0.951", ""),
        "[EVAL] BTC UP trade result: WIN (final price: 0.951)"
    );
    assert_eq!(
        notices[1].text("0.950", ""),
        "[EVAL] BTC DOWN trade result: LOSS (final price: 0.950)"
    );
    assert_eq!(
        notices[3].text("", ""),
        "[EVAL] Evaluated 3 trades for interval ending at 900"
    );
    assert_eq!(state.trades[0].result, None);
    assert_eq!(state.trades[1].result, Some("WIN".to_string()));
    assert_eq!(state.trades[2].result, Some("LOSS".to_string()));
    assert_eq!(state.trades[3].result, Some("WIN".to_string()));
    let again = TradingMonitor::evaluate_trades_at_interval_end(&mut state, 900);
    assert!(again.is_empty());
}

#[test]
fn trades_without_an_ask_are_lost() {
    let monitor = TradingMonitor::new(config(false));
    let mut state = start();
    monitor.execute_trade_with_retries_at(&mut state, &first_attempt(), at(850));
    let notices = TradingMonitor::evaluate_trades_at_interval_end(&mut state, 900);
    assert_eq!(notices.len(), 2);
    assert_eq!(notices[0].price, Some(number(0.0)));
    assert_eq!(state.trades[0].result, Some("LOSS".to_string()));
}

#[test]
fn trades_of_markets_without_prices_wait() {
    let monitor = TradingMonitor::new(config(false));
    let mut state = start();
    let attempt = TradingMonitor::execute_trade("eth-updown-5m", "3", "UP", number(0.82));
    monitor.execute_trade_with_retries_at(&mut state, &attempt, at(850));
    let notices = TradingMonitor::evaluate_trades_at_interval_end(&mut state, 900);
    assert!(notices.is_empty());
    assert_eq!(state.trades[0].result, None);
}

#[test]
fn what_is_needed_to_sign_in() {
    let mut settings = config(true);
    let plan = match ClobClient::new(&settings).auth_plan() {
        Ok(plan) => plan,
        Err(e) => panic!("{}", e.message()),
    };
    assert_eq!(plan.private_key, [1u8; 32]);
    assert_eq!(plan.signature_kind, SignatureKind::Proxy);
    assert_eq!(plan.funder, None);
    settings.signature_type = 2;
    settings.proxy_address = "0x00000000000000000000000000000000000000ff".to_string();
    match ClobClient::new(&settings).auth_plan() {
        Ok(plan) => {
            assert_eq!(plan.signature_kind, SignatureKind::GnosisSafe);
            let mut address = [0u8; 20];
            address[19] = 255;
            assert_eq!(plan.funder, Some(address));
        }
        Err(e) => panic!("{}", e.message()),
    }
    settings.signature_type = 9;
    settings.proxy_address = "".to_string();
    match ClobClient::new(&settings).auth_plan() {
        Ok(plan) => assert_eq!(plan.signature_kind, SignatureKind::Eoa),
        Err(e) => panic!("{}", e.message()),
    }
}

#[test]
fn keys_and_addresses_that_cannot_be_read() {
    let mut settings = config(true);
    settings.proxy_address = "nowhere".to_string();
    match ClobClient::new(&settings).auth_plan() {
        Ok(_) => panic!("no address"),
        Err(e) => {
            assert!(matches!(e, AuthError::ProxyAddress(_)));
            assert!(e.message().starts_with("Invalid proxy address: "));
        }
    }
    settings.private_key = "secret".to_string();
    let client = ClobClient::new(&settings);
    match client.auth_plan() {
        Ok(_) => panic!("no key"),
        Err(e) => {
            assert!(matches!(e, AuthError::PrivateKey(_)));
            assert!(e.message().starts_with("Invalid private key: "));
        }
    }
    match client.signing_key() {
        Ok(_) => panic!("no key"),
        Err(e) => {
            assert!(matches!(e, OrderError::PrivateKey(_)));
            assert!(e.message().starts_with("Invalid private key: "));
        }
    }
    match ClobClient::new(&config(true)).signing_key() {
        Ok(bytes) => assert_eq!(bytes, [1u8; 32]),
        Err(e) => panic!("{}", e.message()),
    }
}

#[test]
fn messages_of_order_errors() {
    assert_eq!(OrderError::NotInitialized.message(), "SDK client not initialized");
    assert_eq!(OrderError::InvalidAmount.message(), "Invalid amount");
    assert_eq!(OrderError::Amount("too fine".to_string()).message(), "too fine");
    assert_eq!(
        OrderError::Build("x".to_string()).message(),
        "Failed to build market order: x"
    );
    assert_eq!(OrderError::Sign("x".to_string()).message(), "Failed to sign order: x");
    assert_eq!(
        OrderError::Post("a\nb".to_string()).message(),
        "Failed to post order: a b"
    );
    assert_eq!(ClobClient::order_side("BUY"), OrderSide::Buy);
    assert_eq!(ClobClient::order_side("SELL"), OrderSide::Sell);
    assert_eq!(ClobClient::order_side("buy"), OrderSide::Sell);
}

#[test]
fn signing_in() {
    let mut monitor = TradingMonitor::new(config(true));
    match monitor.account() {
        Some(client) => {
            assert_eq!(client.address(), None);
            assert!(matches!(client.ready(), Err(OrderError::NotInitialized)));
        }
        None => panic!("no account"),
    }
    match monitor.finish_initialize(Err("refused".to_string())) {
        Some(notice) => assert_eq!(notice.text("", ""), "[AUTH] Authentication failed: refused"),
        None => panic!("an account is there"),
    }
    match monitor.finish_initialize(Ok("0xabc".to_string())) {
        Some(notice) => assert_eq!(
            notice.text("", ""),
            "[AUTH] Successfully authenticated with Polymarket CLOB. Address: 0xabc"
        ),
        None => panic!("an account is there"),
    }
    match monitor.account() {
        Some(client) => {
            assert_eq!(client.address(), Some("0xabc".to_string()));
            assert!(client.ready().is_ok());
        }
        None => panic!("no account"),
    }
    let mut simulated = TradingMonitor::new(config(false));
    assert!(simulated.finish_initialize(Ok("0xabc".to_string())).is_none());
    assert!(!simulated.trading_config().enabled);
    assert_eq!(simulated.extract_asset_name("eth-updown-5m"), "ETH");
    let state = start();
    assert_eq!(simulated.get_up_token_id(&state, SLUG), Some("11".to_string()));
    assert_eq!(simulated.get_down_token_id(&state, SLUG), Some("22".to_string()));
    assert_eq!(simulated.get_down_token_id(&state, "x"), None);
}

#[test]
fn a_side_that_was_never_cheap_is_not_bought() {
    let monitor = TradingMonitor::new(config(false));
    let mut state = start();
    for (ask, secs) in [(0.78, 785), (0.81, 790), (0.95, 795), (0.76, 796), (0.99, 799)] {
        quote(&mut state, true, ask, secs);
        match monitor.monitor_market_at(&mut state, SLUG, 900, at(secs)) {
            Some(signals) => assert!(!signals.up.tag && !signals.up.execute),
            None => panic!("in the window"),
        }
    }
}

#[test]
fn a_new_interval_forgets_tags() {
    let monitor = TradingMonitor::new(config(false));
    let mut state = start();
    quote(&mut state, true, 0.70, 790);
    monitor.monitor_market_at(&mut state, SLUG, 900, at(800));
    polymarket_tracker::session::begin_refresh_at(&mut state, false, at(905));
    assert_eq!(state.next_interval, 1_200);
    quote(&mut state, true, 0.90, 1_100);
    match monitor.monitor_market_at(&mut state, SLUG, 1_200, at(1_101)) {
        Some(signals) => assert!(!signals.up.execute),
        None => panic!("in the window"),
    }
}

#[test]
fn every_trade_is_of_the_bet_amount() {
    let mut settings = config(true);
    settings.max_asset_trades = 3;
    settings.bet_amount = number(2.5);
    let monitor = TradingMonitor::new(settings);
    let mut state = start();
    for outcome in [filled(Some("a")), unfilled(None), filled(None)] {
        let attempt = first_attempt();
        monitor.execute_trade_with_retries_at(&mut state, &attempt, at(850));
        monitor.settle_order(&mut state, &attempt, outcome);
    }
    TradingMonitor::evaluate_trades_at_interval_end(&mut state, 900);
    assert_eq!(state.trades.len(), 3);
    for trade in &state.trades {
        assert_eq!(trade.amount, number(2.5));
        assert_eq!(trade.asset, "BTC");
        if trade.result.is_some() {
            assert_eq!(trade.status, TradeStatus::Success);
        }
    }
}

#[test]
fn trades_of_other_intervals_are_not_judged() {
    let monitor = TradingMonitor::new(config(false));
    let mut state = start();
    state.set_next_interval(600);
    monitor.execute_trade_with_retries_at(&mut state, &first_attempt(), at(550));
    state.set_next_interval(900);
    monitor.execute_trade_with_retries_at(&mut state, &first_attempt(), at(850));
    quote(&mut state, true, 0.99, 899);
    let notices = TradingMonitor::evaluate_trades_at_interval_end(&mut state, 900);
    assert_eq!(notices.len(), 2);
    assert_eq!(state.trades.len(), 2);
    assert_eq!(state.trades[0].interval_ts, 900);
    assert_eq!(state.trades[0].result, Some("WIN".to_string()));
    assert_eq!(state.trades[1].interval_ts, 600);
    assert_eq!(state.trades[1].result, None);
    quote(&mut state, true, 0.10, 899);
    TradingMonitor::evaluate_trades_at_interval_end(&mut state, 600);
    assert_eq!(state.trades[0].result, Some("WIN".to_string()));
    assert_eq!(state.trades[1].result, Some("LOSS".to_string()));
}
