use polymarket_tracker::clock::TimeSpan;
use polymarket_tracker::clock::UtcInstant;
use polymarket_tracker::gamma_api::GammaEventResponse;
use polymarket_tracker::gamma_api::GammaMarket;
use polymarket_tracker::gamma_api::ParseError;
use polymarket_tracker::gamma_api::ParsedMarketInfo;
use polymarket_tracker::number::Number;
use polymarket_tracker::session::begin_refresh;
use polymarket_tracker::session::begin_refresh_at;
use polymarket_tracker::session::market_slugs;
use polymarket_tracker::session::next_trading_step;
use polymarket_tracker::session::read_answer;
use polymarket_tracker::session::refresh_wait;
use polymarket_tracker::session::refresh_wait_for;
use polymarket_tracker::session::start_trading;
use polymarket_tracker::session::take_market;
use polymarket_tracker::session::take_market_at;
use polymarket_tracker::session::FetchedMarket;
use polymarket_tracker::session::TradingStep;
use polymarket_tracker::state::AppState;
use polymarket_tracker::state::MarketTagState;
use polymarket_tracker::state::PriceUpdate;
use polymarket_tracker::state::TradeRecord;
use polymarket_tracker::state::TradeStatus;
use polymarket_tracker::state::TradingStats;
use polymarket_tracker::ui::can_show;
use polymarket_tracker::ui::count_lines;
use polymarket_tracker::ui::extract_asset_name;
use polymarket_tracker::ui::market_panels;
use polymarket_tracker::ui::markets_height;
use polymarket_tracker::ui::message_tone;
use polymarket_tracker::ui::mode_label;
use polymarket_tracker::ui::sorted_slugs;
use polymarket_tracker::ui::status_lines;
use polymarket_tracker::ui::time_remaining;
use polymarket_tracker::ui::time_remaining_at;
use polymarket_tracker::ui::trade_rows;
use polymarket_tracker::ui::Tone;

fn number(x: f64) -> Number {
    Number::from_bits(x.to_bits())
}

fn read(text: &str) -> Option<Number> {
    match text.parse::<f64>() {
        Ok(x) => Some(number(x)),
        Err(_) => None,
    }
}

fn at(secs: i64) -> UtcInstant {
    UtcInstant { secs, nanos: 0 }
}

fn info(ticker: &str) -> ParsedMarketInfo {
    ParsedMarketInfo {
        ticker: ticker.to_string(),
        title: "t".to_string(),
        condition_id: "c".to_string(),
        up_token_id: format!("{}-up", ticker),
        down_token_id: format!("{}-down", ticker),
        up_price: number(0.5),
        down_price: number(0.5),
        up_best_ask: None,
        down_best_ask: None,
    }
}

fn trade(side: &str, status: TradeStatus, secs: i64) -> TradeRecord {
    TradeRecord {
        timestamp: at(secs),
        market_slug: "btc-updown-5m".to_string(),
        asset: "BTC".to_string(),
        side: side.to_string(),
        amount: number(1.0),
        price: number(0.8),
        status,
        order_id: None,
        interval_ts: 300,
        result: None,
    }
}

#[test]
fn asset_name_of_a_ticker() {
    assert_eq!(extract_asset_name("btc-updown-5m-123456"), "BTC");
    assert_eq!(extract_asset_name("sol"), "SOL");
    assert_eq!(extract_asset_name(""), "");
    assert_eq!(extract_asset_name("-btc"), "");
    assert_eq!(extract_asset_name("ﬁl-é-updown"), "FIL");
    for rest in ["", "x", "-", "--", "updown-5m"] {
        assert_eq!(extract_asset_name(&format!("eth-{}", rest)), extract_asset_name("eth"));
    }
}

#[test]
fn countdown() {
    assert_eq!(time_remaining_at(0, at(100)), "Unknown");
    assert_eq!(time_remaining_at(-300, at(100)), "Unknown");
    assert_eq!(time_remaining_at(300, at(100)), "3:20");
    assert_eq!(time_remaining_at(300, at(295)), "0:05");
    assert_eq!(time_remaining_at(300, at(300)), "Refreshing...");
    assert_eq!(time_remaining_at(300, at(301)), "Refreshing...");
    assert_eq!(time_remaining(300), "Refreshing...");
    assert_eq!(time_remaining(0), "Unknown");
}

#[test]
fn height_of_the_markets() {
    assert_eq!(markets_height(0), 10);
    assert_eq!(markets_height(1), 10);
    assert_eq!(markets_height(4), 28);
    assert!(can_show(10_921));
    assert_eq!(markets_height(10_921), 65_530);
    assert!(!can_show(10_922));
    assert!(can_show(10_923));
    assert_eq!(markets_height(10_923), 6);
    assert!(!can_show(usize::MAX));
}

#[test]
fn panels_are_sorted() {
    let mut state = AppState::new();
    for slug in ["sol-updown-5m", "btc-updown-5m", "eth-updown-5m"] {
        state.add_market_at(slug.to_string(), info(slug), at(1));
    }
    state.update_price(PriceUpdate {
        market_slug: "eth-updown-5m".to_string(),
        is_up: true,
        best_ask: Some(number(0.51)),
        best_bid: None,
        timestamp: at(2),
    });
    state.update_price(PriceUpdate {
        market_slug: "eth-updown-5m".to_string(),
        is_up: false,
        best_ask: Some(number(0.5)),
        best_bid: None,
        timestamp: at(2),
    });
    assert_eq!(
        sorted_slugs(&state),
        vec!["btc-updown-5m", "eth-updown-5m", "sol-updown-5m"]
    );
    assert_eq!(
        market_slugs(&state),
        vec!["sol-updown-5m", "btc-updown-5m", "eth-updown-5m"]
    );
    let panels = market_panels(&state);
    assert_eq!(panels.len(), 3);
    assert_eq!(panels[0].title, "BTC");
    assert_eq!(panels[0].up_ask, None);
    assert!(!panels[0].up_is_high && !panels[0].down_is_high);
    assert_eq!(panels[1].title, "ETH");
    assert_eq!(panels[1].slug, "eth-updown-5m");
    assert_eq!(panels[1].up_ask, Some(number(0.51)));
    assert!(panels[1].up_is_high);
    assert_eq!(panels[1].down_ask, Some(number(0.5)));
    assert!(!panels[1].down_is_high);
    assert_eq!(panels[2].title, "SOL");
}

#[test]
fn successful_trades_on_the_screen() {
    let mut state = AppState::new();
    assert!(trade_rows(&state, 20).is_none());
    state.add_trade(trade("UP", TradeStatus::Pending, 1));
    assert!(trade_rows(&state, 20).is_none());
    for secs in 2..6 {
        let side = if secs % 2 == 0 { "UP" } else { "DOWN" };
        state.add_trade(trade(side, TradeStatus::Success, secs));
    }
    state.add_trade(trade("UP", TradeStatus::Failed, 6));
    match trade_rows(&state, 20) {
        Some(rows) => {
            assert_eq!(rows.len(), 4);
            assert_eq!(rows[0].timestamp, at(5));
            assert_eq!(rows[0].side, "DOWN");
            assert!(!rows[0].is_up);
            assert!(rows[1].is_up);
            assert_eq!(rows[0].asset, "BTC");
            assert_eq!(rows[0].price, number(0.8));
            assert_eq!(rows[0].amount, number(1.0));
        }
        None => panic!("no rows"),
    }
    match trade_rows(&state, 6) {
        Some(rows) => {
            assert_eq!(rows.len(), 2);
            assert_eq!(rows[1].timestamp, at(4));
        }
        None => panic!("no rows"),
    }
    match trade_rows(&state, 3) {
        Some(rows) => assert!(rows.is_empty()),
        None => panic!("no rows"),
    }
}

#[test]
fn status_messages_on_the_screen() {
    let mut state = AppState::new();
    state.add_status_at(at(0), "WebSocket error: x".to_string());
    state.add_status_at(at(0), "Connected".to_string());
    state.add_status_at(at(0), "hello".to_string());
    let lines = status_lines(&state, 10);
    assert_eq!(lines.len(), 3);
    assert_eq!(lines[0].text, "[00:00:00] hello");
    assert_eq!(lines[0].tone, Tone::Neutral);
    assert_eq!(lines[1].tone, Tone::Good);
    assert_eq!(lines[2].tone, Tone::Bad);
    assert_eq!(status_lines(&state, 4).len(), 2);
    assert_eq!(status_lines(&state, 1).len(), 0);
    assert_eq!(message_tone("Error"), Tone::Bad);
    assert_eq!(message_tone("Subscribed, error"), Tone::Bad);
    assert_eq!(message_tone("Subscribed"), Tone::Good);
    assert_eq!(message_tone("connected"), Tone::Neutral);
}

#[test]
fn record_on_the_screen() {
    assert_eq!(mode_label(true), "LIVE TRADING");
    assert_eq!(mode_label(false), "SIMULATION");
    let mut stats = TradingStats::default();
    stats.trade_count = 12;
    stats.win_count = 7;
    stats.loss_count = 3;
    assert_eq!(
        count_lines(&stats),
        vec!["Trade Count:   12", "Win Count:     7", "Loss Count:    3"]
    );
}

#[test]
fn first_interval_of_a_session() {
    let mut state = AppState::new();
    state.set_ws_connected(true);
    state.tag_states.insert("x".to_string(), MarketTagState::default());
    let refresh = begin_refresh_at(&mut state, true, at(1_000));
    assert_eq!(refresh.interval_ts, 900);
    assert_eq!(state.next_interval, 1_200);
    assert!(state.ws_connected);
    assert!(!state.ws_reconnect_needed);
    assert_eq!(state.tag_states.len(), 0);
    assert_eq!(refresh.notices.len(), 2);
    assert_eq!(
        refresh.notices[1].text("", ""),
        "[EVENT] Fetching markets for interval ending at 900"
    );
}

#[test]
fn later_interval_of_a_session() {
    let mut state = AppState::new();
    state.set_ws_connected(true);
    state.set_next_interval(300);
    state.add_market_at("btc-updown-5m".to_string(), info("btc-updown-5m"), at(1));
    state.update_price(PriceUpdate {
        market_slug: "btc-updown-5m".to_string(),
        is_up: true,
        best_ask: Some(number(0.99)),
        best_bid: None,
        timestamp: at(299),
    });
    state.add_trade(trade("UP", TradeStatus::Success, 200));
    let refresh = begin_refresh_at(&mut state, false, at(305));
    assert!(!state.ws_connected);
    assert!(state.ws_reconnect_needed);
    assert_eq!(state.next_interval, 600);
    assert_eq!(refresh.interval_ts, 300);
    assert_eq!(state.trades[0].result, Some("WIN".to_string()));
    assert_eq!(refresh.notices.len(), 4);
    assert_eq!(
        refresh.notices[1].text("", ""),
        "[EVAL] Evaluated 1 trades for interval ending at 300"
    );
    let mut fresh = AppState::new();
    let refresh = begin_refresh(&mut fresh, false);
    assert_eq!(refresh.notices.len(), 2);
    assert!(fresh.ws_reconnect_needed);
    assert_eq!(fresh.next_interval, refresh.interval_ts + 300);
}

#[test]
fn markets_that_were_asked_for() {
    let event = GammaEventResponse {
        id: "1".to_string(),
        ticker: "btc-updown-5m-300".to_string(),
        slug: "s".to_string(),
        title: "t".to_string(),
        description: "".to_string(),
        resolution_source: None,
        start_date: None,
        end_date: None,
        active: true,
        closed: false,
        markets: vec![GammaMarket {
            id: "2".to_string(),
            question: "q".to_string(),
            condition_id: "c".to_string(),
            slug: "s".to_string(),
            outcomes: "[\"Up\",\"Down\"]".to_string(),
            outcome_prices: "[\"0.5\",\"0.5\"]".to_string(),
            clob_token_ids: "[\"1\",\"2\"]".to_string(),
            best_bid: None,
            best_ask: None,
            last_trade_price: None,
        }],
    };
    let mut broken = event.clone();
    broken.markets.clear();
    let mut state = AppState::new();
    let loaded = read_answer(Ok(event), read);
    let notice = take_market(&mut state, "btc-updown-5m".to_string(), "btc-updown-5m-300", loaded);
    assert_eq!(notice.text("", ""), "[EVENT] Loaded: BTC");
    assert_eq!(state.get_all_token_ids(), vec!["1", "2"]);
    let unreadable = read_answer(Ok(broken), read);
    assert!(matches!(unreadable, FetchedMarket::Unreadable(ParseError::NoMarkets)));
    let notice = take_market_at(&mut state, "eth".to_string(), "eth-300", unreadable, at(1));
    assert_eq!(
        notice.text("", ""),
        "[EVENT] Parse error for eth-300: No markets found in event"
    );
    let unfetched = read_answer(Err("timeout".to_string()), read);
    let notice = take_market_at(&mut state, "eth".to_string(), "eth-300", unfetched, at(1));
    assert_eq!(notice.text("", ""), "[EVENT] Fetch error for eth-300: timeout");
    assert_eq!(state.tracked_markets.len(), 1);
}

#[test]
fn waiting_for_the_next_interval() {
    let wait = refresh_wait_for(TimeSpan { nanos: 125_250_000_000 });
    assert_eq!(wait.seconds, 125);
    assert_eq!(wait.nanos, 250_000_000);
    assert_eq!(wait.notice.text("", ""), "[EVENT] Next refresh in 2:05");
    let wait = refresh_wait_for(TimeSpan { nanos: -1 });
    assert_eq!(wait.seconds, 60);
    assert_eq!(wait.nanos, 0);
    assert_eq!(wait.notice.text("", ""), "[EVENT] Next refresh in 1:00");
    assert!(refresh_wait().seconds <= 600);
}

#[test]
fn start_of_trading() {
    let mut state = AppState::new();
    assert_eq!(next_trading_step(&state, false, 1), TradingStep::Wait);
    assert_eq!(next_trading_step(&state, true, 1), TradingStep::Wait);
    state.set_next_interval(300);
    assert_eq!(next_trading_step(&state, false, 0), TradingStep::Wait);
    state.add_market_at("btc-updown-5m".to_string(), info("btc"), at(1));
    assert_eq!(next_trading_step(&state, false, 2), TradingStep::Wait);
    assert_eq!(next_trading_step(&state, false, 1), TradingStep::SignIn);
    assert_eq!(next_trading_step(&state, true, 2), TradingStep::Monitor);
    assert_eq!(start_trading(&mut state, false).text("", ""), "[EVENT] Trading in SIMULATION mode");
    assert!(!state.trading_enabled);
    assert_eq!(start_trading(&mut state, true).text("", ""), "[EVENT] Live Trading ENABLED");
    assert!(state.trading_enabled);
}
