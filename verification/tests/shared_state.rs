use polymarket_tracker::clock::UtcInstant;
use polymarket_tracker::gamma_api::ParsedMarketInfo;
use polymarket_tracker::number::Number;
use polymarket_tracker::state::AppState;
use polymarket_tracker::state::AssetTradeWindow;
use polymarket_tracker::state::MarketPrices;
use polymarket_tracker::state::MarketTagState;
use polymarket_tracker::state::PriceUpdate;
use polymarket_tracker::state::TagState;
use polymarket_tracker::state::TradeRecord;
use polymarket_tracker::state::TradeStatus;
use polymarket_tracker::state::TradingStats;

fn number(x: f64) -> Number {
    Number::from_bits(x.to_bits())
}

fn at(secs: i64) -> UtcInstant {
    UtcInstant { secs, nanos: 0 }
}

fn info(up: &str, down: &str) -> ParsedMarketInfo {
    ParsedMarketInfo {
        ticker: "btc-updown-5m-300".to_string(),
        title: "t".to_string(),
        condition_id: "c".to_string(),
        up_token_id: up.to_string(),
        down_token_id: down.to_string(),
        up_price: number(0.5),
        down_price: number(0.5),
        up_best_ask: None,
        down_best_ask: None,
    }
}

fn trade(side: &str, status: TradeStatus, price: f64) -> TradeRecord {
    TradeRecord {
        timestamp: at(10),
        market_slug: "btc-updown-5m".to_string(),
        asset: "BTC".to_string(),
        side: side.to_string(),
        amount: number(1.0),
        price: number(price),
        status,
        order_id: None,
        interval_ts: 300,
        result: None,
    }
}

fn update(is_up: bool, ask: Option<f64>, bid: Option<f64>, secs: i64) -> PriceUpdate {
    PriceUpdate {
        market_slug: "btc-updown-5m".to_string(),
        is_up,
        best_ask: ask.map(number),
        best_bid: bid.map(number),
        timestamp: at(secs),
    }
}

#[test]
fn state_at_the_start() {
    let mut state = AppState::default();
    assert_eq!(state.tracked_markets.len(), 0);
    assert!(state.trades.is_empty());
    assert!(state.status_messages.is_empty());
    assert!(!state.ws_connected);
    assert!(!state.trading_enabled);
    assert_eq!(state.next_interval, 0);
    assert!(!state.should_reconnect());
    assert!(state.get_all_token_ids().is_empty());
}

#[test]
fn prices_that_an_update_lacks_stay() {
    let mut state = AppState::new();
    state.update_price(update(true, Some(0.6), Some(0.5), 1));
    state.update_price(update(false, Some(0.4), None, 2));
    state.update_price(update(true, None, Some(0.55), 3));
    match state.current_prices.get("btc-updown-5m") {
        Some(prices) => {
            assert_eq!(prices.up_best_ask, Some(number(0.6)));
            assert_eq!(prices.up_best_bid, Some(number(0.55)));
            assert_eq!(prices.down_best_ask, Some(number(0.4)));
            assert_eq!(prices.down_best_bid, None);
            assert_eq!(prices.last_update, at(3));
        }
        None => panic!("no prices"),
    }
    match state.price_history.get("btc-updown-5m") {
        Some(history) => {
            assert_eq!(history.len(), 3);
            assert_eq!(history[0].up_best_ask, Some(number(0.6)));
            assert_eq!(history[0].down_best_ask, None);
            assert_eq!(history[2].down_best_ask, Some(number(0.4)));
            assert_eq!(history[2].timestamp, at(3));
        }
        None => panic!("no history"),
    }
}

#[test]
fn a_thousand_past_prices_are_remembered() {
    let mut state = AppState::new();
    for secs in 0..1_002 {
        state.update_price(update(true, Some(0.5), None, secs));
    }
    match state.price_history.get("btc-updown-5m") {
        Some(history) => {
            assert_eq!(history.len(), 1_000);
            assert_eq!(history[0].timestamp, at(2));
            assert_eq!(history[999].timestamp, at(1_001));
        }
        None => panic!("no history"),
    }
}

#[test]
fn trades_are_newest_first_and_all_kept() {
    let mut state = AppState::new();
    state.add_trade(trade("UP", TradeStatus::Pending, 0.8));
    state.add_trade(trade("DOWN", TradeStatus::Pending, 0.7));
    assert_eq!(state.trades.len(), 2);
    assert_eq!(state.trades[0].side, "DOWN");
    assert_eq!(state.trades[1].side, "UP");
}

#[test]
fn trimming_drops_the_oldest_evaluated_trades() {
    let mut state = AppState::new();
    for i in 0..5 {
        let mut t = trade("UP", TradeStatus::Success, 0.8);
        t.timestamp = at(i);
        if i == 0 || i == 2 || i == 3 {
            t.result = Some("WIN".to_string());
        }
        state.add_trade(t);
    }
    state.trim_trades(0);
    assert_eq!(state.trades.len(), 5);
    state.trim_trades(3);
    assert_eq!(state.trades.len(), 3);
    assert_eq!(state.trades[0].timestamp, at(4));
    assert_eq!(state.trades[1].timestamp, at(3));
    assert_eq!(state.trades[2].timestamp, at(1));
    state.trim_trades(1);
    assert_eq!(state.trades.len(), 2);
    assert_eq!(state.trades[0].timestamp, at(4));
    assert_eq!(state.trades[1].timestamp, at(1));
}

#[test]
fn orders_of_pending_trades() {
    let mut state = AppState::new();
    state.add_trade(trade("UP", TradeStatus::Pending, 0.8));
    state.add_trade(trade("UP", TradeStatus::Pending, 0.7));
    state.add_trade(trade("DOWN", TradeStatus::Pending, 0.6));
    state.set_trade_order_id("btc-updown-5m", "BTC", "UP", "one".to_string());
    assert_eq!(state.trades[1].order_id, Some("one".to_string()));
    state.set_trade_order_id("btc-updown-5m", "BTC", "UP", "two".to_string());
    assert_eq!(state.trades[2].order_id, Some("two".to_string()));
    state.set_trade_order_id("btc-updown-5m", "BTC", "UP", "three".to_string());
    state.update_trade_status("two", TradeStatus::Success);
    assert_eq!(state.trades[0].status, TradeStatus::Pending);
    assert_eq!(state.trades[1].status, TradeStatus::Pending);
    assert_eq!(state.trades[2].status, TradeStatus::Success);
    state.update_trade_status("three", TradeStatus::Failed);
    assert_eq!(state.trades[0].order_id, None);
    state.update_trade_price("btc-updown-5m", "BTC", "UP", number(0.75));
    assert_eq!(state.trades[1].price, number(0.75));
    assert_eq!(state.trades[2].price, number(0.8));
    state.set_latest_trade_failed("btc-updown-5m", "BTC", "UP");
    assert_eq!(state.trades[1].status, TradeStatus::Failed);
    state.set_latest_trade_failed("eth-updown-5m", "ETH", "UP");
    assert_eq!(state.trades[0].status, TradeStatus::Pending);
}

#[test]
fn results_go_to_the_newest_waiting_trade() {
    let mut state = AppState::new();
    state.add_trade(trade("UP", TradeStatus::Success, 0.8));
    state.add_trade(trade("UP", TradeStatus::Success, 0.7));
    state.add_trade(trade("UP", TradeStatus::Failed, 0.6));
    state.set_trade_result("btc-updown-5m", "BTC", "UP", "WIN".to_string());
    assert_eq!(state.trades[1].result, Some("WIN".to_string()));
    assert_eq!(state.trades[2].result, None);
    state.set_trade_result("btc-updown-5m", "BTC", "UP", "LOSS".to_string());
    assert_eq!(state.trades[2].result, Some("LOSS".to_string()));
    state.set_trade_result("btc-updown-5m", "BTC", "UP", "WIN".to_string());
    assert_eq!(state.trades[0].result, None);
}

#[test]
fn record_of_the_trader() {
    let mut state = AppState::new();
    let empty = TradingStats::default();
    assert_eq!(empty.trade_count, 0);
    assert!(empty.settled.is_empty());
    for (status, result, price) in [
        (TradeStatus::Success, "WIN", 0.8),
        (TradeStatus::Success, "LOSS", 0.7),
        (TradeStatus::Success, "", 0.6),
        (TradeStatus::Failed, "WIN", 0.5),
        (TradeStatus::Pending, "", 0.5),
        (TradeStatus::Success, "WIN", 0.9),
    ] {
        let mut t = trade("UP", status, price);
        if result != "" {
            t.result = Some(result.to_string());
        }
        state.add_trade(t);
    }
    let stats = state.get_trading_stats();
    assert_eq!(stats.trade_count, 4);
    assert_eq!(stats.win_count, 2);
    assert_eq!(stats.loss_count, 1);
    assert_eq!(stats.settled.len(), 3);
    assert_eq!(stats.settled[0].price, number(0.9));
    assert!(stats.settled[0].won);
    assert_eq!(stats.settled[1].price, number(0.7));
    assert!(!stats.settled[1].won);
    assert_eq!(stats.settled[2].amount, number(1.0));
}

#[test]
fn fifty_status_messages_are_kept() {
    let mut state = AppState::new();
    for i in 0..52 {
        let line = state.add_status_at(at(65), format!("message {}", i));
        assert_eq!(line, format!("[00:01:05] message {}", i));
    }
    assert_eq!(state.status_messages.len(), 50);
    assert_eq!(state.status_messages[0], "[00:01:05] message 51");
    assert_eq!(state.status_messages[49], "[00:01:05] message 2");
}

#[test]
fn status_messages_of_the_clock() {
    let mut state = AppState::new();
    let line = state.add_status("hello".to_string());
    assert_eq!(line.len(), "[00:00:00] hello".len());
    assert!(line.starts_with("["));
    assert!(line.ends_with("] hello"));
    assert_eq!(line.as_bytes()[3], b':');
    assert_eq!(state.status_messages[0], line);
}

#[test]
fn reconnection_is_taken_once() {
    let mut state = AppState::new();
    state.request_ws_reconnect();
    assert!(state.should_reconnect());
    assert!(!state.should_reconnect());
    state.set_ws_connected(true);
    assert!(state.ws_connected);
    state.set_next_interval(900);
    assert_eq!(state.next_interval, 900);
}

#[test]
fn new_tokens_reset_prices() {
    let mut state = AppState::new();
    state.add_market_at("btc-updown-5m".to_string(), info("1", "2"), at(5));
    match state.current_prices.get("btc-updown-5m") {
        Some(prices) => assert_eq!(*prices, MarketPrices::blank_at(at(5))),
        None => panic!("no prices"),
    }
    state.update_price(update(true, Some(0.6), None, 6));
    state.add_market_at("btc-updown-5m".to_string(), info("1", "2"), at(7));
    match state.current_prices.get("btc-updown-5m") {
        Some(prices) => assert_eq!(prices.up_best_ask, Some(number(0.6))),
        None => panic!("no prices"),
    }
    state.add_market_at("btc-updown-5m".to_string(), info("1", "3"), at(8));
    match state.current_prices.get("btc-updown-5m") {
        Some(prices) => assert_eq!(*prices, MarketPrices::blank_at(at(8))),
        None => panic!("no prices"),
    }
    state.add_market("eth-updown-5m".to_string(), info("4", "5"));
    assert_eq!(state.tracked_markets.len(), 2);
    assert_eq!(state.get_all_token_ids(), vec!["1", "3", "4", "5"]);
    match state.current_prices.get("eth-updown-5m") {
        Some(prices) => assert!(prices.last_update.secs > 1_600_000_000),
        None => panic!("no prices"),
    }
}

#[test]
fn trades_are_counted_per_window() {
    let mut state = AppState::new();
    assert!(state.can_trade_asset("BTC", 2, 300));
    assert_eq!(state.get_asset_trade_count("BTC", 300), 0);
    assert!(state.try_trade_asset("BTC", 2, 300));
    assert!(state.try_trade_asset("BTC", 2, 300));
    assert!(!state.try_trade_asset("BTC", 2, 300));
    assert!(!state.can_trade_asset("BTC", 2, 300));
    assert_eq!(state.get_asset_trade_count("BTC", 300), 2);
    assert_eq!(state.get_asset_trade_count("BTC", 600), 0);
    assert_eq!(state.get_asset_trade_count("ETH", 300), 0);
    assert!(state.try_trade_asset("ETH", 1, 300));
    assert!(state.can_trade_asset("BTC", 2, 600));
    assert_eq!(state.get_asset_trade_count("BTC", 300), 0);
    state.increment_asset_trades("BTC", 600);
    assert_eq!(state.get_asset_trade_count("BTC", 600), 1);
    state.increment_asset_trades("BTC", 900);
    assert_eq!(state.get_asset_trade_count("BTC", 900), 1);
    assert!(!state.try_trade_asset("SOL", 0, 900));
}

#[test]
fn tries_beyond_the_limit_are_refused() {
    for max in 0..5 {
        let mut state = AppState::new();
        let mut granted = 0;
        for _ in 0..7 {
            if state.try_trade_asset("BTC", max, 300) {
                granted += 1;
            }
        }
        assert_eq!(granted, max);
        assert_eq!(state.get_asset_trade_count("BTC", 300), max);
    }
}

#[test]
fn small_defaults() {
    assert_eq!(TagState::default(), TagState { tagged: false, tagged_at: None });
    assert!(!MarketTagState::default().up.tagged);
    assert!(!MarketTagState::default().down.tagged);
    assert_eq!(AssetTradeWindow::new(7), AssetTradeWindow { trade_count: 0, window_start: 7 });
    assert_eq!(MarketPrices::default().up_best_ask, None);
    let mut state = AppState::new();
    state.tag_states.insert("x".to_string(), MarketTagState::default());
    state.reset_tag_states();
    assert_eq!(state.tag_states.len(), 0);
}
