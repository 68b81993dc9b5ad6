use polymarket_tracker::clock::UtcInstant;
use polymarket_tracker::gamma_api::ParsedMarketInfo;
use polymarket_tracker::number::Number;
use polymarket_tracker::state::AppState;
use polymarket_tracker::websocket::BookMessage;
use polymarket_tracker::websocket::FeedAction;
use polymarket_tracker::websocket::FeedEvent;
use polymarket_tracker::websocket::OrderLevel;
use polymarket_tracker::websocket::PriceChange;
use polymarket_tracker::websocket::PriceChangeMessage;
use polymarket_tracker::websocket::WebSocketManager;
use polymarket_tracker::websocket::WsMessage;

fn number(x: f64) -> Number {
    Number::from_bits(x.to_bits())
}

fn read(text: &str) -> Option<Number> {
    match text.parse::<f64>() {
        Ok(x) => Some(number(x)),
        Err(_) => None,
    }
}

fn at(secs: i64) -> UtcInstant {
    UtcInstant { secs, nanos: 0 }
}

fn track(state: &mut AppState, slug: &str, up: &str, down: &str) {
    state.add_market_at(
        slug.to_string(),
        ParsedMarketInfo {
            ticker: slug.to_string(),
            title: "t".to_string(),
            condition_id: "c".to_string(),
            up_token_id: up.to_string(),
            down_token_id: down.to_string(),
            up_price: number(0.5),
            down_price: number(0.5),
            up_best_ask: None,
            down_best_ask: None,
        },
        at(1),
    );
}

fn two_markets() -> AppState {
    let mut state = AppState::new();
    track(&mut state, "btc-updown-5m", "1", "2");
    track(&mut state, "eth-updown-5m", "3", "4");
    state
}

fn level(price: &str) -> OrderLevel {
    OrderLevel { price: price.to_string(), size: "10".to_string() }
}

fn book(token: &str, asks: &[&str], bids: &[&str]) -> WsMessage {
    WsMessage::Book(BookMessage {
        asset_id: token.to_string(),
        market: "m".to_string(),
        bids: bids.iter().map(|b| level(b)).collect(),
        asks: asks.iter().map(|a| level(a)).collect(),
        timestamp: "0".to_string(),
    })
}

fn change(token: &str, ask: &str, bid: &str) -> PriceChange {
    PriceChange {
        asset_id: token.to_string(),
        price: "0.1".to_string(),
        size: "1".to_string(),
        side: "BUY".to_string(),
        best_bid: bid.to_string(),
        best_ask: ask.to_string(),
    }
}

fn handle(state: &mut AppState, message: &WsMessage, secs: i64) {
    let mapping = WebSocketManager::build_token_mapping(state);
    let readings = WebSocketManager::read_message(message, &read);
    assert!(WebSocketManager::can_handle(message, &readings, &mapping));
    WebSocketManager::handle_message_at(state, message, &readings, &mapping, at(secs));
}

#[test]
fn tokens_are_mapped_to_their_markets() {
    let state = two_markets();
    let mapping = WebSocketManager::build_token_mapping(&state);
    assert_eq!(mapping.len(), 4);
    assert_eq!(mapping.get("1"), Some(&"btc-updown-5m".to_string()));
    assert_eq!(mapping.get("2"), Some(&"btc-updown-5m".to_string()));
    assert_eq!(mapping.get("4"), Some(&"eth-updown-5m".to_string()));
    assert_eq!(mapping.get("5"), None);
}

#[test]
fn book_gives_lowest_ask_and_highest_bid() {
    let mut state = two_markets();
    handle(&mut state, &book("2", &["0.60", "x", "0.55", "0.70"], &["0.40", "0.45", "0.10"]), 9);
    match state.current_prices.get("btc-updown-5m") {
        Some(prices) => {
            assert_eq!(prices.down_best_ask, Some(number(0.55)));
            assert_eq!(prices.down_best_bid, Some(number(0.45)));
            assert_eq!(prices.up_best_ask, None);
            assert_eq!(prices.last_update, at(9));
        }
        None => panic!("no prices"),
    }
    handle(&mut state, &book("2", &[], &[]), 10);
    match state.current_prices.get("btc-updown-5m") {
        Some(prices) => {
            assert_eq!(prices.down_best_ask, Some(number(0.55)));
            assert_eq!(prices.last_update, at(10));
        }
        None => panic!("no prices"),
    }
    match state.current_prices.get("eth-updown-5m") {
        Some(prices) => assert_eq!(prices.last_update, at(1)),
        None => panic!("no prices"),
    }
}

#[test]
fn each_token_prices_its_side() {
    for (token, slug, is_up) in [
        ("1", "btc-updown-5m", true),
        ("2", "btc-updown-5m", false),
        ("3", "eth-updown-5m", true),
        ("4", "eth-updown-5m", false),
    ] {
        let mut state = two_markets();
        handle(&mut state, &book(token, &["0.5"], &[]), 3);
        match state.current_prices.get(slug) {
            Some(prices) => {
                assert_eq!(prices.up_best_ask.is_some(), is_up);
                assert_eq!(prices.down_best_ask.is_some(), !is_up);
            }
            None => panic!("no prices"),
        }
    }
}

#[test]
fn unknown_tokens_change_nothing() {
    let mut state = two_markets();
    handle(&mut state, &book("9", &["0.5", "nan", "0.4"], &[]), 3);
    assert_eq!(state.price_history.len(), 0);
    let mapping = WebSocketManager::build_token_mapping(&state);
    let empty = AppState::new();
    let mut other = empty;
    let message = book("1", &["0.5"], &[]);
    let readings = WebSocketManager::read_message(&message, &read);
    WebSocketManager::handle_message_at(&mut other, &message, &readings, &mapping, at(3));
    assert_eq!(other.current_prices.len(), 0);
}

#[test]
fn books_without_numbers_cannot_be_compared() {
    let state = two_markets();
    let mapping = WebSocketManager::build_token_mapping(&state);
    let message = book("1", &["0.5", "NaN"], &[]);
    let readings = WebSocketManager::read_message(&message, &read);
    assert!(!WebSocketManager::can_handle(&message, &readings, &mapping));
    let alone = book("1", &["NaN"], &[]);
    let readings = WebSocketManager::read_message(&alone, &read);
    assert!(WebSocketManager::can_handle(&alone, &readings, &mapping));
}

#[test]
fn changed_prices_are_taken_one_by_one() {
    let mut state = two_markets();
    let message = WsMessage::PriceChange(PriceChangeMessage {
        market: "m".to_string(),
        price_changes: vec![
            change("1", "0.61", "0.60"),
            change("9", "0.1", "0.1"),
            change("3", "", "0.30"),
            change("1", "0.62", "bad"),
        ],
        timestamp: "0".to_string(),
    });
    handle(&mut state, &message, 7);
    match state.current_prices.get("btc-updown-5m") {
        Some(prices) => {
            assert_eq!(prices.up_best_ask, Some(number(0.62)));
            assert_eq!(prices.up_best_bid, Some(number(0.60)));
        }
        None => panic!("no prices"),
    }
    match state.current_prices.get("eth-updown-5m") {
        Some(prices) => {
            assert_eq!(prices.up_best_ask, None);
            assert_eq!(prices.up_best_bid, Some(number(0.30)));
        }
        None => panic!("no prices"),
    }
    match state.price_history.get("btc-updown-5m") {
        Some(history) => assert_eq!(history.len(), 2),
        None => panic!("no history"),
    }
}

#[test]
fn other_messages_change_nothing() {
    let mut state = two_markets();
    handle(&mut state, &WsMessage::LastTradePrice(()), 5);
    handle(&mut state, &WsMessage::Unknown, 5);
    assert_eq!(state.price_history.len(), 0);
}

#[test]
fn messages_as_of_now() {
    let mut state = two_markets();
    let mapping = WebSocketManager::build_token_mapping(&state);
    let message = book("1", &["0.5"], &[]);
    let readings = WebSocketManager::read_message(&message, &read);
    WebSocketManager::handle_message(&mut state, &message, &readings, &mapping);
    match state.current_prices.get("btc-updown-5m") {
        Some(prices) => assert!(prices.last_update.secs > 1_600_000_000),
        None => panic!("no prices"),
    }
}

#[test]
fn events_of_the_connection() {
    let mut state = two_markets();
    let step = WebSocketManager::on_event(&mut state, &FeedEvent::Text("PONG".to_string()));
    assert_eq!(step.action, FeedAction::Continue);
    let step = WebSocketManager::on_event(&mut state, &FeedEvent::Text("{}".to_string()));
    assert_eq!(step.action, FeedAction::Handle);
    assert!(step.notice.is_none());
    let step = WebSocketManager::on_event(&mut state, &FeedEvent::Closed);
    assert_eq!(step.action, FeedAction::Stop);
    assert!(step.notice.is_none());
    let step = WebSocketManager::on_event(&mut state, &FeedEvent::Failed("reset".to_string()));
    assert_eq!(step.action, FeedAction::Stop);
    match step.notice {
        Some(notice) => assert_eq!(notice.text("", ""), "WebSocket error: reset"),
        None => panic!("no notice"),
    }
    let step = WebSocketManager::on_event(&mut state, &FeedEvent::Other);
    assert_eq!(step.action, FeedAction::Continue);
    let step = WebSocketManager::on_event(&mut state, &FeedEvent::PingDue);
    assert_eq!(step.action, FeedAction::SendPing);
    let step = WebSocketManager::on_event(&mut state, &FeedEvent::PingFailed("gone".to_string()));
    assert_eq!(step.action, FeedAction::Stop);
    match step.notice {
        Some(notice) => assert_eq!(notice.text("", ""), "Ping failed: gone"),
        None => panic!("no notice"),
    }
    let step = WebSocketManager::on_event(&mut state, &FeedEvent::ReconnectCheck);
    assert_eq!(step.action, FeedAction::Continue);
    state.request_ws_reconnect();
    let step = WebSocketManager::on_event(&mut state, &FeedEvent::ReconnectCheck);
    assert_eq!(step.action, FeedAction::Stop);
    match step.notice {
        Some(notice) => assert_eq!(notice.text("", ""), "[EVENT] Reconnecting for new interval..."),
        None => panic!("no notice"),
    }
    let step = WebSocketManager::on_event(&mut state, &FeedEvent::ReconnectCheck);
    assert_eq!(step.action, FeedAction::Continue);
}

#[test]
fn course_of_a_connection() {
    let mut state = AppState::new();
    let plan = WebSocketManager::plan_connection(&mut state);
    assert!(plan.asset_ids.is_empty());
    assert_eq!(plan.wait_seconds, 2);
    assert_eq!(plan.notice.text("", ""), "[EVENT] Waiting for market data...");
    assert!(!state.ws_connected);
    let pause = WebSocketManager::connection_ended(&mut state, None);
    assert_eq!(pause.wait_seconds, 2);
    assert_eq!(pause.notices.len(), 1);
    assert_eq!(
        pause.notices[0].text("", ""),
        "[EVENT] No tokens to subscribe to, waiting..."
    );
    let mut state = two_markets();
    let plan = WebSocketManager::plan_connection(&mut state);
    assert_eq!(plan.asset_ids, vec!["1", "2", "3", "4"]);
    assert_eq!(plan.wait_seconds, 0);
    assert_eq!(
        plan.notice.text("", ""),
        "[EVENT] Connecting to WebSocket with 4 tokens..."
    );
    assert!(state.ws_connected);
    let pause = WebSocketManager::connection_ended(&mut state, Some("refused".to_string()));
    assert!(!state.ws_connected);
    assert_eq!(pause.wait_seconds, 3);
    assert_eq!(pause.notices.len(), 2);
    assert_eq!(pause.notices[0].text("", ""), "WebSocket error: refused");
    assert_eq!(
        pause.notices[1].text("", ""),
        "[EVENT] WebSocket disconnected, reconnecting in 3s..."
    );
}

#[test]
fn address_and_subscription() {
    let manager = WebSocketManager::new("wss://host".to_string());
    assert_eq!(manager.market_url(), "wss://host/ws/market");
    let subscription = WebSocketManager::subscription(vec!["1".to_string()]);
    assert_eq!(subscription.assets_ids, vec!["1"]);
    assert_eq!(subscription.msg_type, "market");
}
