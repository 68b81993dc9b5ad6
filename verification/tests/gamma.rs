use polymarket_tracker::clock::UtcInstant;
use polymarket_tracker::config::Config;
use polymarket_tracker::gamma_api::GammaApiClient;
use polymarket_tracker::gamma_api::GammaEventResponse;
use polymarket_tracker::gamma_api::GammaMarket;
use polymarket_tracker::gamma_api::ParseError;
use polymarket_tracker::number::Number;
use polymarket_tracker::text::asset_of;

fn number(x: f64) -> Number {
    Number::from_bits(x.to_bits())
}

fn read(text: &str) -> Option<Number> {
    match text.parse::<f64>() {
        Ok(x) => Some(number(x)),
        Err(_) => None,
    }
}

fn event(outcomes: &str, prices: &str, tokens: &str) -> GammaEventResponse {
    GammaEventResponse {
        id: "1".to_string(),
        ticker: "btc-updown-5m-300".to_string(),
        slug: "btc-updown-5m-300".to_string(),
        title: "Bitcoin Up or Down".to_string(),
        description: "".to_string(),
        resolution_source: None,
        start_date: None,
        end_date: None,
        active: true,
        closed: false,
        markets: vec![GammaMarket {
            id: "2".to_string(),
            question: "Up or down?".to_string(),
            condition_id: "0xc".to_string(),
            slug: "btc".to_string(),
            outcomes: outcomes.to_string(),
            outcome_prices: prices.to_string(),
            clob_token_ids: tokens.to_string(),
            best_bid: Some(number(0.5)),
            best_ask: Some(number(0.52)),
            last_trade_price: None,
        }],
    }
}

fn error_of(outcomes: &str, prices: &str, tokens: &str) -> Option<ParseError> {
    match GammaApiClient::parse_market_info(&event(outcomes, prices, tokens), read) {
        Ok(_) => None,
        Err(e) => Some(e),
    }
}

#[test]
fn market_with_up_first() {
    let e = event("[\"Up\", \"Down\"]", "[\"0.51\", \"0.49\"]", "[\"11\", \"22\"]");
    match GammaApiClient::parse_market_info(&e, read) {
        Ok(info) => {
            assert_eq!(info.ticker, "btc-updown-5m-300");
            assert_eq!(info.title, "Bitcoin Up or Down");
            assert_eq!(info.condition_id, "0xc");
            assert_eq!(info.up_token_id, "11");
            assert_eq!(info.down_token_id, "22");
            assert_eq!(info.up_price, number(0.51));
            assert_eq!(info.down_price, number(0.49));
            assert_eq!(info.up_best_ask, Some(number(0.52)));
            assert_eq!(info.down_best_ask, None);
        }
        Err(e) => panic!("{}", e.message()),
    }
}

#[test]
fn market_with_down_first() {
    let e = event("[\"Down\",\"Up\"]", "[\"0.49\",\"0.51\"]", "[\"22\",\"11\"]");
    match GammaApiClient::parse_market_info(&e, read) {
        Ok(info) => {
            assert_eq!(info.up_token_id, "11");
            assert_eq!(info.down_token_id, "22");
            assert_eq!(info.up_price, number(0.51));
            assert_eq!(info.up_best_ask, None);
            assert_eq!(info.down_best_ask, Some(number(0.52)));
        }
        Err(e) => panic!("{}", e.message()),
    }
}

#[test]
fn events_that_cannot_be_read() {
    let two = "[\"Up\", \"Down\"]";
    let prices = "[\"0.5\", \"0.5\"]";
    let tokens = "[\"1\", \"2\"]";
    let mut none = event(two, prices, tokens);
    none.markets.clear();
    match GammaApiClient::parse_market_info(&none, read) {
        Ok(_) => panic!("no market"),
        Err(e) => {
            assert_eq!(e, ParseError::NoMarkets);
            assert_eq!(e.message(), "No markets found in event");
        }
    }
    assert_eq!(error_of("Up, Down", prices, tokens), Some(ParseError::Outcomes));
    assert_eq!(error_of(two, "[0.5, 0.5]", tokens), Some(ParseError::OutcomePrices));
    assert_eq!(error_of(two, prices, "{}"), Some(ParseError::TokenIds));
    assert_eq!(error_of("[\"Up\"]", prices, tokens), Some(ParseError::WrongCount));
    assert_eq!(error_of(two, prices, "[]"), Some(ParseError::WrongCount));
    assert_eq!(error_of("[\"Yes\", \"Down\"]", prices, tokens), Some(ParseError::NoUpOutcome));
    assert_eq!(error_of("[\"Up\", \"No\"]", prices, tokens), Some(ParseError::NoDownOutcome));
    assert_eq!(error_of(two, "[\"x\", \"0.5\"]", tokens), Some(ParseError::UpPrice));
    assert_eq!(error_of(two, "[\"0.5\", \"x\"]", tokens), Some(ParseError::DownPrice));
    assert_eq!(error_of("x", "x", "x"), Some(ParseError::Outcomes));
}

#[test]
fn messages_of_parse_errors() {
    assert_eq!(ParseError::Outcomes.message(), "Failed to parse outcomes");
    assert_eq!(ParseError::OutcomePrices.message(), "Failed to parse outcome prices");
    assert_eq!(ParseError::TokenIds.message(), "Failed to parse CLOB token IDs");
    assert_eq!(ParseError::WrongCount.message(), "Expected 2 outcomes, prices, and token IDs");
    assert_eq!(ParseError::NoUpOutcome.message(), "Could not find 'Up' outcome");
    assert_eq!(ParseError::NoDownOutcome.message(), "Could not find 'Down' outcome");
    assert_eq!(ParseError::UpPrice.message(), "Failed to parse Up price");
    assert_eq!(ParseError::DownPrice.message(), "Failed to parse Down price");
}

#[test]
fn intervals_of_five_minutes() {
    let at = |secs: i64| UtcInstant { secs, nanos: 5 };
    assert_eq!(GammaApiClient::current_5min_timestamp_at(at(1_700_000_123)), 1_700_000_100);
    assert_eq!(GammaApiClient::next_5min_timestamp_after(at(1_700_000_123)), 1_700_000_400);
    assert_eq!(GammaApiClient::current_5min_timestamp_at(at(600)), 600);
    assert_eq!(GammaApiClient::next_5min_timestamp_after(at(600)), 900);
    assert_eq!(GammaApiClient::next_5min_timestamp_after(at(601)), 900);
    assert_eq!(GammaApiClient::next_5min_timestamp_after(at(899)), 900);
    assert_eq!(GammaApiClient::next_5min_timestamp_after(at(3_599)), 3_600);
}

#[test]
fn every_second_lies_in_its_interval() {
    for secs in 0..1_000 {
        let now = UtcInstant { secs, nanos: 0 };
        let start = GammaApiClient::current_5min_timestamp_at(now);
        let end = GammaApiClient::next_5min_timestamp_after(now);
        assert_eq!(end, start + 300);
        assert!(start <= secs && secs < end);
        assert_eq!(start % 300, 0);
    }
}

#[test]
fn intervals_of_the_clock() {
    let before = GammaApiClient::get_current_5min_timestamp();
    let next = GammaApiClient::get_next_5min_timestamp();
    let after = GammaApiClient::get_current_5min_timestamp();
    assert!(before > 1_600_000_000);
    assert_eq!(before % 300, 0);
    assert_eq!(next % 300, 0);
    assert!(before + 300 <= next && next <= after + 300);
    let left = GammaApiClient::time_until_next_interval();
    assert!(left.nanos <= 600_000_000_000);
    assert!(left.nanos > 0);
}

#[test]
fn time_until_a_second() {
    let now = UtcInstant { secs: 100, nanos: 250_000_000 };
    assert_eq!(GammaApiClient::time_until(300, now).nanos, 199_750_000_000);
    assert_eq!(GammaApiClient::time_until(99, now).nanos, -1_250_000_000);
}

#[test]
fn slugs_and_addresses() {
    assert_eq!(
        GammaApiClient::build_event_slug("btc-updown-5m", 1_700_000_100),
        "btc-updown-5m-1700000100"
    );
    assert_eq!(GammaApiClient::build_event_slug("", -5), "--5");
    let client = GammaApiClient::new("https://gamma-api.polymarket.com".to_string());
    assert_eq!(
        client.event_url("btc-updown-5m-300"),
        "https://gamma-api.polymarket.com/events/slug/btc-updown-5m-300"
    );
}

#[test]
fn default_configuration() {
    let config = Config::default();
    assert_eq!(config.markets.len(), 1);
    assert_eq!(config.markets[0].slug, "btc-updown-5m");
    assert_eq!(config.api.gamma_base_url, "https://gamma-api.polymarket.com");
    assert_eq!(config.api.websocket_url, "wss://ws-subscriptions-clob.polymarket.com");
    assert!(config.trading.is_none());
}

#[test]
fn event_slugs_keep_the_asset_and_differ() {
    let one = GammaApiClient::build_event_slug("btc-updown-5m", 300);
    let other = GammaApiClient::build_event_slug("btc-updown-5m", 600);
    assert_eq!(asset_of(&one), asset_of("btc-updown-5m"));
    assert_eq!(asset_of(&other), "BTC");
    assert!(one != other);
}
