use polymarket_tracker::clock::UtcInstant;
use polymarket_tracker::notice::Notice;
use polymarket_tracker::number::Number;
use polymarket_tracker::text::asset_of;
use polymarket_tracker::text::contains_text;
use polymarket_tracker::text::i64_text;
use polymarket_tracker::text::is_text;
use polymarket_tracker::text::minutes_seconds_text;
use polymarket_tracker::text::same_text;
use polymarket_tracker::text::single_line;
use polymarket_tracker::text::text_comes_before;
use polymarket_tracker::text::two_digit_text;
use polymarket_tracker::text::u64_text;
use polymarket_tracker::text_map::TextMap;

fn number(x: f64) -> Number {
    Number::from_bits(x.to_bits())
}

fn told(notice: &Notice) -> String {
    let price = match notice.price {
        Some(p) => format!("{:.3}", f64::from_bits(p.bits)),
        None => String::new(),
    };
    let amount = match notice.amount {
        Some(a) => format!("{:.2}", f64::from_bits(a.bits)),
        None => String::new(),
    };
    notice.text(&price, &amount)
}

#[test]
fn same_texts() {
    assert!(same_text("", ""));
    assert!(same_text("UP", "UP"));
    assert!(!same_text("UP", "UPS"));
    assert!(!same_text("UPS", "UP"));
    assert!(!same_text("up", "UP"));
    assert!(is_text(&Some("WIN".to_string()), "WIN"));
    assert!(!is_text(&None, "WIN"));
    assert!(!is_text(&Some("LOSS".to_string()), "WIN"));
}

#[test]
fn assets_are_the_first_part_in_upper_case() {
    assert_eq!(asset_of("btc-updown-5m"), "BTC");
    assert_eq!(asset_of("btc-updown-5m-123456"), "BTC");
    assert_eq!(asset_of("eth"), "ETH");
    assert_eq!(asset_of(""), "");
    assert_eq!(asset_of("-x"), "");
    assert_eq!(asset_of("straße-x"), "STRASSE");
}

#[test]
fn parts_of_texts() {
    assert!(contains_text("WebSocket error: x", "error"));
    assert!(!contains_text("WebSocket error: x", "Error"));
    assert!(contains_text("aaab", "aab"));
    assert!(contains_text("abc", ""));
    assert!(contains_text("", ""));
    assert!(!contains_text("ab", "abc"));
    assert!(contains_text("abc", "bc"));
}

#[test]
fn lines_and_order() {
    assert_eq!(single_line("a\nb\r\nc"), "a b\r c");
    assert_eq!(single_line(""), "");
    let samples = ["", "a", "ab", "abc", "b", "btc-updown-5m", "eth-updown-5m", "é", "Z"];
    for a in samples {
        for b in samples {
            assert_eq!(text_comes_before(a, b), a < b, "{} {}", a, b);
        }
    }
}

#[test]
fn numbers_in_decimal() {
    for n in [0, 7, 10, 99, 100, 1_234_567_890, u64::MAX] {
        assert_eq!(u64_text(n), n.to_string());
    }
    for n in [0, -1, 42, -300, i64::MAX, i64::MIN] {
        assert_eq!(i64_text(n), n.to_string());
    }
    assert_eq!(two_digit_text(5), "05");
    assert_eq!(two_digit_text(59), "59");
    assert_eq!(two_digit_text(100), "100");
    assert_eq!(minutes_seconds_text(0), "0:00");
    assert_eq!(minutes_seconds_text(65), "1:05");
    assert_eq!(minutes_seconds_text(299), "4:59");
}

#[test]
fn time_of_day() {
    let at = |secs: i64| UtcInstant { secs, nanos: 0 };
    assert_eq!(at(0).time_of_day(), "00:00:00");
    assert_eq!(at(86_399).time_of_day(), "23:59:59");
    assert_eq!(at(1_700_000_000).time_of_day(), "22:13:20");
    assert!(at(0).is_valid());
    assert!(!at(-1).is_valid());
    assert!(at(8_210_266_876_799).is_valid());
    assert!(!at(8_210_266_876_800).is_valid());
    assert_eq!(at(8_210_266_876_799).time_of_day(), "23:59:59");
    assert!(!UtcInstant { secs: 0, nanos: 1_000_000_000 }.is_valid());
}

#[test]
fn maps_hold_the_last_value_and_the_first_order() {
    let mut map: TextMap<u32> = TextMap::new();
    assert_eq!(map.len(), 0);
    map.insert("b".to_string(), 1);
    map.insert("a".to_string(), 2);
    map.insert("b".to_string(), 3);
    assert_eq!(map.len(), 2);
    assert_eq!(map.get("b"), Some(&3));
    assert_eq!(map.get("c"), None);
    assert_eq!(map.key_at(0), "b");
    assert_eq!(map.key_at(1), "a");
    assert_eq!(*map.value_at(1), 2);
    assert_eq!(map.remove("b"), Some(3));
    assert_eq!(map.remove("b"), None);
    assert_eq!(map.len(), 1);
    map.clear();
    assert_eq!(map.get("a"), None);
}

#[test]
fn notices_of_trading() {
    assert_eq!(told(&Notice::tagged("BTC", "UP", number(0.7))), "[EVENT] BTC UP tagged at 0.700");
    assert_eq!(
        told(&Notice::execute_signal("BTC", "DOWN", number(0.8125))),
        "[TRADE] BTC DOWN execute signal! Price: 0.812"
    );
    assert_eq!(
        told(&Notice::cannot_retry("BTC", "UP")),
        "[TRADE] Cannot retry BTC UP - no current price available"
    );
    assert_eq!(
        told(&Notice::limit_reached("BTC", 1, 1, "UP")),
        "[TRADE] Entry limit reached for BTC (1/1 trades this window) - skipping UP trade"
    );
    assert_eq!(
        told(&Notice::simulated(0, 5, "btc-updown-5m", "UP", number(0.8), number(1.0))),
        "[TRADE] Simulated trade: btc-updown-5m UP @ 0.800 for $1.00"
    );
    assert_eq!(
        told(&Notice::simulated(2, 5, "btc-updown-5m", "UP", number(0.8), number(1.0))),
        "[TRADE] Simulated trade (Retry 2/5): btc-updown-5m UP @ 0.800 for $1.00"
    );
    assert_eq!(
        told(&Notice::executing(0, 5, "BTC", "UP", number(0.8), number(2.5), "77")),
        "[TRADE] Executing: BTC UP @ 0.800 for $2.50 (Token: 77)"
    );
    assert_eq!(
        told(&Notice::executing(1, 5, "BTC", "UP", number(0.8), number(2.5), "77")),
        "[TRADE] Executing (Retry 1/5): BTC UP @ 0.800 for $2.50 (Token: 77)"
    );
    assert_eq!(told(&Notice::filled("id", 0)), "[TRADE] Success! Order ID: id");
    assert_eq!(told(&Notice::filled("id", 3)), "[TRADE] Success! Order ID: id (after 3 retries)");
    assert_eq!(
        told(&Notice::retry_unfilled("no match", 1, 5)),
        "[TRADE] Failed to fill: no match - Retrying at market price (Attempt 1/5)"
    );
    assert_eq!(
        told(&Notice::retry_failed("timeout", 2, 5)),
        "[TRADE] Error: timeout - Retrying at market price (Attempt 2/5)"
    );
    assert_eq!(
        told(&Notice::gave_up(5, "BTC", "UP", "timeout")),
        "[TRADE] Max retries reached (5) - Skipping BTC UP trade. Last error: timeout"
    );
    assert_eq!(
        told(&Notice::evaluated("BTC", "UP", "WIN", number(0.99))),
        "[EVAL] BTC UP trade result: WIN (final price: 0.990)"
    );
    assert_eq!(
        told(&Notice::evaluation_done(2, 600)),
        "[EVAL] Evaluated 2 trades for interval ending at 600"
    );
}

#[test]
fn notices_of_the_session() {
    assert_eq!(told(&Notice::starting()), "[EVENT] Starting Polymarket Trader...");
    assert_eq!(
        told(&Notice::awaiting_markets()),
        "[EVENT] Waiting for new markets to be available..."
    );
    assert_eq!(
        told(&Notice::fetching_markets(300)),
        "[EVENT] Fetching markets for interval ending at 300"
    );
    assert_eq!(told(&Notice::loaded("BTC")), "[EVENT] Loaded: BTC");
    assert_eq!(told(&Notice::unreadable("x-300", "bad")), "[EVENT] Parse error for x-300: bad");
    assert_eq!(told(&Notice::unfetched("x-300", "gone")), "[EVENT] Fetch error for x-300: gone");
    assert_eq!(told(&Notice::next_refresh(125)), "[EVENT] Next refresh in 2:05");
    assert_eq!(told(&Notice::awaiting_tokens()), "[EVENT] Waiting for market data...");
    assert_eq!(
        told(&Notice::connecting(4)),
        "[EVENT] Connecting to WebSocket with 4 tokens..."
    );
    assert_eq!(told(&Notice::feed_error("reset")), "WebSocket error: reset");
    assert_eq!(told(&Notice::ping_failed("closed")), "Ping failed: closed");
    assert_eq!(
        told(&Notice::feed_without_tokens()),
        "[EVENT] No tokens to subscribe to, waiting..."
    );
    assert_eq!(
        told(&Notice::feed_disconnected()),
        "[EVENT] WebSocket disconnected, reconnecting in 3s..."
    );
    assert_eq!(told(&Notice::feed_rollover()), "[EVENT] Reconnecting for new interval...");
    assert_eq!(
        told(&Notice::authenticated_as("0x01")),
        "[AUTH] Successfully authenticated with Polymarket CLOB. Address: 0x01"
    );
    assert_eq!(told(&Notice::not_authenticated("no")), "[AUTH] Authentication failed: no");
    assert_eq!(told(&Notice::trading_init_error("no")), "Trading init error: no");
    assert_eq!(told(&Notice::live_trading()), "[EVENT] Live Trading ENABLED");
    assert_eq!(told(&Notice::simulating()), "[EVENT] Trading in SIMULATION mode");
    assert_eq!(told(&Notice::trading_not_configured()), "Trading not configured");
    assert_eq!(told(&Notice::manual_refresh()), "Manual refresh requested...");
    assert_eq!(
        told(&Notice::signing_order("m", "s", "t", "1", "2")),
        "[TRADE] Signing Order: Maker=m, Signer=s, Token=t, MakerAmt=1, TakerAmt=2"
    );
    assert_eq!(told(&Notice::signed_order("o", "g")), "[TRADE] Signed Order: Owner=o, Sig=g");
}
