//! The configuration of the trader.
use vstd::prelude::*;

use crate::number::Number;

verus! {

/// The whole configuration: what to track, where to ask, and how to trade, if at all.
#[derive(Clone, Debug)]
pub struct Config {
    pub markets: Vec<MarketConfig>,
    pub api: ApiConfig,
    pub trading: Option<TradingConfig>,
}

/// A market to track.
#[derive(Clone, Debug)]
pub struct MarketConfig {
    pub slug: String,
}

/// Where market data comes from.
#[derive(Clone, Debug)]
pub struct ApiConfig {
    pub gamma_base_url: String,
    pub websocket_url: String,
}

/// How to trade.
#[derive(Clone, Debug)]
pub struct TradingConfig {
    /// Whether trades are placed. Otherwise they are only simulated.
    pub enabled: bool,
    /// Dollars per trade.
    pub bet_amount: Number,
    pub private_key: String,
    pub proxy_address: String,
    /// 0 for an account of one's own, 1 for a proxy, 2 for a Gnosis safe.
    pub signature_type: u8,
    /// A side is tagged when its price is below this.
    pub tag_threshold: Number,
    /// A tagged side is bought when its price has recovered above this.
    pub execute_threshold: Number,
    /// Monitoring starts this many seconds before the interval ends.
    pub monitoring_window_seconds: u64,
    /// Trades per asset and window.
    pub max_asset_trades: u32,
    /// Further attempts after a failed one.
    pub max_retries: u32,
}

impl Default for Config {
    /// The public services, the Bitcoin market, and no trading.
    fn default() -> (r: Self)
        ensures
            r.markets@.len() == 1,
            r.markets@[0].slug@ == "btc-updown-5m"@,
            r.api.gamma_base_url@ == "https://gamma-api.polymarket.com"@,
            r.api.websocket_url@ == "wss://ws-subscriptions-clob.polymarket.com"@,
            r.trading is None,
    {
        let mut markets: Vec<MarketConfig> = Vec::new();
        markets.push(MarketConfig { slug: "btc-updown-5m".to_string() });
        Config {
            markets,
            api: ApiConfig {
                gamma_base_url: "https://gamma-api.polymarket.com".to_string(),
                websocket_url: "wss://ws-subscriptions-clob.polymarket.com".to_string(),
            },
            trading: None,
        }
    }
}

} // verus!
