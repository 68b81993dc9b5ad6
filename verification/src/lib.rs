//! A trader for Polymarket's five-minute up/down markets, with its behaviour proved.
pub mod clock;
pub mod config;
pub mod gamma_api;
pub mod laws;
pub mod market_effects;
pub mod notice;
pub mod number;
pub mod search;
pub mod session;
pub mod state;
pub mod text;
pub mod text_map;
pub mod trade_effects;
pub mod trading;
pub mod ui;
pub mod websocket;
