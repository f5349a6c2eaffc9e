pub mod config;
pub mod eth_state;
pub mod eth_watch;
pub mod ext;
pub mod gateway;
pub mod multiplexer;
pub mod params;
pub mod types;
