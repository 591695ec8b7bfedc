//! UDP aggregation proxy: client and server side.
pub mod aggregator;
pub mod client_laws;
pub mod interface_laws;
pub mod interfaces;
pub mod link_stats;
pub mod proxy;
pub mod server;
pub mod server_laws;
pub mod sessions;
pub mod shares;
