//! Links over KCP.
pub mod config;
pub mod config_laws;
pub mod connector;
pub mod filter;
pub mod kcp_laws;
pub mod link_tag;
pub mod plan;
pub mod util;
