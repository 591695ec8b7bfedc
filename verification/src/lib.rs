//! Unordered link aggregation.
pub mod addr;
pub mod addr_laws;
pub mod agg_udp;
pub mod balancer_laws;
pub mod cli;
pub mod crc;
pub mod cut_laws;
pub mod delivery_laws;
pub mod hashing;
pub mod join;
pub mod kcp;
pub mod link_state;
pub mod load_balancer;
pub mod map_laws;
pub mod message_laws;
pub mod msg_laws;
pub mod num;
pub mod session;
pub mod session_laws;
pub mod session_tables;
pub mod task_laws;
pub mod text;
pub mod text_laws;
pub mod time;
pub mod turns;
pub mod udp;
pub mod unordered_cfg;
pub mod unordered_msg;
pub mod unordered_task;
pub mod vec_map;
pub mod window_laws;
pub mod wire;
pub mod wire_laws;
