//! Links over UDP.
pub mod connector;
pub mod send_buffer;
pub mod task;
pub mod udp_laws;
