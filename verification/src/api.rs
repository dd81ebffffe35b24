//! The JSON API that the simulator drives.
pub mod api_structs;
pub mod api_server;
