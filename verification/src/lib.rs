//! Windows client for Transom, a seamless remote windowing system.

pub mod address;
pub mod bytes;
pub mod cli;
pub mod connections;
pub mod connections_laws;
pub mod discovery;
pub mod discovery_laws;
pub mod endpoint_laws;
pub mod hevc;
pub mod hevc_laws;
pub mod keyed;
pub mod model;
pub mod net;
pub mod options;
pub mod options_laws;
pub mod reply_laws;
pub mod resize_sync;
pub mod runner;
pub mod runner_laws;
pub mod services;
pub mod services_laws;
pub mod text;
pub mod trace;
pub mod vk;
pub mod win;
pub mod window_fit;
pub mod wire;
