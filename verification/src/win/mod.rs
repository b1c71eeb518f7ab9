//! The native window manager's decisions. Windows, graphics devices and decoders
//! belong to the caller; what is decided here is decided from plain values.

pub mod app;
pub mod app_laws;
pub mod args;
pub mod button;
pub mod chrome;
pub mod chrome_laws;
pub mod commands;
pub mod commands_laws;
pub mod controls;
pub mod cursor;
pub mod dashboard;
pub mod dashboard_laws;
pub mod decode;
pub mod decode_laws;
pub mod drawing_laws;
pub mod event_queue;
pub mod frame;
pub mod gallery;
pub mod input;
pub mod input_laws;
pub mod messages;
pub mod mirror_laws;
pub mod native_laws;
pub mod overview;
pub mod pixels;
pub mod pixels_laws;
pub mod proxy;
pub mod routing_laws;
pub mod scene;
pub mod search;
pub mod session_laws;
pub mod shell;
pub mod texture;
pub mod turn;
pub mod turn_laws;
pub mod video_router;
