//! Verified core of the Veil desktop client: settings validation, the
//! connection state machine, event and log buffers, traffic-mode planning
//! and the pure builders for OS proxy, autostart and TUN commands.

pub mod error;
pub mod net;
pub mod text;
pub mod events;
pub mod guilog;
pub mod phase;
pub mod api;
pub mod settings;
pub mod tun;
pub mod proxy;
pub mod mode;
pub mod autostart;
pub mod commands;
pub mod cli;
pub mod session;
