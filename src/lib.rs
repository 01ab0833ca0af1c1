//! Device liveness detection, Wake-on-LAN helpers and connection bookkeeping
//! for a VPN / remote-desktop manager.
pub mod address;
pub mod config;
pub mod launch;
pub mod monitor;
pub mod network;
pub mod rdp;
pub mod system;
pub mod text;
pub mod ui_state;
pub mod updater;
pub mod vpn;
pub mod wireguard;
pub mod wol;
