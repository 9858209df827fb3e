//! Verified core of a split-tunnel proxy tool: domain and IP matching, DNS and
//! SOCKS5 wire formats, configuration state, route bookkeeping and the small
//! state machines that drive the proxy pipeline.

pub mod text;
pub mod line_facts;
pub mod ip;
pub mod wire;
pub mod paths;
pub mod config;
pub mod proxy_config;
pub mod config_helpers;
pub mod update;
pub mod updater;
pub mod matcher;
pub mod dns;
pub mod dns_proxy;
pub mod socks5;
pub mod ssh;
pub mod shell;
pub mod platform;
pub mod system_proxy;
pub mod tunnel;
pub mod controller;
pub mod tray;
pub mod proxy_service;
pub mod menubar;
