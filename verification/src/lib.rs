pub mod args;
pub mod bitcoind_client;
pub mod cli;
pub mod config;
pub mod convert;
pub mod disk;
pub mod dns_bootstrap;
pub mod events;
pub mod hex_utils;
pub mod keys;
pub mod logging;
pub mod migration;
pub mod net;
pub mod network;
pub mod persist;
pub mod probing;
pub mod rapid_sync;
pub mod runtime_config;
pub mod startup;
pub mod state;
pub mod sweep;
pub mod table;
pub mod text;
pub mod wire;
