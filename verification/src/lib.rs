//! Event pipeline of a host security monitor: classification of raw
//! observations into typed security events, severity policies, trigger
//! rules with cooldowns, and the decisions around the local event socket.

pub mod text;
pub mod error;
pub mod numeral;
pub mod keyed;
pub mod time;
pub mod metadata;
pub mod cooldown;
pub mod config;
pub mod sorted;
pub mod event;
pub mod discovery;
pub mod classifier;
pub mod trigger;
pub mod usb;
pub mod network;
pub mod proc_net;
pub mod network_ids;
pub mod ipc;
pub mod lifecycle;
pub mod watch;
pub mod notify;
pub mod history;
pub mod display;
pub mod message;
pub mod monitor;
