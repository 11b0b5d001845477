//! Intrusion-response engine: pattern compilation, hit detection,
//! sliding-window counting, and a jail registry with escalating penalties.

pub mod text;
pub mod ip;
pub mod hourstat;
pub mod jail;
pub mod pattern;
pub mod observer;
pub mod command;
pub mod config;
