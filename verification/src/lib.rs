//! Verified core of a launcher that starts a desktop client in a chosen time zone.

pub mod client;
pub mod command;
pub mod http;
pub mod json;
pub mod launch;
pub mod manifest;
pub mod network;
pub mod packages;
pub mod process;
pub mod settings;
pub mod skin;
pub mod supervise;
pub mod text;
pub mod xml;
