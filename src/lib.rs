//! Relays chat messages that match configured trigger phrases to webhooks, and lets
//! privileged users edit those triggers through private commands.

pub mod text;
pub mod config;
pub mod relay;
pub mod delivery;
pub mod gate;
pub mod command;
pub mod web;
pub mod setup;
