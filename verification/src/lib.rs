//! Receives e-mail and forwards it to a webhook as signed JSON: the settings, the rules and the
//! delivery state machine, each with a machine-checked contract.

pub mod attachment;
pub mod config;
pub mod decimal;
pub mod ip;
pub mod text;
pub mod webhook;
