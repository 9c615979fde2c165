//! Verified core of a desktop-shell backend: text scrapers for the output of
//! platform utilities, the freshness rule of the connectivity cache, and the
//! small decisions around file listing, persistence and dictation sessions.

pub mod battery;
pub mod bluetooth;
pub mod brightness;
pub mod cache;
pub mod commands;
pub mod comms;
pub mod dictation;
pub mod files;
pub mod metrics;
pub mod numbers;
pub mod persistence;
pub mod text;
pub mod thermal;
pub mod volume;
pub mod wifi;
