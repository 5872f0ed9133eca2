//! Verified logic of a BTC/USD price tracker.
pub mod body;
pub mod clock;
pub mod config;
pub mod errors;
pub mod freshness;
pub mod handlers;
pub mod json;
pub mod lifecycle;
pub mod limits;
pub mod models;
pub mod news;
pub mod presence;
pub mod price;
pub mod pricing;
pub mod refresh;
pub mod snapshots;
pub mod sources;
pub mod storage;
pub mod text;
pub mod ui;
