//! Backend of a crowd forecasting market: the exact scoring arithmetic, the
//! decoding of chain objects and events, the keeper that drives pools through
//! their states, and the answers of the public API.

pub mod api;
pub mod config;
pub mod error;
pub mod indexer;
pub mod json;
pub mod keeper;
pub mod math;
pub mod models;
pub mod sui;
pub mod text;
