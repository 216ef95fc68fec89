//! Utilities for working with a flight-simulation network's public data
//! feeds: endpoint discovery, response classification, request-URL
//! construction, snapshot ordering, and a geographic reference table.

pub mod airports;
pub mod errors;
pub mod fetch;
pub mod live_api;
pub mod models;
pub mod rest_api;
pub mod text;
