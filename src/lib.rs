//! Telemetry normalization for network-attached mining devices.
//!
//! The library resolves which device commands a set of requested fields needs,
//! caches the responses, extracts each field from its candidate locations in
//! declared order, and normalizes the raw values into a vendor-neutral record.
pub mod text;
pub mod json;
pub mod decimal;
pub mod collector;
pub mod extract;
pub mod data;
pub mod espminer;
pub mod web;
