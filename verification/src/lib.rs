//! A small client for the SerpApi search-results service.
//!
//! The library decides what is sent and what a reply means: it merges the
//! client's default parameters with the parameters of one call, builds the
//! request, and turns the reply into a value or an error. Performing the
//! HTTP exchange itself is left to the caller.

pub mod json;
pub mod params;
pub mod query;
pub mod response;
pub mod serpapi;
pub mod text;
