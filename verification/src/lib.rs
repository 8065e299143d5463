//! Verified core of a small command-line weather tool: argument grammar,
//! saved-city bookkeeping, weather-code descriptions and report text.

pub mod model;
pub mod text;
pub mod display;
pub mod storage;
pub mod cli;
pub mod api;
pub mod session;
pub mod laws;
