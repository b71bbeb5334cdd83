//! Indonesian open weather, earthquake and warning data, reshaped into one typed API.

pub mod api;
pub mod earthquake;
pub mod json;
pub mod landing;
pub mod laws;
pub mod mcp;
pub mod nowcast;
pub mod number;
pub mod openapi;
pub mod parity;
pub mod router;
pub mod task;
pub mod text;
pub mod timeutil;
pub mod weather;
pub mod wilayah;
pub mod xml;
