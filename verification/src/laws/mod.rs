//! What can be relied on, stated over what goes in and what comes out.
//!
//! Nothing here runs. Each law says what an operation does for every input, in terms of its
//! inputs and results.

pub mod forecasts;
pub mod quakes;
pub mod regions;
pub mod replies;
pub mod responses;
pub mod routes;
pub mod texts;
pub mod tools;
pub mod warnings;
