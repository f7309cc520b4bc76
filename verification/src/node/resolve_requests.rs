//! The protocol layer: request data types and parsing errors, response
//! encoding, the handler machinery, and the endpoint registry.

pub mod endpoints;
pub mod errors;
pub mod helpers;
pub mod methods;
