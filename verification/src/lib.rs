//! A small Wikipedia search client library: the fixed parts of the one
//! search request, the reading of its JSON response, and the two output
//! renderings — colorless text and a JSON array — with their contracts.

pub mod chars;
pub mod client;
pub mod escape;
pub mod render;
pub mod response;
pub mod urls;
