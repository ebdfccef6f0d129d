//! A client library for the Source-Engine server query protocol: request
//! encoding, split-packet reassembly, response parsing, the gathering state
//! machine and the mapping into a simplified response.
pub mod types;
pub mod bytes;
pub mod parse;
pub mod request;
pub mod split;
pub mod retry;
pub mod gather;
pub mod game;
