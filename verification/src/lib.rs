//! Verified core of a Tabularis database driver for libSQL: connection
//! target resolution, SQL text builders and classification, the Hrana wire
//! format, and the JSON shapes the host expects back.

pub mod client;
pub mod error;
pub mod handlers;
pub mod hrana;
pub mod json;
pub mod models;
pub mod rpc;
pub mod utils;
