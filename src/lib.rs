//! Decoding of game replay files: the fixed header, the packetized event
//! stream with its chat messages, and the trailing results block.
pub mod parser;
pub mod results;
pub mod decode;
pub mod header;
pub mod json;
pub mod utils;
