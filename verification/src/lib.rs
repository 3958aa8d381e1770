//! Builds the Network Information Table of a DVB network from a declarative
//! description of its multiplexes and plans its paced, repeating transmission.

pub mod config;
pub mod descriptor;
pub mod error;
pub mod misc;
pub mod model;
pub mod order;
pub mod output;
pub mod pacing;
pub mod source;
pub mod table;
pub mod text;
