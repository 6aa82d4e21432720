//! An active network-probing and metrics pipeline: probe correlation,
//! sample routing and windowed aggregation, stated and proved with Verus.

pub mod keyed;
pub mod sample;
pub mod config;
pub mod selector;
pub mod stats;
pub mod window;
pub mod aggregate;
pub mod pending;
pub mod packet;
pub mod probe;
pub mod graphite;
pub mod output;
