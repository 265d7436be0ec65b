//! Binary codec for the Atlas chat protocol: every message travels in one
//! fixed-size frame of `ATLAS_PACKET_SIZE` bytes.
pub mod wire;
pub mod packet;
pub mod reader;
pub mod laws;
