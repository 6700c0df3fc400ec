//! ISO-TP (ISO 15765-2) segmentation and reassembly over 8-byte CAN frames,
//! with a thin UDS framing on top.
//!
//! The transport engine is written as explicit state machines: a caller that
//! owns the bus performs the reads, writes and pauses that the machines ask
//! for and reports back what happened.

pub mod cansocket;
pub mod segment;
pub mod isotp;
pub mod transfer;
pub mod segmentation;
pub mod uds;
