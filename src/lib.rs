//! A protocol engine for a daisy-chained bus of addressable serial servos:
//! frame encoding and decoding, stream resynchronisation and the packing of
//! command parameters.

pub mod bytes;
pub mod frame;
pub mod commands;
pub mod reader;
