//! Verified core of a collection of asynchronous networking examples:
//! line framing over byte buffers, stream and future state machines,
//! and the bookkeeping that the examples' tasks perform.

pub mod lines_codec;
pub mod clock;
pub mod text;
pub mod waiting;
pub mod streams;
pub mod backend;
pub mod exact_io;
pub mod slots;
pub mod listen;
pub mod basics;
pub mod requests;
