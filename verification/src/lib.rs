//! Streaming access to variant records of a BCF container.
//!
//! The byte-level codec is an external decoding engine. This crate holds what
//! surrounds it: the classification of the engine's answers, the reader's
//! forward-only protocol, the binding of every record to the header it was
//! read under, and typed, on-demand access to INFO and FORMAT fields.

pub mod header;
pub mod outcome;
pub mod reader;
pub mod record;

pub use outcome::ReadError;
pub use outcome::ReadOutcome;
pub use reader::Reader;
pub use reader::Records;
