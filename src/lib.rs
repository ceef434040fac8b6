//! A drive sanitization engine: a catalog of storage volumes, a safety
//! classifier that protects the system volume, and a bounded three-pass
//! overwrite protocol driven as a state machine by the caller's I/O loop.

pub mod catalog;
pub mod volume;
pub mod safety;
pub mod pattern;
pub mod engine;
pub mod text;
pub mod run;
