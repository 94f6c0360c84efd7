//! Generation and shrinking of test inputs: strategies describe a domain,
//! value trees hold one generated candidate and minimise it step by step.
//! Also holds an encoder for the HTTP chunked transfer coding.

pub mod bits;
pub mod collection;
pub mod containers;
pub mod encoder;
pub mod leaf;
pub mod map;
pub mod runner;
pub mod size_range;
pub mod strategy;
pub mod tuple;
