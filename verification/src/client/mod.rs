//! HTTP/3 client.

pub mod builder;

pub use builder::{builder, Builder};
