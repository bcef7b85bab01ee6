//! Configuration, settings and shared connection state of an HTTP/3 endpoint.
//!
//! A [`client::Builder`] collects a [`config::Config`]. From it come the SETTINGS frame, what is
//! written first on the control stream, and the options of requests. The connection and its
//! request streams work on a [`shared_state::SharedState`].

pub mod buffer;
pub mod client;
pub mod config;
pub mod control;
pub mod frame;
pub mod qpack;
mod random;
pub mod shared_state;
pub mod varint;
