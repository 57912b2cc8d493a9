//! Core of a chat client: typed messages, their binary wire codec, and the
//! non-blocking connection state machine that drains a websocket transport.

pub mod client;
pub mod codec;
pub mod messages;
pub mod model;
pub mod panels;
pub mod transport;
pub mod ui;
pub mod widgets;
