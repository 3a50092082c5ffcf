//! The verified core of a route guide service.
//!
//! The crate holds what the service decides: which feature answers a point,
//! which features lie in a rectangle, how a recorded route is summed up, which
//! notes a chat message brings back, how requests are spread over workers, and
//! how replies are shown to a browser. Sockets, tasks and files stay with the
//! program that links it.

pub mod chat;
pub mod data;
pub mod dispatch;
pub mod features;
pub mod geometry;
pub mod messages;
pub mod recorder;
pub mod server;
pub mod table;
pub mod text;
pub mod web;
