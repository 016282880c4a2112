//! Routing messages: links, addresses and traffic control.
pub mod address;
pub mod link;
pub mod message;
pub mod tc;
