//! Socket diagnostics (`inet_diag`): the request that asks the kernel for
//! sockets, and the response that describes one.
pub mod addr;
pub mod attr;
pub mod buffer;
pub mod flags;
pub mod message;
