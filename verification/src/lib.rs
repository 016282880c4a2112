//! Codec for the Linux netlink wire protocol: routing messages (links,
//! addresses, traffic control) and socket diagnostics (`inet_diag`).
//!
//! Every structure has a mathematical model (its view), a `wire` function that
//! gives its byte representation and a `parse` specification; the executable
//! functions are proved against them. Integers that the kernel lays out in the
//! order of the machine are read and written in an order that the caller
//! names, which `ByteOrder::native` finds for the machine at hand.
pub mod byte_order;
pub mod constants;
pub mod errors;
pub mod netlink;
pub mod nla;
pub mod rtnl;
pub mod sock_diag;
pub mod text;

pub use crate::byte_order::ByteOrder;
pub use crate::errors::DecodeError;
pub use crate::netlink::{
    ErrorMessage, NetlinkFlags, NetlinkHeader, NetlinkMessage, NetlinkPayload,
};
pub use crate::nla::{DefaultNla, Nla, NlaBuffer, NlasIterator, ParseableNla};
pub use crate::rtnl::address::{AddressHeader, AddressMessage};
pub use crate::rtnl::link::{LinkHeader, LinkMessage};
pub use crate::rtnl::message::RtnlMessage;
pub use crate::rtnl::tc::{
    TcHeader, TcMessage, TcNla, TcStats, TcStats2Nla, TcStatsBasic, TcStatsQueue,
};
