//! The numeric codes of the protocol, as the kernel assigns them.
use vstd::prelude::*;

verus! {

/// Address family of IPv4.
pub const AF_INET: u8 = 2;

/// Address family of IPv6.
pub const AF_INET6: u8 = 10;

// Message types that every netlink family shares.
pub const NLMSG_NOOP: u16 = 1;

pub const NLMSG_ERROR: u16 = 2;

pub const NLMSG_DONE: u16 = 3;

// Header flags. Some bits have one meaning in a request and another in a
// reply, and some names stand for several bits.
pub const NLM_F_REQUEST: u16 = 1;

pub const NLM_F_MULTIPART: u16 = 2;

pub const NLM_F_ACK: u16 = 4;

pub const NLM_F_ECHO: u16 = 8;

pub const NLM_F_ROOT: u16 = 0x100;

pub const NLM_F_MATCH: u16 = 0x200;

pub const NLM_F_ATOMIC: u16 = 0x400;

pub const NLM_F_DUMP: u16 = 0x300;

// Routing message types.
pub const RTM_NEWLINK: u16 = 16;

pub const RTM_DELLINK: u16 = 17;

pub const RTM_GETLINK: u16 = 18;

pub const RTM_SETLINK: u16 = 19;

pub const RTM_NEWADDR: u16 = 20;

pub const RTM_DELADDR: u16 = 21;

pub const RTM_GETADDR: u16 = 22;

pub const RTM_NEWQDISC: u16 = 36;

pub const RTM_DELQDISC: u16 = 37;

pub const RTM_GETQDISC: u16 = 38;

pub const RTM_NEWTCLASS: u16 = 40;

pub const RTM_DELTCLASS: u16 = 41;

pub const RTM_GETTCLASS: u16 = 42;

pub const RTM_NEWTFILTER: u16 = 44;

pub const RTM_DELTFILTER: u16 = 45;

pub const RTM_GETTFILTER: u16 = 46;

// Kinds of the attributes of a traffic-control message.
pub const TCA_UNSPEC: u16 = 0;

pub const TCA_KIND: u16 = 1;

pub const TCA_OPTIONS: u16 = 2;

pub const TCA_STATS: u16 = 3;

pub const TCA_XSTATS: u16 = 4;

pub const TCA_RATE: u16 = 5;

pub const TCA_FCNT: u16 = 6;

pub const TCA_STATS2: u16 = 7;

pub const TCA_STAB: u16 = 8;

pub const TCA_HW_OFFLOAD: u16 = 12;

// Kinds of the attributes nested in `TCA_STATS2`.
pub const TCA_STATS_BASIC: u16 = 1;

pub const TCA_STATS_QUEUE: u16 = 3;

pub const TCA_STATS_APP: u16 = 4;

// Kinds of the extensions of a socket-diagnostics response.
pub const INET_DIAG_MEMINFO: u16 = 1;

pub const INET_DIAG_INFO: u16 = 2;

pub const INET_DIAG_VEGASINFO: u16 = 3;

pub const INET_DIAG_CONG: u16 = 4;

pub const INET_DIAG_TOS: u16 = 5;

pub const INET_DIAG_TCLASS: u16 = 6;

pub const INET_DIAG_SKMEMINFO: u16 = 7;

pub const INET_DIAG_SHUTDOWN: u16 = 8;

pub const INET_DIAG_PROTOCOL: u16 = 10;

pub const INET_DIAG_SKV6ONLY: u16 = 11;

pub const INET_DIAG_MARK: u16 = 15;

pub const INET_DIAG_CLASS_ID: u16 = 17;

/// The cookie of a socket id that names no socket.
pub const INET_DIAG_NOCOOKIE: u64 = 0xFFFF_FFFF_FFFF_FFFF;

/// Every TCP state bit.
pub const TCPF_ALL: u32 = 0xFFF;

pub const RCV_SHUTDOWN: u8 = 1;

pub const SEND_SHUTDOWN: u8 = 2;

pub const SHUTDOWN_MASK: u8 = 3;

} // verus!
