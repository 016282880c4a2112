//! The extensions of a socket-diagnostics response: the fixed blocks that the
//! kernel lays out field by field, and the attribute that carries one
//! extension.
use vstd::prelude::*;
use crate::byte_order::ByteOrder;
use crate::constants::{
    INET_DIAG_CLASS_ID, INET_DIAG_CONG, INET_DIAG_INFO, INET_DIAG_MARK, INET_DIAG_MEMINFO,
    INET_DIAG_PROTOCOL, INET_DIAG_SHUTDOWN, INET_DIAG_SKMEMINFO, INET_DIAG_SKV6ONLY,
    INET_DIAG_TCLASS, INET_DIAG_TOS, SHUTDOWN_MASK,
};
use crate::errors::DecodeError;
use crate::nla::{
    byte_of, parse_u32, parse_u8, word_of, Attribute, NlaBuffer, NlaParseModel, ParseableNla,
};
use crate::sock_diag::flags::Shutdown;
use crate::text::{parse_string, text_parse};

verus! {

/// Memory of a socket: receive queue, send queue, forward allocation and
/// backlog, each a 32-bit count in the order of the machine.
#[derive(Debug, Clone, Copy, PartialEq, Eq)]
pub struct MemInfo {
    pub rmem: u32,
    pub wmem: u32,
    pub fmem: u32,
    pub tmem: u32,
}

/// The number of bytes of the block.
pub const MEM_INFO_SIZE: usize = 16;

impl MemInfo {
    /// The block that the first 16 bytes of `b` hold, field by field.
    pub open spec fn at(b: Seq<u8>, order: ByteOrder) -> MemInfo {
        MemInfo {
            rmem: order.u32_from(b.subrange(0, 4)),
            wmem: order.u32_from(b.subrange(4, 8)),
            fmem: order.u32_from(b.subrange(8, 12)),
            tmem: order.u32_from(b.subrange(12, 16)),
        }
    }

    /// The block that `b` holds, or a length error when `b` is shorter than
    /// the block.
    pub open spec fn parse_spec(b: Seq<u8>, order: ByteOrder) -> Result<MemInfo, DecodeError> {
        if b.len() >= MEM_INFO_SIZE {
            Ok(MemInfo::at(b, order))
        } else {
            Err(DecodeError::Length { expected: MEM_INFO_SIZE, actual: b.len() as usize })
        }
    }

    /// Reads the block from the front of `data`. Bytes after it are ignored.
    pub fn parse(data: &[u8], order: ByteOrder) -> (r: Result<MemInfo, DecodeError>)
        ensures
            r == MemInfo::parse_spec(data@, order),
    {
        if data.len() < MEM_INFO_SIZE {
            return Err(DecodeError::Length { expected: MEM_INFO_SIZE, actual: data.len() });
        }
        Ok(
            MemInfo {
                rmem: order.read_u32(data, 0),
                wmem: order.read_u32(data, 4),
                fmem: order.read_u32(data, 8),
                tmem: order.read_u32(data, 12),
            },
        )
    }
}

/// The state of a TCP connection as the kernel reports it, each field at its
/// fixed place and in the order of the machine.
#[derive(Debug, Clone, Copy, PartialEq, Eq)]
pub struct TcpInfo {
    pub tcpi_state: u8,
    pub tcpi_ca_state: u8,
    pub tcpi_retransmits: u8,
    pub tcpi_probes: u8,
    pub tcpi_backoff: u8,
    pub tcpi_options: u8,
    pub tcpi_wscale: u8,
    pub tcpi_delivery_rate_app_limited: u8,
    pub tcpi_rto: u32,
    pub tcpi_ato: u32,
    pub tcpi_snd_mss: u32,
    pub tcpi_rcv_mss: u32,
    pub tcpi_unacked: u32,
    pub tcpi_sacked: u32,
    pub tcpi_lost: u32,
    pub tcpi_retrans: u32,
    pub tcpi_fackets: u32,
    pub tcpi_last_data_sent: u32,
    pub tcpi_last_ack_sent: u32,
    pub tcpi_last_data_recv: u32,
    pub tcpi_last_ack_recv: u32,
    pub tcpi_pmtu: u32,
    pub tcpi_rcv_ssthresh: u32,
    pub tcpi_rtt: u32,
    pub tcpi_rttvar: u32,
    pub tcpi_snd_ssthresh: u32,
    pub tcpi_snd_cwnd: u32,
    pub tcpi_advmss: u32,
    pub tcpi_reordering: u32,
    pub tcpi_rcv_rtt: u32,
    pub tcpi_rcv_space: u32,
    pub tcpi_total_retrans: u32,
    pub tcpi_pacing_rate: u64,
    pub tcpi_max_pacing_rate: u64,
    pub tcpi_bytes_acked: u64,
    pub tcpi_bytes_received: u64,
    pub tcpi_segs_out: u32,
    pub tcpi_segs_in: u32,
    pub tcpi_notsent_bytes: u32,
    pub tcpi_min_rtt: u32,
    pub tcpi_data_segs_in: u32,
    pub tcpi_data_segs_out: u32,
    pub tcpi_delivery_rate: u64,
    pub tcpi_busy_time: u64,
    pub tcpi_rwnd_limited: u64,
    pub tcpi_sndbuf_limited: u64,
    pub tcpi_delivered: u32,
    pub tcpi_delivered_ce: u32,
    pub tcpi_bytes_sent: u64,
    pub tcpi_bytes_retrans: u64,
    pub tcpi_dsack_dups: u32,
    pub tcpi_reord_seen: u32,
}

/// The number of bytes of the block.
pub const TCP_INFO_SIZE: usize = 224;

impl TcpInfo {
    /// The block that the first 224 bytes of `b` hold, field by field.
    pub open spec fn at(b: Seq<u8>, order: ByteOrder) -> TcpInfo {
        TcpInfo {
            tcpi_state: b[0],
            tcpi_ca_state: b[1],
            tcpi_retransmits: b[2],
            tcpi_probes: b[3],
            tcpi_backoff: b[4],
            tcpi_options: b[5],
            tcpi_wscale: b[6],
            tcpi_delivery_rate_app_limited: b[7],
            tcpi_rto: order.u32_from(b.subrange(8, 12)),
            tcpi_ato: order.u32_from(b.subrange(12, 16)),
            tcpi_snd_mss: order.u32_from(b.subrange(16, 20)),
            tcpi_rcv_mss: order.u32_from(b.subrange(20, 24)),
            tcpi_unacked: order.u32_from(b.subrange(24, 28)),
            tcpi_sacked: order.u32_from(b.subrange(28, 32)),
            tcpi_lost: order.u32_from(b.subrange(32, 36)),
            tcpi_retrans: order.u32_from(b.subrange(36, 40)),
            tcpi_fackets: order.u32_from(b.subrange(40, 44)),
            tcpi_last_data_sent: order.u32_from(b.subrange(44, 48)),
            tcpi_last_ack_sent: order.u32_from(b.subrange(48, 52)),
            tcpi_last_data_recv: order.u32_from(b.subrange(52, 56)),
            tcpi_last_ack_recv: order.u32_from(b.subrange(56, 60)),
            tcpi_pmtu: order.u32_from(b.subrange(60, 64)),
            tcpi_rcv_ssthresh: order.u32_from(b.subrange(64, 68)),
            tcpi_rtt: order.u32_from(b.subrange(68, 72)),
            tcpi_rttvar: order.u32_from(b.subrange(72, 76)),
            tcpi_snd_ssthresh: order.u32_from(b.subrange(76, 80)),
            tcpi_snd_cwnd: order.u32_from(b.subrange(80, 84)),
            tcpi_advmss: order.u32_from(b.subrange(84, 88)),
            tcpi_reordering: order.u32_from(b.subrange(88, 92)),
            tcpi_rcv_rtt: order.u32_from(b.subrange(92, 96)),
            tcpi_rcv_space: order.u32_from(b.subrange(96, 100)),
            tcpi_total_retrans: order.u32_from(b.subrange(100, 104)),
            tcpi_pacing_rate: order.u64_from(b.subrange(104, 112)),
            tcpi_max_pacing_rate: order.u64_from(b.subrange(112, 120)),
            tcpi_bytes_acked: order.u64_from(b.subrange(120, 128)),
            tcpi_bytes_received: order.u64_from(b.subrange(128, 136)),
            tcpi_segs_out: order.u32_from(b.subrange(136, 140)),
            tcpi_segs_in: order.u32_from(b.subrange(140, 144)),
            tcpi_notsent_bytes: order.u32_from(b.subrange(144, 148)),
            tcpi_min_rtt: order.u32_from(b.subrange(148, 152)),
            tcpi_data_segs_in: order.u32_from(b.subrange(152, 156)),
            tcpi_data_segs_out: order.u32_from(b.subrange(156, 160)),
            tcpi_delivery_rate: order.u64_from(b.subrange(160, 168)),
            tcpi_busy_time: order.u64_from(b.subrange(168, 176)),
            tcpi_rwnd_limited: order.u64_from(b.subrange(176, 184)),
            tcpi_sndbuf_limited: order.u64_from(b.subrange(184, 192)),
            tcpi_delivered: order.u32_from(b.subrange(192, 196)),
            tcpi_delivered_ce: order.u32_from(b.subrange(196, 200)),
            tcpi_bytes_sent: order.u64_from(b.subrange(200, 208)),
            tcpi_bytes_retrans: order.u64_from(b.subrange(208, 216)),
            tcpi_dsack_dups: order.u32_from(b.subrange(216, 220)),
            tcpi_reord_seen: order.u32_from(b.subrange(220, 224)),
        }
    }

    /// The block that `b` holds, or a length error when `b` is shorter than
    /// the block.
    pub open spec fn parse_spec(b: Seq<u8>, order: ByteOrder) -> Result<TcpInfo, DecodeError> {
        if b.len() >= TCP_INFO_SIZE {
            Ok(TcpInfo::at(b, order))
        } else {
            Err(DecodeError::Length { expected: TCP_INFO_SIZE, actual: b.len() as usize })
        }
    }

    /// Reads the block from the front of `data`. Bytes after it are ignored.
    pub fn parse(data: &[u8], order: ByteOrder) -> (r: Result<TcpInfo, DecodeError>)
        ensures
            r == TcpInfo::parse_spec(data@, order),
    {
        if data.len() < TCP_INFO_SIZE {
            return Err(DecodeError::Length { expected: TCP_INFO_SIZE, actual: data.len() });
        }
        Ok(
            TcpInfo {
                tcpi_state: data[0],
                tcpi_ca_state: data[1],
                tcpi_retransmits: data[2],
                tcpi_probes: data[3],
                tcpi_backoff: data[4],
                tcpi_options: data[5],
                tcpi_wscale: data[6],
                tcpi_delivery_rate_app_limited: data[7],
                tcpi_rto: order.read_u32(data, 8),
                tcpi_ato: order.read_u32(data, 12),
                tcpi_snd_mss: order.read_u32(data, 16),
                tcpi_rcv_mss: order.read_u32(data, 20),
                tcpi_unacked: order.read_u32(data, 24),
                tcpi_sacked: order.read_u32(data, 28),
                tcpi_lost: order.read_u32(data, 32),
                tcpi_retrans: order.read_u32(data, 36),
                tcpi_fackets: order.read_u32(data, 40),
                tcpi_last_data_sent: order.read_u32(data, 44),
                tcpi_last_ack_sent: order.read_u32(data, 48),
                tcpi_last_data_recv: order.read_u32(data, 52),
                tcpi_last_ack_recv: order.read_u32(data, 56),
                tcpi_pmtu: order.read_u32(data, 60),
                tcpi_rcv_ssthresh: order.read_u32(data, 64),
                tcpi_rtt: order.read_u32(data, 68),
                tcpi_rttvar: order.read_u32(data, 72),
                tcpi_snd_ssthresh: order.read_u32(data, 76),
                tcpi_snd_cwnd: order.read_u32(data, 80),
                tcpi_advmss: order.read_u32(data, 84),
                tcpi_reordering: order.read_u32(data, 88),
                tcpi_rcv_rtt: order.read_u32(data, 92),
                tcpi_rcv_space: order.read_u32(data, 96),
                tcpi_total_retrans: order.read_u32(data, 100),
                tcpi_pacing_rate: order.read_u64(data, 104),
                tcpi_max_pacing_rate: order.read_u64(data, 112),
                tcpi_bytes_acked: order.read_u64(data, 120),
                tcpi_bytes_received: order.read_u64(data, 128),
                tcpi_segs_out: order.read_u32(data, 136),
                tcpi_segs_in: order.read_u32(data, 140),
                tcpi_notsent_bytes: order.read_u32(data, 144),
                tcpi_min_rtt: order.read_u32(data, 148),
                tcpi_data_segs_in: order.read_u32(data, 152),
                tcpi_data_segs_out: order.read_u32(data, 156),
                tcpi_delivery_rate: order.read_u64(data, 160),
                tcpi_busy_time: order.read_u64(data, 168),
                tcpi_rwnd_limited: order.read_u64(data, 176),
                tcpi_sndbuf_limited: order.read_u64(data, 184),
                tcpi_delivered: order.read_u32(data, 192),
                tcpi_delivered_ce: order.read_u32(data, 196),
                tcpi_bytes_sent: order.read_u64(data, 200),
                tcpi_bytes_retrans: order.read_u64(data, 208),
                tcpi_dsack_dups: order.read_u32(data, 216),
                tcpi_reord_seen: order.read_u32(data, 220),
            },
        )
    }
}

/// Memory of a socket in detail, nine 32-bit counts in the order of the
/// machine.
#[derive(Debug, Clone, Copy, PartialEq, Eq)]
pub struct SkMemInfo {
    pub rmem_alloc: u32,
    pub recvbuf: u32,
    pub wmem_alloc: u32,
    pub sndbuf: u32,
    pub fwd_alloc: u32,
    pub wmem_queued: u32,
    pub optmem: u32,
    pub backlog: u32,
    pub drops: u32,
}

/// The number of bytes of the block.
pub const SK_MEM_INFO_SIZE: usize = 36;

impl SkMemInfo {
    /// The block that the first 36 bytes of `b` hold, field by field.
    pub open spec fn at(b: Seq<u8>, order: ByteOrder) -> SkMemInfo {
        SkMemInfo {
            rmem_alloc: order.u32_from(b.subrange(0, 4)),
            recvbuf: order.u32_from(b.subrange(4, 8)),
            wmem_alloc: order.u32_from(b.subrange(8, 12)),
            sndbuf: order.u32_from(b.subrange(12, 16)),
            fwd_alloc: order.u32_from(b.subrange(16, 20)),
            wmem_queued: order.u32_from(b.subrange(20, 24)),
            optmem: order.u32_from(b.subrange(24, 28)),
            backlog: order.u32_from(b.subrange(28, 32)),
            drops: order.u32_from(b.subrange(32, 36)),
        }
    }

    /// The block that `b` holds, or a length error when `b` is shorter than
    /// the block.
    pub open spec fn parse_spec(b: Seq<u8>, order: ByteOrder) -> Result<SkMemInfo, DecodeError> {
        if b.len() >= SK_MEM_INFO_SIZE {
            Ok(SkMemInfo::at(b, order))
        } else {
            Err(DecodeError::Length { expected: SK_MEM_INFO_SIZE, actual: b.len() as usize })
        }
    }

    /// Reads the block from the front of `data`. Bytes after it are ignored.
    pub fn parse(data: &[u8], order: ByteOrder) -> (r: Result<SkMemInfo, DecodeError>)
        ensures
            r == SkMemInfo::parse_spec(data@, order),
    {
        if data.len() < SK_MEM_INFO_SIZE {
            return Err(DecodeError::Length { expected: SK_MEM_INFO_SIZE, actual: data.len() });
        }
        Ok(
            SkMemInfo {
                rmem_alloc: order.read_u32(data, 0),
                recvbuf: order.read_u32(data, 4),
                wmem_alloc: order.read_u32(data, 8),
                sndbuf: order.read_u32(data, 12),
                fwd_alloc: order.read_u32(data, 16),
                wmem_queued: order.read_u32(data, 20),
                optmem: order.read_u32(data, 24),
                backlog: order.read_u32(data, 28),
                drops: order.read_u32(data, 32),
            },
        )
    }
}

/// One extension of a response.
#[derive(Debug, Clone, PartialEq, Eq)]
pub enum InetDiagAttr {
    MemInfo(MemInfo),
    Info(TcpInfo),
    /// The name of the congestion-control algorithm.
    Conf(String),
    Tos(u8),
    TClass(u8),
    SkMemInfo(SkMemInfo),
    Shutdown(Shutdown),
    Protocol(u8),
    SkV6Only(bool),
    Mark(u32),
    ClassId(u32),
    /// An extension of a kind that is not known: the kind and the raw bytes.
    Other(u16, Vec<u8>),
}

/// The model of an extension.
pub enum InetDiagAttrView {
    MemInfo(MemInfo),
    Info(TcpInfo),
    Conf(Seq<char>),
    Tos(u8),
    TClass(u8),
    SkMemInfo(SkMemInfo),
    Shutdown(Shutdown),
    Protocol(u8),
    SkV6Only(bool),
    Mark(u32),
    ClassId(u32),
    Other(u16, Seq<u8>),
}

impl View for InetDiagAttr {
    type V = InetDiagAttrView;

    open spec fn view(&self) -> InetDiagAttrView {
        match self {
            InetDiagAttr::MemInfo(x) => InetDiagAttrView::MemInfo(*x),
            InetDiagAttr::Info(x) => InetDiagAttrView::Info(*x),
            InetDiagAttr::Conf(x) => InetDiagAttrView::Conf(x@),
            InetDiagAttr::Tos(x) => InetDiagAttrView::Tos(*x),
            InetDiagAttr::TClass(x) => InetDiagAttrView::TClass(*x),
            InetDiagAttr::SkMemInfo(x) => InetDiagAttrView::SkMemInfo(*x),
            InetDiagAttr::Shutdown(x) => InetDiagAttrView::Shutdown(*x),
            InetDiagAttr::Protocol(x) => InetDiagAttrView::Protocol(*x),
            InetDiagAttr::SkV6Only(x) => InetDiagAttrView::SkV6Only(*x),
            InetDiagAttr::Mark(x) => InetDiagAttrView::Mark(*x),
            InetDiagAttr::ClassId(x) => InetDiagAttrView::ClassId(*x),
            InetDiagAttr::Other(kind, value) => InetDiagAttrView::Other(*kind, value@),
        }
    }
}

impl InetDiagAttrView {
    /// The extension that a payload of the given kind holds. A known kind
    /// whose payload is too short for it, or whose text is malformed, is an
    /// error; a kind that is not known keeps its bytes.
    pub open spec fn parse_spec(kind: u16, payload: Seq<u8>, order: ByteOrder) -> Result<
        InetDiagAttrView,
        DecodeError,
    > {
        if kind == INET_DIAG_MEMINFO {
            match MemInfo::parse_spec(payload, order) {
                Ok(x) => Ok(InetDiagAttrView::MemInfo(x)),
                Err(e) => Err(e),
            }
        } else if kind == INET_DIAG_INFO {
            match TcpInfo::parse_spec(payload, order) {
                Ok(x) => Ok(InetDiagAttrView::Info(x)),
                Err(e) => Err(e),
            }
        } else if kind == INET_DIAG_CONG {
            match text_parse(payload) {
                Ok(x) => Ok(InetDiagAttrView::Conf(x)),
                Err(e) => Err(e),
            }
        } else if kind == INET_DIAG_TOS {
            match byte_of(payload) {
                Ok(x) => Ok(InetDiagAttrView::Tos(x)),
                Err(e) => Err(e),
            }
        } else if kind == INET_DIAG_TCLASS {
            match byte_of(payload) {
                Ok(x) => Ok(InetDiagAttrView::TClass(x)),
                Err(e) => Err(e),
            }
        } else if kind == INET_DIAG_SKMEMINFO {
            match SkMemInfo::parse_spec(payload, order) {
                Ok(x) => Ok(InetDiagAttrView::SkMemInfo(x)),
                Err(e) => Err(e),
            }
        } else if kind == INET_DIAG_SHUTDOWN {
            match byte_of(payload) {
                Ok(x) => Ok(InetDiagAttrView::Shutdown(Shutdown { bits: x & SHUTDOWN_MASK })),
                Err(e) => Err(e),
            }
        } else if kind == INET_DIAG_PROTOCOL {
            match byte_of(payload) {
                Ok(x) => Ok(InetDiagAttrView::Protocol(x)),
                Err(e) => Err(e),
            }
        } else if kind == INET_DIAG_SKV6ONLY {
            match byte_of(payload) {
                Ok(x) => Ok(InetDiagAttrView::SkV6Only(x != 0)),
                Err(e) => Err(e),
            }
        } else if kind == INET_DIAG_MARK {
            match word_of(payload, order) {
                Ok(x) => Ok(InetDiagAttrView::Mark(x)),
                Err(e) => Err(e),
            }
        } else if kind == INET_DIAG_CLASS_ID {
            match word_of(payload, order) {
                Ok(x) => Ok(InetDiagAttrView::ClassId(x)),
                Err(e) => Err(e),
            }
        } else {
            Ok(InetDiagAttrView::Other(kind, payload))
        }
    }
}

/// Whether `kind` is one that an extension is read by.
pub open spec fn is_known_extension(kind: u16) -> bool {
    kind == INET_DIAG_MEMINFO || kind == INET_DIAG_INFO || kind == INET_DIAG_CONG || kind
        == INET_DIAG_TOS || kind == INET_DIAG_TCLASS || kind == INET_DIAG_SKMEMINFO || kind
        == INET_DIAG_SHUTDOWN || kind == INET_DIAG_PROTOCOL || kind == INET_DIAG_SKV6ONLY || kind
        == INET_DIAG_MARK || kind == INET_DIAG_CLASS_ID
}

/// An extension of a kind that is not known is kept as it came: the kind
/// and every byte of the payload, whatever they are.
pub proof fn lemma_unknown_extension_is_kept(kind: u16, payload: Seq<u8>, order: ByteOrder)
    requires
        !is_known_extension(kind),
    ensures
        InetDiagAttrView::parse_spec(kind, payload, order) == Ok::<InetDiagAttrView, DecodeError>(
            InetDiagAttrView::Other(kind, payload),
        ),
{
}

impl NlaParseModel for InetDiagAttrView {
    open spec fn parse(a: Attribute, order: ByteOrder) -> Result<Self, DecodeError> {
        InetDiagAttrView::parse_spec(a.kind, a.value, order)
    }
}

impl InetDiagAttr {
    /// Reads the extension of kind `ty` from its payload.
    pub fn parse(ty: u16, payload: &[u8], order: ByteOrder) -> (r: Result<Self, DecodeError>)
        ensures
            crate::nla::parsed_view(r) == InetDiagAttrView::parse_spec(ty, payload@, order),
    {
        if ty == INET_DIAG_MEMINFO {
            match MemInfo::parse(payload, order) {
                Ok(x) => Ok(InetDiagAttr::MemInfo(x)),
                Err(e) => Err(e),
            }
        } else if ty == INET_DIAG_INFO {
            match TcpInfo::parse(payload, order) {
                Ok(x) => Ok(InetDiagAttr::Info(x)),
                Err(e) => Err(e),
            }
        } else if ty == INET_DIAG_CONG {
            match parse_string(payload) {
                Ok(x) => Ok(InetDiagAttr::Conf(x)),
                Err(e) => Err(e),
            }
        } else if ty == INET_DIAG_TOS {
            match parse_u8(payload) {
                Ok(x) => Ok(InetDiagAttr::Tos(x)),
                Err(e) => Err(e),
            }
        } else if ty == INET_DIAG_TCLASS {
            match parse_u8(payload) {
                Ok(x) => Ok(InetDiagAttr::TClass(x)),
                Err(e) => Err(e),
            }
        } else if ty == INET_DIAG_SKMEMINFO {
            match SkMemInfo::parse(payload, order) {
                Ok(x) => Ok(InetDiagAttr::SkMemInfo(x)),
                Err(e) => Err(e),
            }
        } else if ty == INET_DIAG_SHUTDOWN {
            match parse_u8(payload) {
                Ok(x) => Ok(InetDiagAttr::Shutdown(Shutdown::from_bits_truncate(x))),
                Err(e) => Err(e),
            }
        } else if ty == INET_DIAG_PROTOCOL {
            match parse_u8(payload) {
                Ok(x) => Ok(InetDiagAttr::Protocol(x)),
                Err(e) => Err(e),
            }
        } else if ty == INET_DIAG_SKV6ONLY {
            match parse_u8(payload) {
                Ok(x) => Ok(InetDiagAttr::SkV6Only(x != 0)),
                Err(e) => Err(e),
            }
        } else if ty == INET_DIAG_MARK {
            match parse_u32(payload, order) {
                Ok(x) => Ok(InetDiagAttr::Mark(x)),
                Err(e) => Err(e),
            }
        } else if ty == INET_DIAG_CLASS_ID {
            match parse_u32(payload, order) {
                Ok(x) => Ok(InetDiagAttr::ClassId(x)),
                Err(e) => Err(e),
            }
        } else {
            Ok(InetDiagAttr::Other(ty, vstd::slice::slice_to_vec(payload)))
        }
    }
}

impl ParseableNla for InetDiagAttr {
    fn parse(nla: &NlaBuffer<'_>, order: ByteOrder) -> (r: Result<Self, DecodeError>) {
        InetDiagAttr::parse(nla.kind, nla.value, order)
    }
}

} // verus!
