//! Traffic control: the statistics blocks of a queueing discipline, the
//! attributes of a traffic-control message, and the message itself.
use vstd::prelude::*;
use vstd::utf8::encode_utf8;
use crate::byte_order::{
    lemma_u32_round_trip, lemma_u64_round_trip, zeros, ByteOrder,
};
use crate::constants::{
    TCA_FCNT, TCA_HW_OFFLOAD, TCA_KIND, TCA_OPTIONS, TCA_RATE, TCA_STAB, TCA_STATS, TCA_STATS2,
    TCA_STATS_APP, TCA_STATS_BASIC, TCA_STATS_QUEUE, TCA_UNSPEC, TCA_XSTATS,
};
use crate::errors::DecodeError;
use crate::nla::{
    byte_of, copy_bytes, emit_nlas, ends_clean, lemma_nlas_round_trip, lemma_nlas_wire_len,
    nlas_buffer_len, nlas_canonical, nlas_checked_len, nlas_fit, nlas_parse, nlas_wire,
    nlas_wire_len, parse_nlas, parse_u8, parsed_view, views, Attribute, DefaultNla, Nla,
    NlaBuffer, NlaModel, NlaParseModel, NlaRoundTrip, ParseableNla, NLA_MAX_VALUE_LEN,
};
use crate::text::{lemma_text_round_trip, parse_string, text_parse, text_wire};

verus! {

/// Generic queue statistics.
#[derive(Debug, Clone, Copy, PartialEq, Eq)]
pub struct TcStats {
    pub bytes: u64,
    pub packets: u32,
    pub drops: u32,
    pub overlimits: u32,
    pub bps: u32,
    pub pps: u32,
    pub qlen: u32,
    pub backlog: u32,
}

/// The number of bytes of the block.
pub const TC_STATS_SIZE: usize = 40;

impl TcStats {
    /// The block that the first 40 bytes of `b` hold, field by field.
    pub open spec fn at(b: Seq<u8>, order: ByteOrder) -> TcStats {
        TcStats {
            bytes: order.u64_from(b.subrange(0, 8)),
            packets: order.u32_from(b.subrange(8, 12)),
            drops: order.u32_from(b.subrange(12, 16)),
            overlimits: order.u32_from(b.subrange(16, 20)),
            bps: order.u32_from(b.subrange(20, 24)),
            pps: order.u32_from(b.subrange(24, 28)),
            qlen: order.u32_from(b.subrange(28, 32)),
            backlog: order.u32_from(b.subrange(32, 36)),
        }
    }

    /// The block that `b` holds, or a length error when `b` is shorter than
    /// the block.
    pub open spec fn parse_spec(b: Seq<u8>, order: ByteOrder) -> Result<TcStats, DecodeError> {
        if b.len() >= TC_STATS_SIZE {
            Ok(TcStats::at(b, order))
        } else {
            Err(DecodeError::Length { expected: TC_STATS_SIZE, actual: b.len() as usize })
        }
    }

    /// The 40 bytes of the block. Bytes that no field covers are zero.
    pub open spec fn wire(self, order: ByteOrder) -> Seq<u8> {
        order.u64_bytes(self.bytes)
            + order.u32_bytes(self.packets)
            + order.u32_bytes(self.drops)
            + order.u32_bytes(self.overlimits)
            + order.u32_bytes(self.bps)
            + order.u32_bytes(self.pps)
            + order.u32_bytes(self.qlen)
            + order.u32_bytes(self.backlog)
            + zeros(4)
    }

    /// Reads the block from the front of `data`. Bytes after it are ignored.
    pub fn from_bytes(data: &[u8], order: ByteOrder) -> (r: Result<TcStats, DecodeError>)
        ensures
            r == TcStats::parse_spec(data@, order),
    {
        if data.len() < TC_STATS_SIZE {
            return Err(DecodeError::Length { expected: TC_STATS_SIZE, actual: data.len() });
        }
        Ok(
            TcStats {
                bytes: order.read_u64(data, 0),
                packets: order.read_u32(data, 8),
                drops: order.read_u32(data, 12),
                overlimits: order.read_u32(data, 16),
                bps: order.read_u32(data, 20),
                pps: order.read_u32(data, 24),
                qlen: order.read_u32(data, 28),
                backlog: order.read_u32(data, 32),
            },
        )
    }

    /// Writes the block into a buffer of exactly its size.
    pub fn to_bytes(&self, buffer: &mut [u8], order: ByteOrder)
        requires
            old(buffer).len() == TC_STATS_SIZE,
        ensures
            final(buffer)@ == self.wire(order),
    {
        order.write_u64(buffer, 0, self.bytes);
        order.write_u32(buffer, 8, self.packets);
        order.write_u32(buffer, 12, self.drops);
        order.write_u32(buffer, 16, self.overlimits);
        assert(buffer@.subrange(0, 20) =~= order.u64_bytes(self.bytes) + order.u32_bytes(
            self.packets,
        ) + order.u32_bytes(self.drops) + order.u32_bytes(self.overlimits));
        let ghost head = buffer@.subrange(0, 20);
        order.write_u32(buffer, 20, self.bps);
        order.write_u32(buffer, 24, self.pps);
        order.write_u32(buffer, 28, self.qlen);
        order.write_u32(buffer, 32, self.backlog);
        buffer[36] = 0;
        buffer[37] = 0;
        buffer[38] = 0;
        buffer[39] = 0;
        assert(buffer@ =~= head + order.u32_bytes(self.bps) + order.u32_bytes(self.pps)
            + order.u32_bytes(self.qlen) + order.u32_bytes(self.backlog) + zeros(4));
        assert(buffer@ =~= self.wire(order));
    }

    /// The block takes 40 bytes, and reading what was written gives the
    /// value back, whatever follows it.
    #[verifier::rlimit(80)]
    pub proof fn lemma_round_trip(self, order: ByteOrder, tail: Seq<u8>)
        ensures
            self.wire(order).len() == TC_STATS_SIZE,
            TcStats::at(self.wire(order) + tail, order) == self,
            TcStats::parse_spec(self.wire(order) + tail, order) == Ok::<TcStats, DecodeError>(self),
    {
        let b = self.wire(order) + tail;
        lemma_u64_round_trip(order, self.bytes);
        lemma_u32_round_trip(order, self.packets);
        lemma_u32_round_trip(order, self.drops);
        lemma_u32_round_trip(order, self.overlimits);
        lemma_u32_round_trip(order, self.bps);
        lemma_u32_round_trip(order, self.pps);
        lemma_u32_round_trip(order, self.qlen);
        lemma_u32_round_trip(order, self.backlog);
        assert(b.subrange(0, 8) =~= order.u64_bytes(self.bytes));
        assert(b.subrange(8, 12) =~= order.u32_bytes(self.packets));
        assert(b.subrange(12, 16) =~= order.u32_bytes(self.drops));
        assert(b.subrange(16, 20) =~= order.u32_bytes(self.overlimits));
        assert(b.subrange(20, 24) =~= order.u32_bytes(self.bps));
        assert(b.subrange(24, 28) =~= order.u32_bytes(self.pps));
        assert(b.subrange(28, 32) =~= order.u32_bytes(self.qlen));
        assert(b.subrange(32, 36) =~= order.u32_bytes(self.backlog));
    }
}

/// Byte and packet throughput.
#[derive(Debug, Clone, Copy, PartialEq, Eq)]
pub struct TcStatsBasic {
    pub bytes: u64,
    pub packets: u32,
}

/// The number of bytes of the block.
pub const TC_STATS_BASIC_SIZE: usize = 16;

impl TcStatsBasic {
    /// The block that the first 16 bytes of `b` hold, field by field.
    pub open spec fn at(b: Seq<u8>, order: ByteOrder) -> TcStatsBasic {
        TcStatsBasic {
            bytes: order.u64_from(b.subrange(0, 8)),
            packets: order.u32_from(b.subrange(8, 12)),
        }
    }

    /// The block that `b` holds, or a length error when `b` is shorter than
    /// the block.
    pub open spec fn parse_spec(b: Seq<u8>, order: ByteOrder) -> Result<TcStatsBasic, DecodeError> {
        if b.len() >= TC_STATS_BASIC_SIZE {
            Ok(TcStatsBasic::at(b, order))
        } else {
            Err(DecodeError::Length { expected: TC_STATS_BASIC_SIZE, actual: b.len() as usize })
        }
    }

    /// The 16 bytes of the block. Bytes that no field covers are zero.
    pub open spec fn wire(self, order: ByteOrder) -> Seq<u8> {
        order.u64_bytes(self.bytes)
            + order.u32_bytes(self.packets)
            + zeros(4)
    }

    /// Reads the block from the front of `data`. Bytes after it are ignored.
    pub fn from_bytes(data: &[u8], order: ByteOrder) -> (r: Result<TcStatsBasic, DecodeError>)
        ensures
            r == TcStatsBasic::parse_spec(data@, order),
    {
        if data.len() < TC_STATS_BASIC_SIZE {
            return Err(DecodeError::Length { expected: TC_STATS_BASIC_SIZE, actual: data.len() });
        }
        Ok(
            TcStatsBasic {
                bytes: order.read_u64(data, 0),
                packets: order.read_u32(data, 8),
            },
        )
    }

    /// Writes the block into a buffer of exactly its size.
    pub fn to_bytes(&self, buffer: &mut [u8], order: ByteOrder)
        requires
            old(buffer).len() == TC_STATS_BASIC_SIZE,
        ensures
            final(buffer)@ == self.wire(order),
    {
        order.write_u64(buffer, 0, self.bytes);
        order.write_u32(buffer, 8, self.packets);
        buffer[12] = 0;
        buffer[13] = 0;
        buffer[14] = 0;
        buffer[15] = 0;
        assert(buffer@ =~= self.wire(order));
    }

    /// The block takes 16 bytes, and reading what was written gives the
    /// value back, whatever follows it.
    pub proof fn lemma_round_trip(self, order: ByteOrder, tail: Seq<u8>)
        ensures
            self.wire(order).len() == TC_STATS_BASIC_SIZE,
            TcStatsBasic::at(self.wire(order) + tail, order) == self,
            TcStatsBasic::parse_spec(self.wire(order) + tail, order) == Ok::<
                TcStatsBasic,
                DecodeError,
            >(self),
    {
        let b = self.wire(order) + tail;
        lemma_u64_round_trip(order, self.bytes);
        lemma_u32_round_trip(order, self.packets);
        assert(b.subrange(0, 8) =~= order.u64_bytes(self.bytes));
        assert(b.subrange(8, 12) =~= order.u32_bytes(self.packets));
    }
}

/// Queueing statistics.
#[derive(Debug, Clone, Copy, PartialEq, Eq)]
pub struct TcStatsQueue {
    pub qlen: u32,
    pub backlog: u32,
    pub drops: u32,
    pub requeues: u32,
    pub overlimits: u32,
}

/// The number of bytes of the block.
pub const TC_STATS_QUEUE_SIZE: usize = 20;

impl TcStatsQueue {
    /// The block that the first 20 bytes of `b` hold, field by field.
    pub open spec fn at(b: Seq<u8>, order: ByteOrder) -> TcStatsQueue {
        TcStatsQueue {
            qlen: order.u32_from(b.subrange(0, 4)),
            backlog: order.u32_from(b.subrange(4, 8)),
            drops: order.u32_from(b.subrange(8, 12)),
            requeues: order.u32_from(b.subrange(12, 16)),
            overlimits: order.u32_from(b.subrange(16, 20)),
        }
    }

    /// The block that `b` holds, or a length error when `b` is shorter than
    /// the block.
    pub open spec fn parse_spec(b: Seq<u8>, order: ByteOrder) -> Result<TcStatsQueue, DecodeError> {
        if b.len() >= TC_STATS_QUEUE_SIZE {
            Ok(TcStatsQueue::at(b, order))
        } else {
            Err(DecodeError::Length { expected: TC_STATS_QUEUE_SIZE, actual: b.len() as usize })
        }
    }

    /// The 20 bytes of the block. Bytes that no field covers are zero.
    pub open spec fn wire(self, order: ByteOrder) -> Seq<u8> {
        order.u32_bytes(self.qlen)
            + order.u32_bytes(self.backlog)
            + order.u32_bytes(self.drops)
            + order.u32_bytes(self.requeues)
            + order.u32_bytes(self.overlimits)
    }

    /// Reads the block from the front of `data`. Bytes after it are ignored.
    pub fn from_bytes(data: &[u8], order: ByteOrder) -> (r: Result<TcStatsQueue, DecodeError>)
        ensures
            r == TcStatsQueue::parse_spec(data@, order),
    {
        if data.len() < TC_STATS_QUEUE_SIZE {
            return Err(DecodeError::Length { expected: TC_STATS_QUEUE_SIZE, actual: data.len() });
        }
        Ok(
            TcStatsQueue {
                qlen: order.read_u32(data, 0),
                backlog: order.read_u32(data, 4),
                drops: order.read_u32(data, 8),
                requeues: order.read_u32(data, 12),
                overlimits: order.read_u32(data, 16),
            },
        )
    }

    /// Writes the block into a buffer of exactly its size.
    pub fn to_bytes(&self, buffer: &mut [u8], order: ByteOrder)
        requires
            old(buffer).len() == TC_STATS_QUEUE_SIZE,
        ensures
            final(buffer)@ == self.wire(order),
    {
        order.write_u32(buffer, 0, self.qlen);
        order.write_u32(buffer, 4, self.backlog);
        order.write_u32(buffer, 8, self.drops);
        order.write_u32(buffer, 12, self.requeues);
        order.write_u32(buffer, 16, self.overlimits);
        assert(buffer@ =~= self.wire(order));
    }

    /// The block takes 20 bytes, and reading what was written gives the
    /// value back, whatever follows it.
    pub proof fn lemma_round_trip(self, order: ByteOrder, tail: Seq<u8>)
        ensures
            self.wire(order).len() == TC_STATS_QUEUE_SIZE,
            TcStatsQueue::at(self.wire(order) + tail, order) == self,
            TcStatsQueue::parse_spec(self.wire(order) + tail, order) == Ok::<
                TcStatsQueue,
                DecodeError,
            >(self),
    {
        let b = self.wire(order) + tail;
        lemma_u32_round_trip(order, self.qlen);
        lemma_u32_round_trip(order, self.backlog);
        lemma_u32_round_trip(order, self.drops);
        lemma_u32_round_trip(order, self.requeues);
        lemma_u32_round_trip(order, self.overlimits);
        assert(b.subrange(0, 4) =~= order.u32_bytes(self.qlen));
        assert(b.subrange(4, 8) =~= order.u32_bytes(self.backlog));
        assert(b.subrange(8, 12) =~= order.u32_bytes(self.drops));
        assert(b.subrange(12, 16) =~= order.u32_bytes(self.requeues));
        assert(b.subrange(16, 20) =~= order.u32_bytes(self.overlimits));
    }
}

/// A statistic nested in the second form of the statistics attribute.
#[derive(Debug, PartialEq, Eq, Clone)]
pub enum TcStats2Nla {
    StatsApp(Vec<u8>),
    StatsBasic(TcStatsBasic),
    StatsQueue(TcStatsQueue),
    Other(DefaultNla),
}

/// The model of a nested statistic.
pub enum TcStats2NlaView {
    StatsApp(Seq<u8>),
    StatsBasic(TcStatsBasic),
    StatsQueue(TcStatsQueue),
    Other(Attribute),
}

impl View for TcStats2Nla {
    type V = TcStats2NlaView;

    open spec fn view(&self) -> TcStats2NlaView {
        match self {
            TcStats2Nla::StatsApp(bytes) => TcStats2NlaView::StatsApp(bytes@),
            TcStats2Nla::StatsBasic(stats) => TcStats2NlaView::StatsBasic(*stats),
            TcStats2Nla::StatsQueue(stats) => TcStats2NlaView::StatsQueue(*stats),
            TcStats2Nla::Other(nla) => TcStats2NlaView::Other(nla@),
        }
    }
}

impl NlaModel for TcStats2NlaView {
    open spec fn kind(self) -> u16 {
        match self {
            TcStats2NlaView::StatsApp(_) => TCA_STATS_APP,
            TcStats2NlaView::StatsBasic(_) => TCA_STATS_BASIC,
            TcStats2NlaView::StatsQueue(_) => TCA_STATS_QUEUE,
            TcStats2NlaView::Other(a) => a.kind,
        }
    }

    open spec fn value(self, order: ByteOrder) -> Seq<u8> {
        match self {
            TcStats2NlaView::StatsApp(bytes) => bytes,
            TcStats2NlaView::StatsBasic(stats) => stats.wire(order),
            TcStats2NlaView::StatsQueue(stats) => stats.wire(order),
            TcStats2NlaView::Other(a) => a.value,
        }
    }

    open spec fn value_len(self) -> nat {
        match self {
            TcStats2NlaView::StatsApp(bytes) => bytes.len(),
            TcStats2NlaView::StatsBasic(_) => TC_STATS_BASIC_SIZE as nat,
            TcStats2NlaView::StatsQueue(_) => TC_STATS_QUEUE_SIZE as nat,
            TcStats2NlaView::Other(a) => a.value.len(),
        }
    }

    open spec fn fits(self) -> bool {
        self.value_len() <= NLA_MAX_VALUE_LEN
    }

    proof fn lemma_value_len(self, order: ByteOrder) {
        match self {
            TcStats2NlaView::StatsBasic(stats) => {
                stats.lemma_round_trip(order, Seq::empty());
            },
            TcStats2NlaView::StatsQueue(stats) => {
                stats.lemma_round_trip(order, Seq::empty());
            },
            _ => {},
        }
    }
}

impl NlaParseModel for TcStats2NlaView {
    /// A known kind is read as its block, and a block that is too short is
    /// an error; any other kind keeps its bytes.
    open spec fn parse(a: Attribute, order: ByteOrder) -> Result<Self, DecodeError> {
        if a.kind == TCA_STATS_APP {
            Ok(TcStats2NlaView::StatsApp(a.value))
        } else if a.kind == TCA_STATS_BASIC {
            match TcStatsBasic::parse_spec(a.value, order) {
                Ok(stats) => Ok(TcStats2NlaView::StatsBasic(stats)),
                Err(e) => Err(e),
            }
        } else if a.kind == TCA_STATS_QUEUE {
            match TcStatsQueue::parse_spec(a.value, order) {
                Ok(stats) => Ok(TcStats2NlaView::StatsQueue(stats)),
                Err(e) => Err(e),
            }
        } else {
            Ok(TcStats2NlaView::Other(a))
        }
    }
}

/// Whether `kind` is one that a nested statistic is read by.
pub open spec fn is_known_stats2_kind(kind: u16) -> bool {
    kind == TCA_STATS_APP || kind == TCA_STATS_BASIC || kind == TCA_STATS_QUEUE
}

impl NlaRoundTrip for TcStats2NlaView {
    /// A nested statistic comes back as it was written unless it keeps, as
    /// one of unknown kind, a kind that is known.
    open spec fn canonical(self) -> bool {
        self matches TcStats2NlaView::Other(a) ==> !is_known_stats2_kind(a.kind)
    }

    proof fn lemma_round_trip(self, order: ByteOrder) {
        match self {
            TcStats2NlaView::StatsBasic(stats) => {
                stats.lemma_round_trip(order, Seq::empty());
                assert(stats.wire(order) + Seq::<u8>::empty() =~= stats.wire(order));
            },
            TcStats2NlaView::StatsQueue(stats) => {
                stats.lemma_round_trip(order, Seq::empty());
                assert(stats.wire(order) + Seq::<u8>::empty() =~= stats.wire(order));
            },
            _ => {},
        }
    }
}

impl Nla for TcStats2Nla {
    fn fits(&self) -> (r: bool) {
        match self {
            TcStats2Nla::StatsApp(bytes) => bytes.len() <= NLA_MAX_VALUE_LEN,
            TcStats2Nla::StatsBasic(_) => true,
            TcStats2Nla::StatsQueue(_) => true,
            TcStats2Nla::Other(nla) => nla.fits(),
        }
    }

    fn kind(&self) -> (r: u16) {
        match self {
            TcStats2Nla::StatsApp(_) => TCA_STATS_APP,
            TcStats2Nla::StatsBasic(_) => TCA_STATS_BASIC,
            TcStats2Nla::StatsQueue(_) => TCA_STATS_QUEUE,
            TcStats2Nla::Other(nla) => nla.kind(),
        }
    }

    fn value_len(&self) -> (r: usize) {
        match self {
            TcStats2Nla::StatsApp(bytes) => bytes.len(),
            TcStats2Nla::StatsBasic(_) => TC_STATS_BASIC_SIZE,
            TcStats2Nla::StatsQueue(_) => TC_STATS_QUEUE_SIZE,
            TcStats2Nla::Other(nla) => nla.value_len(),
        }
    }

    fn emit_value(&self, buffer: &mut [u8], order: ByteOrder) {
        match self {
            TcStats2Nla::StatsApp(bytes) => copy_bytes(buffer, bytes.as_slice()),
            TcStats2Nla::StatsBasic(stats) => stats.to_bytes(buffer, order),
            TcStats2Nla::StatsQueue(stats) => stats.to_bytes(buffer, order),
            TcStats2Nla::Other(nla) => nla.emit_value(buffer, order),
        }
    }
}

impl ParseableNla for TcStats2Nla {
    fn parse(nla: &NlaBuffer<'_>, order: ByteOrder) -> (r: Result<Self, DecodeError>) {
        let payload = nla.value;
        if nla.kind == TCA_STATS_APP {
            Ok(TcStats2Nla::StatsApp(vstd::slice::slice_to_vec(payload)))
        } else if nla.kind == TCA_STATS_BASIC {
            match TcStatsBasic::from_bytes(payload, order) {
                Ok(stats) => Ok(TcStats2Nla::StatsBasic(stats)),
                Err(e) => Err(e),
            }
        } else if nla.kind == TCA_STATS_QUEUE {
            match TcStatsQueue::from_bytes(payload, order) {
                Ok(stats) => Ok(TcStats2Nla::StatsQueue(stats)),
                Err(e) => Err(e),
            }
        } else {
            match <DefaultNla as ParseableNla>::parse(nla, order) {
                Ok(other) => Ok(TcStats2Nla::Other(other)),
                Err(e) => Err(e),
            }
        }
    }
}

/// An attribute of a traffic-control message.
#[derive(Debug, PartialEq, Eq, Clone)]
pub enum TcNla {
    /// Unspecified.
    Unspec(Vec<u8>),
    /// Name of the queueing discipline.
    Kind(String),
    /// Options of the queueing discipline.
    Options(Vec<u8>),
    /// Statistics of the queueing discipline.
    Stats(TcStats),
    /// Statistics of the module.
    XStats(Vec<u8>),
    /// Rate limit.
    Rate(Vec<u8>),
    Fcnt(Vec<u8>),
    /// Statistics as a list of nested attributes.
    Stats2(Vec<TcStats2Nla>),
    Stab(Vec<u8>),
    HwOffload(u8),
    Other(DefaultNla),
}

/// The model of an attribute of a traffic-control message.
pub enum TcNlaView {
    Unspec(Seq<u8>),
    Kind(Seq<char>),
    Options(Seq<u8>),
    Stats(TcStats),
    XStats(Seq<u8>),
    Rate(Seq<u8>),
    Fcnt(Seq<u8>),
    Stats2(Seq<TcStats2NlaView>),
    Stab(Seq<u8>),
    HwOffload(u8),
    Other(Attribute),
}

impl View for TcNla {
    type V = TcNlaView;

    open spec fn view(&self) -> TcNlaView {
        match self {
            TcNla::Unspec(bytes) => TcNlaView::Unspec(bytes@),
            TcNla::Kind(name) => TcNlaView::Kind(name@),
            TcNla::Options(bytes) => TcNlaView::Options(bytes@),
            TcNla::Stats(stats) => TcNlaView::Stats(*stats),
            TcNla::XStats(bytes) => TcNlaView::XStats(bytes@),
            TcNla::Rate(bytes) => TcNlaView::Rate(bytes@),
            TcNla::Fcnt(bytes) => TcNlaView::Fcnt(bytes@),
            TcNla::Stats2(nlas) => TcNlaView::Stats2(views(nlas@)),
            TcNla::Stab(bytes) => TcNlaView::Stab(bytes@),
            TcNla::HwOffload(value) => TcNlaView::HwOffload(*value),
            TcNla::Other(nla) => TcNlaView::Other(nla@),
        }
    }
}

impl NlaModel for TcNlaView {
    open spec fn kind(self) -> u16 {
        match self {
            TcNlaView::Unspec(_) => TCA_UNSPEC,
            TcNlaView::Kind(_) => TCA_KIND,
            TcNlaView::Options(_) => TCA_OPTIONS,
            TcNlaView::Stats(_) => TCA_STATS,
            TcNlaView::XStats(_) => TCA_XSTATS,
            TcNlaView::Rate(_) => TCA_RATE,
            TcNlaView::Fcnt(_) => TCA_FCNT,
            TcNlaView::Stats2(_) => TCA_STATS2,
            TcNlaView::Stab(_) => TCA_STAB,
            TcNlaView::HwOffload(_) => TCA_HW_OFFLOAD,
            TcNlaView::Other(a) => a.kind,
        }
    }

    open spec fn value(self, order: ByteOrder) -> Seq<u8> {
        match self {
            TcNlaView::Unspec(bytes) => bytes,
            TcNlaView::Kind(name) => text_wire(name),
            TcNlaView::Options(bytes) => bytes,
            TcNlaView::Stats(stats) => stats.wire(order),
            TcNlaView::XStats(bytes) => bytes,
            TcNlaView::Rate(bytes) => bytes,
            TcNlaView::Fcnt(bytes) => bytes,
            TcNlaView::Stats2(nlas) => nlas_wire(nlas, order),
            TcNlaView::Stab(bytes) => bytes,
            TcNlaView::HwOffload(value) => seq![value],
            TcNlaView::Other(a) => a.value,
        }
    }

    open spec fn value_len(self) -> nat {
        match self {
            TcNlaView::Unspec(bytes) => bytes.len(),
            TcNlaView::Kind(name) => encode_utf8(name).len() + 1,
            TcNlaView::Options(bytes) => bytes.len(),
            TcNlaView::Stats(_) => TC_STATS_SIZE as nat,
            TcNlaView::XStats(bytes) => bytes.len(),
            TcNlaView::Rate(bytes) => bytes.len(),
            TcNlaView::Fcnt(bytes) => bytes.len(),
            TcNlaView::Stats2(nlas) => nlas_wire_len(nlas),
            TcNlaView::Stab(bytes) => bytes.len(),
            TcNlaView::HwOffload(_) => 1,
            TcNlaView::Other(a) => a.value.len(),
        }
    }

    open spec fn fits(self) -> bool {
        &&& self.value_len() <= NLA_MAX_VALUE_LEN
        &&& self matches TcNlaView::Stats2(nlas) ==> nlas_fit(nlas)
    }

    proof fn lemma_value_len(self, order: ByteOrder) {
        match self {
            TcNlaView::Stats(stats) => {
                stats.lemma_round_trip(order, Seq::empty());
            },
            TcNlaView::Stats2(nlas) => {
                lemma_nlas_wire_len(nlas, order);
            },
            TcNlaView::Kind(name) => {
                assert(text_wire(name).len() == encode_utf8(name).len() + 1);
            },
            TcNlaView::HwOffload(value) => {
                assert(seq![value].len() == 1);
            },
            _ => {},
        }
    }
}

impl NlaParseModel for TcNlaView {
    /// A known kind is read as what it stands for, and an error in reading
    /// it is the error of the attribute; any other kind keeps its bytes.
    open spec fn parse(a: Attribute, order: ByteOrder) -> Result<Self, DecodeError> {
        if a.kind == TCA_UNSPEC {
            Ok(TcNlaView::Unspec(a.value))
        } else if a.kind == TCA_KIND {
            match text_parse(a.value) {
                Ok(name) => Ok(TcNlaView::Kind(name)),
                Err(e) => Err(e),
            }
        } else if a.kind == TCA_OPTIONS {
            Ok(TcNlaView::Options(a.value))
        } else if a.kind == TCA_STATS {
            match TcStats::parse_spec(a.value, order) {
                Ok(stats) => Ok(TcNlaView::Stats(stats)),
                Err(e) => Err(e),
            }
        } else if a.kind == TCA_XSTATS {
            Ok(TcNlaView::XStats(a.value))
        } else if a.kind == TCA_RATE {
            Ok(TcNlaView::Rate(a.value))
        } else if a.kind == TCA_FCNT {
            Ok(TcNlaView::Fcnt(a.value))
        } else if a.kind == TCA_STATS2 {
            match nlas_parse::<TcStats2NlaView>(a.value, order) {
                Ok(nlas) => Ok(TcNlaView::Stats2(nlas)),
                Err(e) => Err(e),
            }
        } else if a.kind == TCA_STAB {
            Ok(TcNlaView::Stab(a.value))
        } else if a.kind == TCA_HW_OFFLOAD {
            match byte_of(a.value) {
                Ok(value) => Ok(TcNlaView::HwOffload(value)),
                Err(e) => Err(e),
            }
        } else {
            Ok(TcNlaView::Other(a))
        }
    }
}

/// Whether `kind` is one that an attribute of traffic control is read by.
pub open spec fn is_known_tc_kind(kind: u16) -> bool {
    kind == TCA_UNSPEC || kind == TCA_KIND || kind == TCA_OPTIONS || kind == TCA_STATS || kind
        == TCA_XSTATS || kind == TCA_RATE || kind == TCA_FCNT || kind == TCA_STATS2 || kind
        == TCA_STAB || kind == TCA_HW_OFFLOAD
}

impl NlaRoundTrip for TcNlaView {
    /// An attribute comes back as it was written unless its name holds a
    /// NUL byte, or a nested statistic does not come back or is last and
    /// reaches exactly to the end of the value, or it keeps, as one of
    /// unknown kind, a kind that is known.
    open spec fn canonical(self) -> bool {
        match self {
            TcNlaView::Kind(name) => !encode_utf8(name).contains(0u8),
            TcNlaView::Stats2(nlas) => nlas_canonical(nlas) && ends_clean(nlas, 0),
            TcNlaView::Other(a) => !is_known_tc_kind(a.kind),
            _ => true,
        }
    }

    proof fn lemma_round_trip(self, order: ByteOrder) {
        match self {
            TcNlaView::Kind(name) => {
                lemma_text_round_trip(name);
            },
            TcNlaView::Stats(stats) => {
                stats.lemma_round_trip(order, Seq::empty());
                assert(stats.wire(order) + Seq::<u8>::empty() =~= stats.wire(order));
            },
            TcNlaView::Stats2(nlas) => {
                lemma_nlas_round_trip(nlas, Seq::empty(), order);
                assert(nlas_wire(nlas, order) + Seq::<u8>::empty() =~= nlas_wire(nlas, order));
            },
            _ => {},
        }
    }
}

/// An attribute of a kind that is not known is kept as it came, and is
/// written again with the same kind and the same bytes.
pub proof fn lemma_unknown_kind_is_kept(a: Attribute, order: ByteOrder)
    requires
        !is_known_tc_kind(a.kind),
    ensures
        <TcNlaView as NlaParseModel>::parse(a, order) == Ok::<TcNlaView, DecodeError>(
            TcNlaView::Other(a),
        ),
        crate::nla::attribute_of(TcNlaView::Other(a), order) == a,
{
}

impl Nla for TcNla {
    fn fits(&self) -> (r: bool) {
        match self {
            TcNla::Unspec(bytes)
            | TcNla::Options(bytes)
            | TcNla::XStats(bytes)
            | TcNla::Rate(bytes)
            | TcNla::Fcnt(bytes)
            | TcNla::Stab(bytes) => bytes.len() <= NLA_MAX_VALUE_LEN,
            TcNla::HwOffload(_) => true,
            TcNla::Stats2(nlas) => nlas_checked_len(nlas, NLA_MAX_VALUE_LEN).is_some(),
            TcNla::Stats(_) => true,
            TcNla::Kind(name) => name.as_str().as_bytes().len() <= NLA_MAX_VALUE_LEN - 1,
            TcNla::Other(nla) => nla.fits(),
        }
    }

    fn kind(&self) -> (r: u16) {
        match self {
            TcNla::Unspec(_) => TCA_UNSPEC,
            TcNla::Kind(_) => TCA_KIND,
            TcNla::Options(_) => TCA_OPTIONS,
            TcNla::Stats(_) => TCA_STATS,
            TcNla::XStats(_) => TCA_XSTATS,
            TcNla::Rate(_) => TCA_RATE,
            TcNla::Fcnt(_) => TCA_FCNT,
            TcNla::Stats2(_) => TCA_STATS2,
            TcNla::Stab(_) => TCA_STAB,
            TcNla::HwOffload(_) => TCA_HW_OFFLOAD,
            TcNla::Other(nla) => nla.kind(),
        }
    }

    fn value_len(&self) -> (r: usize) {
        match self {
            TcNla::Unspec(bytes)
            | TcNla::Options(bytes)
            | TcNla::XStats(bytes)
            | TcNla::Rate(bytes)
            | TcNla::Fcnt(bytes)
            | TcNla::Stab(bytes) => bytes.len(),
            TcNla::HwOffload(_) => 1,
            TcNla::Stats2(nlas) => nlas_buffer_len(nlas),
            TcNla::Stats(_) => TC_STATS_SIZE,
            TcNla::Kind(name) => name.as_str().as_bytes().len() + 1,
            TcNla::Other(nla) => nla.value_len(),
        }
    }

    fn emit_value(&self, buffer: &mut [u8], order: ByteOrder) {
        match self {
            TcNla::Unspec(bytes)
            | TcNla::Options(bytes)
            | TcNla::XStats(bytes)
            | TcNla::Rate(bytes)
            | TcNla::Fcnt(bytes)
            | TcNla::Stab(bytes) => copy_bytes(buffer, bytes.as_slice()),
            TcNla::HwOffload(value) => {
                buffer[0] = *value;
                assert(buffer@ =~= seq![*value]);
            },
            TcNla::Stats2(nlas) => emit_nlas(nlas, buffer, order),
            TcNla::Stats(stats) => stats.to_bytes(buffer, order),
            TcNla::Kind(name) => {
                let text = name.as_str().as_bytes();
                let (head, nul) = buffer.split_at_mut(text.len());
                copy_bytes(head, text);
                nul[0] = 0;
                assert(buffer@ =~= text_wire(name@));
            },
            TcNla::Other(nla) => nla.emit_value(buffer, order),
        }
    }
}

impl ParseableNla for TcNla {
    fn parse(nla: &NlaBuffer<'_>, order: ByteOrder) -> (r: Result<Self, DecodeError>) {
        let payload = nla.value;
        let kind: u16 = nla.kind;
        if kind == TCA_UNSPEC {
            Ok(TcNla::Unspec(vstd::slice::slice_to_vec(payload)))
        } else if kind == TCA_KIND {
            match parse_string(payload) {
                Ok(name) => Ok(TcNla::Kind(name)),
                Err(e) => Err(e),
            }
        } else if kind == TCA_OPTIONS {
            Ok(TcNla::Options(vstd::slice::slice_to_vec(payload)))
        } else if kind == TCA_STATS {
            match TcStats::from_bytes(payload, order) {
                Ok(stats) => Ok(TcNla::Stats(stats)),
                Err(e) => Err(e),
            }
        } else if kind == TCA_XSTATS {
            Ok(TcNla::XStats(vstd::slice::slice_to_vec(payload)))
        } else if kind == TCA_RATE {
            Ok(TcNla::Rate(vstd::slice::slice_to_vec(payload)))
        } else if kind == TCA_FCNT {
            Ok(TcNla::Fcnt(vstd::slice::slice_to_vec(payload)))
        } else if kind == TCA_STATS2 {
            match parse_nlas::<TcStats2Nla>(payload, order) {
                Ok(nlas) => Ok(TcNla::Stats2(nlas)),
                Err(e) => Err(e),
            }
        } else if kind == TCA_STAB {
            Ok(TcNla::Stab(vstd::slice::slice_to_vec(payload)))
        } else if kind == TCA_HW_OFFLOAD {
            match parse_u8(payload) {
                Ok(value) => Ok(TcNla::HwOffload(value)),
                Err(e) => Err(e),
            }
        } else {
            match <DefaultNla as ParseableNla>::parse(nla, order) {
                Ok(other) => Ok(TcNla::Other(other)),
                Err(e) => Err(e),
            }
        }
    }
}

/// The fixed head of a traffic-control message.
#[derive(Debug, Clone, Copy, PartialEq, Eq)]
pub struct TcHeader {
    pub family: u8,
    pub index: u32,
    pub handle: u32,
    pub parent: u32,
    pub info: u32,
}

/// The number of bytes of the header.
pub const TC_HEADER_LEN: usize = 20;

impl TcHeader {
    /// The header that the first 20 bytes of `b` hold, field by field.
    pub open spec fn at(b: Seq<u8>, order: ByteOrder) -> TcHeader {
        TcHeader {
            family: b[0],
            index: order.u32_from(b.subrange(4, 8)),
            handle: order.u32_from(b.subrange(8, 12)),
            parent: order.u32_from(b.subrange(12, 16)),
            info: order.u32_from(b.subrange(16, 20)),
        }
    }

    /// The header that `b` holds, or a length error when `b` is shorter than
    /// the header.
    pub open spec fn parse_spec(b: Seq<u8>, order: ByteOrder) -> Result<TcHeader, DecodeError> {
        if b.len() >= TC_HEADER_LEN {
            Ok(TcHeader::at(b, order))
        } else {
            Err(DecodeError::Length { expected: TC_HEADER_LEN, actual: b.len() as usize })
        }
    }

    /// The 20 bytes of the header. Bytes that no field covers are zero.
    pub open spec fn wire(self, order: ByteOrder) -> Seq<u8> {
        seq![self.family]
            + zeros(3)
            + order.u32_bytes(self.index)
            + order.u32_bytes(self.handle)
            + order.u32_bytes(self.parent)
            + order.u32_bytes(self.info)
    }

    /// Reads the header from the front of `data`. Bytes after it are ignored.
    pub fn parse(data: &[u8], order: ByteOrder) -> (r: Result<TcHeader, DecodeError>)
        ensures
            r == TcHeader::parse_spec(data@, order),
    {
        if data.len() < TC_HEADER_LEN {
            return Err(DecodeError::Length { expected: TC_HEADER_LEN, actual: data.len() });
        }
        Ok(
            TcHeader {
                family: data[0],
                index: order.read_u32(data, 4),
                handle: order.read_u32(data, 8),
                parent: order.read_u32(data, 12),
                info: order.read_u32(data, 16),
            },
        )
    }

    /// Writes the header into a buffer of exactly its size.
    pub fn emit(&self, buffer: &mut [u8], order: ByteOrder)
        requires
            old(buffer).len() == TC_HEADER_LEN,
        ensures
            final(buffer)@ == self.wire(order),
    {
        buffer[0] = self.family;
        buffer[1] = 0;
        buffer[2] = 0;
        buffer[3] = 0;
        order.write_u32(buffer, 4, self.index);
        order.write_u32(buffer, 8, self.handle);
        order.write_u32(buffer, 12, self.parent);
        order.write_u32(buffer, 16, self.info);
        assert(buffer@ =~= self.wire(order));
    }

    /// The header takes 20 bytes, and reading what was written gives the
    /// value back, whatever follows it.
    pub proof fn lemma_round_trip(self, order: ByteOrder, tail: Seq<u8>)
        ensures
            self.wire(order).len() == TC_HEADER_LEN,
            TcHeader::at(self.wire(order) + tail, order) == self,
            TcHeader::parse_spec(self.wire(order) + tail, order) == Ok::<
                TcHeader,
                DecodeError,
            >(self),
    {
        let b = self.wire(order) + tail;
        lemma_u32_round_trip(order, self.index);
        lemma_u32_round_trip(order, self.handle);
        lemma_u32_round_trip(order, self.parent);
        lemma_u32_round_trip(order, self.info);
        assert(b[0] == self.family);
        assert(b.subrange(4, 8) =~= order.u32_bytes(self.index));
        assert(b.subrange(8, 12) =~= order.u32_bytes(self.handle));
        assert(b.subrange(12, 16) =~= order.u32_bytes(self.parent));
        assert(b.subrange(16, 20) =~= order.u32_bytes(self.info));
    }
}

impl TcHeader {
    /// The header with every field zero.
    pub fn new() -> (r: Self)
        ensures
            r == (TcHeader { family: 0, index: 0, handle: 0, parent: 0, info: 0 }),
    {
        TcHeader { family: 0, index: 0, handle: 0, parent: 0, info: 0 }
    }
}

/// A message about a queueing discipline, a traffic class or a filter.
#[derive(Debug, PartialEq, Eq, Clone)]
pub struct TcMessage {
    pub header: TcHeader,
    pub nlas: Vec<TcNla>,
}

/// The model of a traffic-control message.
pub struct TcMessageView {
    pub header: TcHeader,
    pub nlas: Seq<TcNlaView>,
}

impl View for TcMessage {
    type V = TcMessageView;

    open spec fn view(&self) -> TcMessageView {
        TcMessageView { header: self.header, nlas: views(self.nlas@) }
    }
}

impl TcMessageView {
    /// The number of bytes of the message.
    pub open spec fn wire_len(self) -> nat {
        TC_HEADER_LEN as nat + nlas_wire_len(self.nlas)
    }

    /// The bytes of the message: the header, then the attributes.
    pub open spec fn wire(self, order: ByteOrder) -> Seq<u8> {
        self.header.wire(order) + nlas_wire(self.nlas, order)
    }

    /// Whether every attribute is short enough to be written.
    pub open spec fn fits(self) -> bool {
        nlas_fit(self.nlas)
    }

    /// The message that `b` holds: a length error when `b` is shorter than
    /// the header, else the header and the attributes that follow it, or the
    /// first error among them.
    pub open spec fn parse(b: Seq<u8>, order: ByteOrder) -> Result<TcMessageView, DecodeError> {
        if b.len() < TC_HEADER_LEN {
            Err(DecodeError::Length { expected: TC_HEADER_LEN, actual: b.len() as usize })
        } else {
            match nlas_parse::<TcNlaView>(b.skip(TC_HEADER_LEN as int), order) {
                Ok(nlas) => Ok(TcMessageView { header: TcHeader::at(b, order), nlas }),
                Err(e) => Err(e),
            }
        }
    }

    /// The bytes of a message are as many as its size says.
    pub proof fn lemma_wire_len(self, order: ByteOrder)
        ensures
            self.wire(order).len() == self.wire_len(),
    {
        self.header.lemma_round_trip(order, Seq::empty());
        lemma_nlas_wire_len(self.nlas, order);
    }

    /// Whether every attribute is one that comes back as it was written.
    pub open spec fn canonical(self) -> bool {
        nlas_canonical(self.nlas)
    }

    /// Reading a message that was written gives the message back, where
    /// every attribute fits and is canonical, and the last one is found
    /// again before the `tail` that follows the message.
    pub proof fn lemma_round_trip(self, tail: Seq<u8>, order: ByteOrder)
        requires
            self.fits(),
            self.canonical(),
            ends_clean(self.nlas, tail.len()),
        ensures
            TcMessageView::parse(self.wire(order) + tail, order) == Ok::<
                TcMessageView,
                DecodeError,
            >(self),
    {
        let rest = nlas_wire(self.nlas, order) + tail;
        let bytes = self.wire(order) + tail;
        self.header.lemma_round_trip(order, rest);
        assert(bytes =~= self.header.wire(order) + rest);
        assert(bytes.skip(TC_HEADER_LEN as int) =~= rest);
        lemma_nlas_round_trip(self.nlas, tail, order);
    }
}

impl TcMessage {
    pub fn from_parts(header: TcHeader, nlas: Vec<TcNla>) -> (r: Self)
        ensures
            r.header == header,
            r.nlas == nlas,
    {
        TcMessage { header, nlas }
    }

    pub fn into_parts(self) -> (r: (TcHeader, Vec<TcNla>))
        ensures
            r.0 == self.header,
            r.1 == self.nlas,
    {
        (self.header, self.nlas)
    }

    /// Reads a message.
    pub fn parse(buffer: &[u8], order: ByteOrder) -> (r: Result<Self, DecodeError>)
        ensures
            parsed_view(r) == TcMessageView::parse(buffer@, order),
    {
        let header = match TcHeader::parse(buffer, order) {
            Ok(header) => header,
            Err(e) => {
                return Err(e);
            },
        };
        let rest = vstd::slice::slice_subrange(buffer, TC_HEADER_LEN, buffer.len());
        assert(rest@ =~= buffer@.skip(TC_HEADER_LEN as int));
        match parse_nlas::<TcNla>(rest, order) {
            Ok(nlas) => Ok(TcMessage { header, nlas }),
            Err(e) => Err(e),
        }
    }

    /// The number of bytes that the message takes, if every attribute can be
    /// written and the message takes no more than `limit` bytes.
    pub fn checked_buffer_len(&self, limit: usize) -> (r: Option<usize>)
        ensures
            r == (if self@.fits() && self@.wire_len() <= limit {
                Some(self@.wire_len() as usize)
            } else {
                None
            }),
    {
        if limit < TC_HEADER_LEN {
            return None;
        }
        match nlas_checked_len(&self.nlas, limit - TC_HEADER_LEN) {
            Some(len) => Some(TC_HEADER_LEN + len),
            None => None,
        }
    }

    /// The number of bytes that the message takes.
    pub fn buffer_len(&self) -> (r: usize)
        requires
            self@.fits(),
            self@.wire_len() <= usize::MAX,
        ensures
            r == self@.wire_len(),
    {
        TC_HEADER_LEN + nlas_buffer_len(&self.nlas)
    }

    /// Writes the message into the front of `buffer` and leaves the rest.
    pub fn emit(&self, buffer: &mut [u8], order: ByteOrder)
        requires
            self@.fits(),
            old(buffer).len() >= self@.wire_len(),
        ensures
            final(buffer)@ == self@.wire(order) + old(buffer)@.skip(self@.wire_len() as int),
    {
        proof {
            self@.lemma_wire_len(order);
        }
        let len: usize = self.buffer_len();
        let (message, _rest) = buffer.split_at_mut(len);
        let (header, nlas) = message.split_at_mut(TC_HEADER_LEN);
        self.header.emit(header, order);
        emit_nlas(&self.nlas, nlas, order);
    }
}

} // verus!
