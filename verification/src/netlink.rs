//! The envelope of a netlink message: the header, the payload that the type
//! code of the header selects, and the message made of both.
use vstd::prelude::*;
use crate::byte_order::{lemma_u16_round_trip, lemma_u32_round_trip, ByteOrder};
use crate::constants::{NLMSG_DONE, NLMSG_ERROR, NLMSG_NOOP};
use crate::errors::DecodeError;
use crate::nla::{copy_bytes, parsed_view};
use crate::rtnl::message::{
    is_address_type, is_link_type, is_tc_type, RtnlMessage, RtnlMessageView,
};

verus! {

/// The flags of a header: one set of bits, whose names overlap because a bit
/// means one thing in a request and another in a reply.
#[derive(Debug, Clone, Copy, PartialEq, Eq)]
pub struct NetlinkFlags {
    pub bits: u16,
}

impl NetlinkFlags {
    pub fn new(bits: u16) -> (r: Self)
        ensures
            r.bits == bits,
    {
        NetlinkFlags { bits }
    }

    pub fn bits(&self) -> (r: u16)
        ensures
            r == self.bits,
    {
        self.bits
    }

    /// Whether every bit of `flags` is set.
    pub fn contains(&self, flags: u16) -> (r: bool)
        ensures
            r == (self.bits & flags == flags),
    {
        self.bits & flags == flags
    }

    /// Sets every bit of `flags`.
    pub fn insert(&mut self, flags: u16)
        ensures
            final(self).bits == old(self).bits | flags,
    {
        self.bits = self.bits | flags;
    }
}

/// The header that every netlink message starts with.
#[derive(Debug, Clone, Copy, PartialEq, Eq)]
pub struct NetlinkHeader {
    pub length: u32,
    pub message_type: u16,
    pub flags: u16,
    pub sequence_number: u32,
    pub port_number: u32,
}

/// The number of bytes of the header.
pub const NETLINK_HEADER_LEN: usize = 16;

impl NetlinkHeader {
    /// The header that the first 16 bytes of `b` hold, field by field.
    pub open spec fn at(b: Seq<u8>, order: ByteOrder) -> NetlinkHeader {
        NetlinkHeader {
            length: order.u32_from(b.subrange(0, 4)),
            message_type: order.u16_from(b.subrange(4, 6)),
            flags: order.u16_from(b.subrange(6, 8)),
            sequence_number: order.u32_from(b.subrange(8, 12)),
            port_number: order.u32_from(b.subrange(12, 16)),
        }
    }

    /// The header that `b` holds, or a length error when `b` is shorter than
    /// the header.
    pub open spec fn parse_spec(b: Seq<u8>, order: ByteOrder) -> Result<
        NetlinkHeader,
        DecodeError,
    > {
        if b.len() >= NETLINK_HEADER_LEN {
            Ok(NetlinkHeader::at(b, order))
        } else {
            Err(DecodeError::Length { expected: NETLINK_HEADER_LEN, actual: b.len() as usize })
        }
    }

    /// The 16 bytes of the header. Bytes that no field covers are zero.
    pub open spec fn wire(self, order: ByteOrder) -> Seq<u8> {
        order.u32_bytes(self.length)
            + order.u16_bytes(self.message_type)
            + order.u16_bytes(self.flags)
            + order.u32_bytes(self.sequence_number)
            + order.u32_bytes(self.port_number)
    }

    /// Reads the header from the front of `data`. Bytes after it are ignored.
    pub fn parse(data: &[u8], order: ByteOrder) -> (r: Result<NetlinkHeader, DecodeError>)
        ensures
            r == NetlinkHeader::parse_spec(data@, order),
    {
        if data.len() < NETLINK_HEADER_LEN {
            return Err(DecodeError::Length { expected: NETLINK_HEADER_LEN, actual: data.len() });
        }
        Ok(
            NetlinkHeader {
                length: order.read_u32(data, 0),
                message_type: order.read_u16(data, 4),
                flags: order.read_u16(data, 6),
                sequence_number: order.read_u32(data, 8),
                port_number: order.read_u32(data, 12),
            },
        )
    }

    /// Writes the header into a buffer of exactly its size.
    pub fn emit(&self, buffer: &mut [u8], order: ByteOrder)
        requires
            old(buffer).len() == NETLINK_HEADER_LEN,
        ensures
            final(buffer)@ == self.wire(order),
    {
        order.write_u32(buffer, 0, self.length);
        order.write_u16(buffer, 4, self.message_type);
        order.write_u16(buffer, 6, self.flags);
        order.write_u32(buffer, 8, self.sequence_number);
        order.write_u32(buffer, 12, self.port_number);
        assert(buffer@ =~= self.wire(order));
    }

    /// The header takes 16 bytes, and reading what was written gives the
    /// value back, whatever follows it.
    pub proof fn lemma_round_trip(self, order: ByteOrder, tail: Seq<u8>)
        ensures
            self.wire(order).len() == NETLINK_HEADER_LEN,
            NetlinkHeader::at(self.wire(order) + tail, order) == self,
            NetlinkHeader::parse_spec(self.wire(order) + tail, order) == Ok::<
                NetlinkHeader,
                DecodeError,
            >(self),
    {
        let b = self.wire(order) + tail;
        lemma_u32_round_trip(order, self.length);
        lemma_u16_round_trip(order, self.message_type);
        lemma_u16_round_trip(order, self.flags);
        lemma_u32_round_trip(order, self.sequence_number);
        lemma_u32_round_trip(order, self.port_number);
        assert(b.subrange(0, 4) =~= order.u32_bytes(self.length));
        assert(b.subrange(4, 6) =~= order.u16_bytes(self.message_type));
        assert(b.subrange(6, 8) =~= order.u16_bytes(self.flags));
        assert(b.subrange(8, 12) =~= order.u32_bytes(self.sequence_number));
        assert(b.subrange(12, 16) =~= order.u32_bytes(self.port_number));
    }
}

impl NetlinkHeader {
    /// The header with every field zero.
    pub fn new() -> (r: Self)
        ensures
            r == (NetlinkHeader {
                length: 0,
                message_type: 0,
                flags: 0,
                sequence_number: 0,
                port_number: 0,
            }),
    {
        NetlinkHeader { length: 0, message_type: 0, flags: 0, sequence_number: 0, port_number: 0 }
    }

    pub fn length(&self) -> (r: u32)
        ensures
            r == self.length,
    {
        self.length
    }

    pub fn message_type(&self) -> (r: u16)
        ensures
            r == self.message_type,
    {
        self.message_type
    }

    pub fn flags(&self) -> (r: NetlinkFlags)
        ensures
            r.bits == self.flags,
    {
        NetlinkFlags { bits: self.flags }
    }

    pub fn sequence_number(&self) -> (r: u32)
        ensures
            r == self.sequence_number,
    {
        self.sequence_number
    }

    pub fn port_number(&self) -> (r: u32)
        ensures
            r == self.port_number,
    {
        self.port_number
    }

    pub fn set_length(&mut self, length: u32)
        ensures
            *final(self) == (NetlinkHeader { length, ..*old(self) }),
    {
        self.length = length;
    }

    pub fn set_message_type(&mut self, message_type: u16)
        ensures
            *final(self) == (NetlinkHeader { message_type, ..*old(self) }),
    {
        self.message_type = message_type;
    }

    pub fn set_flags(&mut self, flags: NetlinkFlags)
        ensures
            *final(self) == (NetlinkHeader { flags: flags.bits, ..*old(self) }),
    {
        self.flags = flags.bits;
    }

    pub fn set_sequence_number(&mut self, sequence_number: u32)
        ensures
            *final(self) == (NetlinkHeader { sequence_number, ..*old(self) }),
    {
        self.sequence_number = sequence_number;
    }

    pub fn set_port_number(&mut self, port_number: u32)
        ensures
            *final(self) == (NetlinkHeader { port_number, ..*old(self) }),
    {
        self.port_number = port_number;
    }
}

/// The 32 bits of `u` read as a signed integer in two's complement.
pub open spec fn i32_of(u: u32) -> i32 {
    if u < 0x8000_0000 {
        u as i32
    } else {
        (u - 0x1_0000_0000) as i32
    }
}

/// The 32 bits that stand for `i` in two's complement.
pub open spec fn u32_of(i: i32) -> u32 {
    if i >= 0 {
        i as u32
    } else {
        (i + 0x1_0000_0000) as u32
    }
}

fn to_signed(u: u32) -> (r: i32)
    ensures
        r == i32_of(u),
        u32_of(r) == u,
{
    if u < 0x8000_0000 {
        u as i32
    } else {
        ((u - 0x8000_0000) as i32) - 0x7FFF_FFFF - 1
    }
}

fn to_unsigned(i: i32) -> (r: u32)
    ensures
        r == u32_of(i),
        i32_of(r) == i,
{
    if i >= 0 {
        i as u32
    } else {
        ((i + 0x7FFF_FFFF + 1) as u32) + 0x8000_0000
    }
}

/// What the kernel answers when a request failed, or when it asks for an
/// acknowledgement: a code and the header of the request, which is kept as
/// the bytes that came.
#[derive(Debug, PartialEq, Eq, Clone)]
pub struct ErrorMessage {
    pub code: i32,
    pub header: Vec<u8>,
}

/// The model of an error message.
pub struct ErrorMessageView {
    pub code: i32,
    pub header: Seq<u8>,
}

impl View for ErrorMessage {
    type V = ErrorMessageView;

    open spec fn view(&self) -> ErrorMessageView {
        ErrorMessageView { code: self.code, header: self.header@ }
    }
}

impl ErrorMessageView {
    /// The bytes of the error message: the code, then the echoed header.
    pub open spec fn wire(self, order: ByteOrder) -> Seq<u8> {
        order.u32_bytes(u32_of(self.code)) + self.header
    }

    /// The error message that `b` holds, or a length error when `b` is
    /// shorter than the code.
    pub open spec fn parse(b: Seq<u8>, order: ByteOrder) -> Result<ErrorMessageView, DecodeError> {
        if b.len() < 4 {
            Err(DecodeError::Length { expected: 4, actual: b.len() as usize })
        } else {
            Ok(
                ErrorMessageView {
                    code: i32_of(order.u32_from(b.subrange(0, 4))),
                    header: b.skip(4),
                },
            )
        }
    }
}

impl ErrorMessageView {
    /// Reading an error message that was written gives it back.
    pub proof fn lemma_round_trip(self, order: ByteOrder)
        ensures
            self.wire(order).len() == 4 + self.header.len(),
            ErrorMessageView::parse(self.wire(order), order) == Ok::<
                ErrorMessageView,
                DecodeError,
            >(self),
    {
        let b = self.wire(order);
        lemma_u32_round_trip(order, u32_of(self.code));
        assert(b.subrange(0, 4) =~= order.u32_bytes(u32_of(self.code)));
        assert(b.skip(4) =~= self.header);
        assert(i32_of(u32_of(self.code)) == self.code);
    }
}

impl ErrorMessage {
    /// Reads an error message.
    pub fn parse(buffer: &[u8], order: ByteOrder) -> (r: Result<Self, DecodeError>)
        ensures
            parsed_view(r) == ErrorMessageView::parse(buffer@, order),
    {
        if buffer.len() < 4 {
            return Err(DecodeError::Length { expected: 4, actual: buffer.len() });
        }
        let code: i32 = to_signed(order.read_u32(buffer, 0));
        let rest = vstd::slice::slice_subrange(buffer, 4, buffer.len());
        assert(rest@ =~= buffer@.skip(4));
        Ok(ErrorMessage { code, header: vstd::slice::slice_to_vec(rest) })
    }

    /// The number of bytes that the error message takes.
    pub fn buffer_len(&self) -> (r: usize)
        requires
            4 + self.header@.len() <= usize::MAX,
        ensures
            r == 4 + self.header@.len(),
    {
        4 + self.header.len()
    }

    /// Writes the error message into a buffer of exactly its size.
    pub fn emit(&self, buffer: &mut [u8], order: ByteOrder)
        requires
            old(buffer).len() == 4 + self.header@.len(),
        ensures
            final(buffer)@ == self@.wire(order),
    {
        let (code, header) = buffer.split_at_mut(4);
        order.write_u32(code, 0, to_unsigned(self.code));
        copy_bytes(header, self.header.as_slice());
        assert(buffer@ =~= self@.wire(order));
    }
}

/// What a netlink message carries.
#[derive(Debug, PartialEq, Eq, Clone)]
pub enum NetlinkPayload {
    /// The end of a dump.
    Done,
    /// Nothing.
    Noop,
    /// An error, or an acknowledgement.
    Error(ErrorMessage),
    /// A routing message.
    Rtnl(RtnlMessage),
}

/// The model of a payload.
pub enum NetlinkPayloadView {
    Done,
    Noop,
    Error(ErrorMessageView),
    Rtnl(RtnlMessageView),
}

impl View for NetlinkPayload {
    type V = NetlinkPayloadView;

    open spec fn view(&self) -> NetlinkPayloadView {
        match self {
            NetlinkPayload::Done => NetlinkPayloadView::Done,
            NetlinkPayload::Noop => NetlinkPayloadView::Noop,
            NetlinkPayload::Error(e) => NetlinkPayloadView::Error(e@),
            NetlinkPayload::Rtnl(m) => NetlinkPayloadView::Rtnl(m@),
        }
    }
}

impl NetlinkPayloadView {
    /// The type code under which the payload travels.
    pub open spec fn message_type(self) -> u16 {
        match self {
            NetlinkPayloadView::Done => NLMSG_DONE,
            NetlinkPayloadView::Noop => NLMSG_NOOP,
            NetlinkPayloadView::Error(_) => NLMSG_ERROR,
            NetlinkPayloadView::Rtnl(m) => m.message_type,
        }
    }

    /// The number of bytes of the payload.
    pub open spec fn wire_len(self) -> nat {
        match self {
            NetlinkPayloadView::Done => 0,
            NetlinkPayloadView::Noop => 0,
            NetlinkPayloadView::Error(e) => 4 + e.header.len(),
            NetlinkPayloadView::Rtnl(m) => m.wire_len(),
        }
    }

    /// The bytes of the payload.
    pub open spec fn wire(self, order: ByteOrder) -> Seq<u8> {
        match self {
            NetlinkPayloadView::Done => Seq::empty(),
            NetlinkPayloadView::Noop => Seq::empty(),
            NetlinkPayloadView::Error(e) => e.wire(order),
            NetlinkPayloadView::Rtnl(m) => m.wire(order),
        }
    }

    /// Whether every attribute is short enough to be written.
    pub open spec fn fits(self) -> bool {
        match self {
            NetlinkPayloadView::Rtnl(m) => m.fits(),
            _ => true,
        }
    }

    /// The payload of type `message_type` that `b` holds. The types of
    /// no-operation and of the end of a dump are read no further; the type of
    /// an error is read as a code and the bytes that follow; any other type
    /// is looked up among the routing messages.
    pub open spec fn parse(message_type: u16, b: Seq<u8>, order: ByteOrder) -> Result<
        NetlinkPayloadView,
        DecodeError,
    > {
        if message_type == NLMSG_NOOP {
            Ok(NetlinkPayloadView::Noop)
        } else if message_type == NLMSG_DONE {
            Ok(NetlinkPayloadView::Done)
        } else if message_type == NLMSG_ERROR {
            match ErrorMessageView::parse(b, order) {
                Ok(e) => Ok(NetlinkPayloadView::Error(e)),
                Err(e) => Err(e),
            }
        } else {
            match RtnlMessageView::parse(message_type, b, order) {
                Ok(m) => Ok(NetlinkPayloadView::Rtnl(m)),
                Err(e) => Err(e),
            }
        }
    }

    /// The bytes of a payload are as many as its size says.
    pub proof fn lemma_wire_len(self, order: ByteOrder)
        ensures
            self.wire(order).len() == self.wire_len(),
    {
        match self {
            NetlinkPayloadView::Error(e) => {
                lemma_u32_round_trip(order, u32_of(e.code));
            },
            NetlinkPayloadView::Rtnl(m) => {
                m.lemma_wire_len(order);
            },
            _ => {},
        }
    }
}

impl NetlinkPayloadView {
    /// Whether the payload is one that comes back as it was written, when
    /// nothing follows it: a routing message whose type code and shape
    /// belong together, whose attributes are canonical and whose last
    /// attribute is found again.
    pub open spec fn canonical(self) -> bool {
        self matches NetlinkPayloadView::Rtnl(m) ==> m.well_formed() && m.canonical()
            && m.ends_clean(0)
    }

    /// Reading a payload that was written, by its own type code, gives the
    /// payload back.
    pub proof fn lemma_round_trip(self, order: ByteOrder)
        requires
            self.fits(),
            self.canonical(),
        ensures
            NetlinkPayloadView::parse(self.message_type(), self.wire(order), order) == Ok::<
                NetlinkPayloadView,
                DecodeError,
            >(self),
    {
        match self {
            NetlinkPayloadView::Error(e) => {
                e.lemma_round_trip(order);
            },
            NetlinkPayloadView::Rtnl(m) => {
                m.lemma_round_trip(Seq::empty(), order);
                assert(m.wire(order) + Seq::<u8>::empty() =~= m.wire(order));
            },
            _ => {},
        }
    }

    /// A type code that is none of the shared ones and in no table of
    /// routing messages is reported by name, whatever the payload holds.
    pub proof fn lemma_unknown_type(message_type: u16, b: Seq<u8>, order: ByteOrder)
        requires
            message_type != NLMSG_NOOP,
            message_type != NLMSG_DONE,
            message_type != NLMSG_ERROR,
            !is_link_type(message_type),
            !is_address_type(message_type),
            !is_tc_type(message_type),
        ensures
            NetlinkPayloadView::parse(message_type, b, order) == Err::<
                NetlinkPayloadView,
                DecodeError,
            >(DecodeError::UnknownMessageType(message_type)),
    {
    }
}

impl NetlinkPayload {
    pub fn message_type(&self) -> (r: u16)
        ensures
            r == self@.message_type(),
    {
        match self {
            NetlinkPayload::Done => NLMSG_DONE,
            NetlinkPayload::Noop => NLMSG_NOOP,
            NetlinkPayload::Error(_) => NLMSG_ERROR,
            NetlinkPayload::Rtnl(m) => m.message_type(),
        }
    }

    /// Reads the payload of the given type.
    pub fn parse(message_type: u16, buffer: &[u8], order: ByteOrder) -> (r: Result<
        Self,
        DecodeError,
    >)
        ensures
            parsed_view(r) == NetlinkPayloadView::parse(message_type, buffer@, order),
    {
        if message_type == NLMSG_NOOP {
            Ok(NetlinkPayload::Noop)
        } else if message_type == NLMSG_DONE {
            Ok(NetlinkPayload::Done)
        } else if message_type == NLMSG_ERROR {
            match ErrorMessage::parse(buffer, order) {
                Ok(e) => Ok(NetlinkPayload::Error(e)),
                Err(e) => Err(e),
            }
        } else {
            match RtnlMessage::parse(message_type, buffer, order) {
                Ok(m) => Ok(NetlinkPayload::Rtnl(m)),
                Err(e) => Err(e),
            }
        }
    }

    /// The number of bytes that the payload takes, if every attribute can be
    /// written and the payload takes no more than `limit` bytes.
    pub fn checked_buffer_len(&self, limit: usize) -> (r: Option<usize>)
        ensures
            r == (if self@.fits() && self@.wire_len() <= limit {
                Some(self@.wire_len() as usize)
            } else {
                None
            }),
    {
        match self {
            NetlinkPayload::Done => Some(0),
            NetlinkPayload::Noop => Some(0),
            NetlinkPayload::Error(e) => {
                if limit >= 4 && e.header.len() <= limit - 4 {
                    Some(4 + e.header.len())
                } else {
                    None
                }
            },
            NetlinkPayload::Rtnl(m) => m.checked_buffer_len(limit),
        }
    }

    /// The number of bytes that the payload takes.
    pub fn buffer_len(&self) -> (r: usize)
        requires
            self@.fits(),
            self@.wire_len() <= usize::MAX,
        ensures
            r == self@.wire_len(),
    {
        match self {
            NetlinkPayload::Done => 0,
            NetlinkPayload::Noop => 0,
            NetlinkPayload::Error(e) => e.buffer_len(),
            NetlinkPayload::Rtnl(m) => m.buffer_len(),
        }
    }

    /// Writes the payload into a buffer of exactly its size.
    pub fn emit(&self, buffer: &mut [u8], order: ByteOrder)
        requires
            self@.fits(),
            old(buffer).len() == self@.wire_len(),
        ensures
            final(buffer)@ == self@.wire(order),
    {
        match self {
            NetlinkPayload::Done => {
                assert(buffer@ =~= Seq::<u8>::empty());
            },
            NetlinkPayload::Noop => {
                assert(buffer@ =~= Seq::<u8>::empty());
            },
            NetlinkPayload::Error(e) => e.emit(buffer, order),
            NetlinkPayload::Rtnl(m) => {
                m.emit(buffer, order);
                assert(buffer@ =~= m@.wire(order));
            },
        }
    }
}

/// A netlink message: a header and a payload.
#[derive(Debug, PartialEq, Eq, Clone)]
pub struct NetlinkMessage {
    pub header: NetlinkHeader,
    pub payload: NetlinkPayload,
}

/// The model of a netlink message.
pub struct NetlinkMessageView {
    pub header: NetlinkHeader,
    pub payload: NetlinkPayloadView,
}

impl View for NetlinkMessage {
    type V = NetlinkMessageView;

    open spec fn view(&self) -> NetlinkMessageView {
        NetlinkMessageView { header: self.header, payload: self.payload@ }
    }
}

impl NetlinkMessageView {
    /// The number of bytes of the message.
    pub open spec fn wire_len(self) -> nat {
        NETLINK_HEADER_LEN as nat + self.payload.wire_len()
    }

    /// Whether the message can be written: its attributes are short enough
    /// and its size fits the length field of the header.
    pub open spec fn fits(self) -> bool {
        self.payload.fits() && self.wire_len() <= u32::MAX
    }

    /// The message with the length and the type code of its header set to
    /// what the payload takes and is.
    pub open spec fn finalized(self) -> NetlinkMessageView {
        NetlinkMessageView {
            header: NetlinkHeader {
                length: self.wire_len() as u32,
                message_type: self.payload.message_type(),
                ..self.header
            },
            payload: self.payload,
        }
    }

    /// The bytes of the message: the header of the finalized message, then
    /// the payload. The length and the type code that the header held before
    /// are not written.
    pub open spec fn wire(self, order: ByteOrder) -> Seq<u8> {
        self.finalized().header.wire(order) + self.payload.wire(order)
    }

    /// The message that `b` holds. A buffer shorter than the header, a
    /// length field under the size of the header and a length field beyond
    /// the buffer are length errors. The payload is what stands between the
    /// header and the length that the header gives; it is read by the type
    /// code of the header.
    pub open spec fn parse(b: Seq<u8>, order: ByteOrder) -> Result<
        NetlinkMessageView,
        DecodeError,
    > {
        if b.len() < NETLINK_HEADER_LEN {
            Err(DecodeError::Length { expected: NETLINK_HEADER_LEN, actual: b.len() as usize })
        } else {
            let header = NetlinkHeader::at(b, order);
            if header.length < NETLINK_HEADER_LEN {
                Err(
                    DecodeError::Length {
                        expected: NETLINK_HEADER_LEN,
                        actual: header.length as usize,
                    },
                )
            } else if header.length > b.len() {
                Err(
                    DecodeError::Length {
                        expected: header.length as usize,
                        actual: b.len() as usize,
                    },
                )
            } else {
                match NetlinkPayloadView::parse(
                    header.message_type,
                    b.subrange(NETLINK_HEADER_LEN as int, header.length as int),
                    order,
                ) {
                    Ok(payload) => Ok(NetlinkMessageView { header, payload }),
                    Err(e) => Err(e),
                }
            }
        }
    }

    /// The bytes of a message are as many as its size says.
    pub proof fn lemma_wire_len(self, order: ByteOrder)
        ensures
            self.wire(order).len() == self.wire_len(),
    {
        self.finalized().header.lemma_round_trip(order, Seq::empty());
        self.payload.lemma_wire_len(order);
    }
}

impl NetlinkMessageView {
    /// Reading a message that was written gives back the finalized message:
    /// the one that was written, with the length and the type code that the
    /// payload calls for. What follows the message in the buffer does not
    /// matter.
    pub proof fn lemma_round_trip(self, tail: Seq<u8>, order: ByteOrder)
        requires
            self.fits(),
            self.payload.canonical(),
        ensures
            NetlinkMessageView::parse(self.wire(order) + tail, order) == Ok::<
                NetlinkMessageView,
                DecodeError,
            >(self.finalized()),
    {
        let header = self.finalized().header;
        let body = self.payload.wire(order);
        let bytes = self.wire(order) + tail;
        header.lemma_round_trip(order, body + tail);
        self.payload.lemma_wire_len(order);
        assert(bytes =~= header.wire(order) + (body + tail));
        assert(bytes.subrange(NETLINK_HEADER_LEN as int, header.length as int) =~= body);
        self.payload.lemma_round_trip(order);
    }

    /// A message that is finalized is read back as itself.
    pub proof fn lemma_finalized_round_trip(self, tail: Seq<u8>, order: ByteOrder)
        requires
            self.fits(),
            self.payload.canonical(),
            self == self.finalized(),
        ensures
            NetlinkMessageView::parse(self.wire(order) + tail, order) == Ok::<
                NetlinkMessageView,
                DecodeError,
            >(self),
    {
        self.lemma_round_trip(tail, order);
    }

    /// A message whose type code is none of the shared ones and in no table
    /// of routing messages is not read: the error names the code.
    pub proof fn lemma_unknown_type(b: Seq<u8>, order: ByteOrder)
        requires
            b.len() >= NETLINK_HEADER_LEN,
            NETLINK_HEADER_LEN <= NetlinkHeader::at(b, order).length <= b.len(),
            NetlinkHeader::at(b, order).message_type != NLMSG_NOOP,
            NetlinkHeader::at(b, order).message_type != NLMSG_DONE,
            NetlinkHeader::at(b, order).message_type != NLMSG_ERROR,
            !is_link_type(NetlinkHeader::at(b, order).message_type),
            !is_address_type(NetlinkHeader::at(b, order).message_type),
            !is_tc_type(NetlinkHeader::at(b, order).message_type),
        ensures
            NetlinkMessageView::parse(b, order) == Err::<NetlinkMessageView, DecodeError>(
                DecodeError::UnknownMessageType(NetlinkHeader::at(b, order).message_type),
            ),
    {
    }
}

impl NetlinkMessage {
    pub fn new(header: NetlinkHeader, payload: NetlinkPayload) -> (r: Self)
        ensures
            r.header == header,
            r.payload == payload,
    {
        NetlinkMessage { header, payload }
    }

    /// A message that carries `message`, with a header that is zero until
    /// the message is finalized.
    pub fn from_rtnl(message: RtnlMessage) -> (r: Self)
        ensures
            r.payload == NetlinkPayload::Rtnl(message),
            r.header == (NetlinkHeader {
                length: 0,
                message_type: 0,
                flags: 0,
                sequence_number: 0,
                port_number: 0,
            }),
    {
        NetlinkMessage { header: NetlinkHeader::new(), payload: NetlinkPayload::Rtnl(message) }
    }

    pub fn header(&self) -> (r: &NetlinkHeader)
        ensures
            *r == self.header,
    {
        &self.header
    }

    pub fn payload(&self) -> (r: &NetlinkPayload)
        ensures
            *r == self.payload,
    {
        &self.payload
    }

    /// Reads a message from the front of `buffer`.
    pub fn parse(buffer: &[u8], order: ByteOrder) -> (r: Result<Self, DecodeError>)
        ensures
            parsed_view(r) == NetlinkMessageView::parse(buffer@, order),
    {
        let header = match NetlinkHeader::parse(buffer, order) {
            Ok(header) => header,
            Err(e) => {
                return Err(e);
            },
        };
        let length: usize = header.length as usize;
        if length < NETLINK_HEADER_LEN {
            return Err(DecodeError::Length { expected: NETLINK_HEADER_LEN, actual: length });
        }
        if length > buffer.len() {
            return Err(DecodeError::Length { expected: length, actual: buffer.len() });
        }
        let bytes = vstd::slice::slice_subrange(buffer, NETLINK_HEADER_LEN, length);
        match NetlinkPayload::parse(header.message_type, bytes, order) {
            Ok(payload) => Ok(NetlinkMessage { header, payload }),
            Err(e) => Err(e),
        }
    }

    /// The number of bytes that the message takes, if it can be written:
    /// every attribute is short enough and the size fits the length field.
    pub fn checked_buffer_len(&self) -> (r: Option<usize>)
        ensures
            r == (if self@.fits() {
                Some(self@.wire_len() as usize)
            } else {
                None
            }),
    {
        let limit: usize = (u32::MAX as usize) - NETLINK_HEADER_LEN;
        match self.payload.checked_buffer_len(limit) {
            Some(len) => Some(NETLINK_HEADER_LEN + len),
            None => None,
        }
    }

    /// The number of bytes that the message takes.
    pub fn buffer_len(&self) -> (r: usize)
        requires
            self@.payload.fits(),
            self@.wire_len() <= usize::MAX,
        ensures
            r == self@.wire_len(),
    {
        NETLINK_HEADER_LEN + self.payload.buffer_len()
    }

    /// Sets the length and the type code of the header to what the payload
    /// takes and is.
    pub fn finalize(&mut self)
        requires
            old(self)@.fits(),
        ensures
            final(self)@ == old(self)@.finalized(),
    {
        let len: usize = self.buffer_len();
        self.header.length = len as u32;
        self.header.message_type = self.payload.message_type();
    }

    /// Writes the message into the front of `buffer` and leaves the rest.
    /// The length and the type code are computed from the payload, whatever
    /// the header holds.
    pub fn emit(&self, buffer: &mut [u8], order: ByteOrder)
        requires
            self@.fits(),
            old(buffer).len() >= self@.wire_len(),
        ensures
            final(buffer)@ == self@.wire(order) + old(buffer)@.skip(self@.wire_len() as int),
    {
        proof {
            self@.lemma_wire_len(order);
        }
        let len: usize = self.buffer_len();
        let header = NetlinkHeader {
            length: len as u32,
            message_type: self.payload.message_type(),
            flags: self.header.flags,
            sequence_number: self.header.sequence_number,
            port_number: self.header.port_number,
        };
        let (message, _rest) = buffer.split_at_mut(len);
        let (head, body) = message.split_at_mut(NETLINK_HEADER_LEN);
        header.emit(head, order);
        self.payload.emit(body, order);
    }
}

} // verus!
