//! Link messages: a network interface and its attributes.
use vstd::prelude::*;
use crate::byte_order::{lemma_u16_round_trip, lemma_u32_round_trip, zeros, ByteOrder};
use crate::errors::DecodeError;
use crate::nla::{
    emit_nlas, ends_clean, lemma_nlas_round_trip, lemma_nlas_wire_len, nlas_buffer_len,
    nlas_canonical, nlas_checked_len, nlas_fit, nlas_parse, nlas_wire, nlas_wire_len,
    parse_nlas, parsed_view, views, Attribute, DefaultNla,
};

verus! {

/// The fixed head of a link message.
#[derive(Debug, Clone, Copy, PartialEq, Eq)]
pub struct LinkHeader {
    pub address_family: u8,
    pub link_layer_type: u16,
    pub index: u32,
    pub flags: u32,
    pub change_mask: u32,
}

/// The number of bytes of the header.
pub const LINK_HEADER_LEN: usize = 16;

impl LinkHeader {
    /// The header that the first 16 bytes of `b` hold, field by field.
    pub open spec fn at(b: Seq<u8>, order: ByteOrder) -> LinkHeader {
        LinkHeader {
            address_family: b[0],
            link_layer_type: order.u16_from(b.subrange(2, 4)),
            index: order.u32_from(b.subrange(4, 8)),
            flags: order.u32_from(b.subrange(8, 12)),
            change_mask: order.u32_from(b.subrange(12, 16)),
        }
    }

    /// The header that `b` holds, or a length error when `b` is shorter than
    /// the header.
    pub open spec fn parse_spec(b: Seq<u8>, order: ByteOrder) -> Result<LinkHeader, DecodeError> {
        if b.len() >= LINK_HEADER_LEN {
            Ok(LinkHeader::at(b, order))
        } else {
            Err(DecodeError::Length { expected: LINK_HEADER_LEN, actual: b.len() as usize })
        }
    }

    /// The 16 bytes of the header. Bytes that no field covers are zero.
    pub open spec fn wire(self, order: ByteOrder) -> Seq<u8> {
        seq![self.address_family]
            + zeros(1)
            + order.u16_bytes(self.link_layer_type)
            + order.u32_bytes(self.index)
            + order.u32_bytes(self.flags)
            + order.u32_bytes(self.change_mask)
    }

    /// Reads the header from the front of `data`. Bytes after it are ignored.
    pub fn parse(data: &[u8], order: ByteOrder) -> (r: Result<LinkHeader, DecodeError>)
        ensures
            r == LinkHeader::parse_spec(data@, order),
    {
        if data.len() < LINK_HEADER_LEN {
            return Err(DecodeError::Length { expected: LINK_HEADER_LEN, actual: data.len() });
        }
        Ok(
            LinkHeader {
                address_family: data[0],
                link_layer_type: order.read_u16(data, 2),
                index: order.read_u32(data, 4),
                flags: order.read_u32(data, 8),
                change_mask: order.read_u32(data, 12),
            },
        )
    }

    /// Writes the header into a buffer of exactly its size.
    pub fn emit(&self, buffer: &mut [u8], order: ByteOrder)
        requires
            old(buffer).len() == LINK_HEADER_LEN,
        ensures
            final(buffer)@ == self.wire(order),
    {
        buffer[0] = self.address_family;
        buffer[1] = 0;
        order.write_u16(buffer, 2, self.link_layer_type);
        order.write_u32(buffer, 4, self.index);
        order.write_u32(buffer, 8, self.flags);
        order.write_u32(buffer, 12, self.change_mask);
        assert(buffer@ =~= self.wire(order));
    }

    /// The header takes 16 bytes, and reading what was written gives the
    /// value back, whatever follows it.
    pub proof fn lemma_round_trip(self, order: ByteOrder, tail: Seq<u8>)
        ensures
            self.wire(order).len() == LINK_HEADER_LEN,
            LinkHeader::at(self.wire(order) + tail, order) == self,
            LinkHeader::parse_spec(self.wire(order) + tail, order) == Ok::<
                LinkHeader,
                DecodeError,
            >(self),
    {
        let b = self.wire(order) + tail;
        lemma_u16_round_trip(order, self.link_layer_type);
        lemma_u32_round_trip(order, self.index);
        lemma_u32_round_trip(order, self.flags);
        lemma_u32_round_trip(order, self.change_mask);
        assert(b[0] == self.address_family);
        assert(b.subrange(2, 4) =~= order.u16_bytes(self.link_layer_type));
        assert(b.subrange(4, 8) =~= order.u32_bytes(self.index));
        assert(b.subrange(8, 12) =~= order.u32_bytes(self.flags));
        assert(b.subrange(12, 16) =~= order.u32_bytes(self.change_mask));
    }
}

impl LinkHeader {
    /// The header with every field zero.
    pub fn new() -> (r: Self)
        ensures
            r == (LinkHeader {
                address_family: 0,
                link_layer_type: 0,
                index: 0,
                flags: 0,
                change_mask: 0,
            }),
    {
        LinkHeader { address_family: 0, link_layer_type: 0, index: 0, flags: 0, change_mask: 0 }
    }
}

/// A message about a network interface. Its attributes are kept by kind
/// and raw value.
#[derive(Debug, PartialEq, Eq, Clone)]
pub struct LinkMessage {
    pub header: LinkHeader,
    pub nlas: Vec<DefaultNla>,
}

/// The model of a link message.
pub struct LinkMessageView {
    pub header: LinkHeader,
    pub nlas: Seq<Attribute>,
}

impl View for LinkMessage {
    type V = LinkMessageView;

    open spec fn view(&self) -> LinkMessageView {
        LinkMessageView { header: self.header, nlas: views(self.nlas@) }
    }
}

impl LinkMessageView {
    /// The number of bytes of the message.
    pub open spec fn wire_len(self) -> nat {
        LINK_HEADER_LEN as nat + nlas_wire_len(self.nlas)
    }

    /// The bytes of the message: the header, then the attributes.
    pub open spec fn wire(self, order: ByteOrder) -> Seq<u8> {
        self.header.wire(order) + nlas_wire(self.nlas, order)
    }

    /// Whether every attribute is short enough to be written.
    pub open spec fn fits(self) -> bool {
        nlas_fit(self.nlas)
    }

    /// The message that `b` holds: a length error when `b` is shorter than
    /// the header, else the header and the attributes that follow it, or the
    /// first error among them.
    pub open spec fn parse(b: Seq<u8>, order: ByteOrder) -> Result<LinkMessageView, DecodeError> {
        if b.len() < LINK_HEADER_LEN {
            Err(DecodeError::Length { expected: LINK_HEADER_LEN, actual: b.len() as usize })
        } else {
            match nlas_parse::<Attribute>(b.skip(LINK_HEADER_LEN as int), order) {
                Ok(nlas) => Ok(LinkMessageView { header: LinkHeader::at(b, order), nlas }),
                Err(e) => Err(e),
            }
        }
    }

    /// The bytes of a message are as many as its size says.
    pub proof fn lemma_wire_len(self, order: ByteOrder)
        ensures
            self.wire(order).len() == self.wire_len(),
    {
        self.header.lemma_round_trip(order, Seq::empty());
        lemma_nlas_wire_len(self.nlas, order);
    }

    /// Whether every attribute is one that comes back as it was written.
    pub open spec fn canonical(self) -> bool {
        nlas_canonical(self.nlas)
    }

    /// Reading a message that was written gives the message back, where
    /// every attribute fits and is canonical, and the last one is found
    /// again before the `tail` that follows the message.
    pub proof fn lemma_round_trip(self, tail: Seq<u8>, order: ByteOrder)
        requires
            self.fits(),
            self.canonical(),
            ends_clean(self.nlas, tail.len()),
        ensures
            LinkMessageView::parse(self.wire(order) + tail, order) == Ok::<
                LinkMessageView,
                DecodeError,
            >(self),
    {
        let rest = nlas_wire(self.nlas, order) + tail;
        let bytes = self.wire(order) + tail;
        self.header.lemma_round_trip(order, rest);
        assert(bytes =~= self.header.wire(order) + rest);
        assert(bytes.skip(LINK_HEADER_LEN as int) =~= rest);
        lemma_nlas_round_trip(self.nlas, tail, order);
    }
}

impl LinkMessage {
    pub fn from_parts(header: LinkHeader, nlas: Vec<DefaultNla>) -> (r: Self)
        ensures
            r.header == header,
            r.nlas == nlas,
    {
        LinkMessage { header, nlas }
    }

    pub fn into_parts(self) -> (r: (LinkHeader, Vec<DefaultNla>))
        ensures
            r.0 == self.header,
            r.1 == self.nlas,
    {
        (self.header, self.nlas)
    }

    /// Reads a message.
    pub fn parse(buffer: &[u8], order: ByteOrder) -> (r: Result<Self, DecodeError>)
        ensures
            parsed_view(r) == LinkMessageView::parse(buffer@, order),
    {
        let header = match LinkHeader::parse(buffer, order) {
            Ok(header) => header,
            Err(e) => {
                return Err(e);
            },
        };
        let rest = vstd::slice::slice_subrange(buffer, LINK_HEADER_LEN, buffer.len());
        assert(rest@ =~= buffer@.skip(LINK_HEADER_LEN as int));
        match parse_nlas::<DefaultNla>(rest, order) {
            Ok(nlas) => Ok(LinkMessage { header, nlas }),
            Err(e) => Err(e),
        }
    }

    /// The number of bytes that the message takes, if every attribute can be
    /// written and the message takes no more than `limit` bytes.
    pub fn checked_buffer_len(&self, limit: usize) -> (r: Option<usize>)
        ensures
            r == (if self@.fits() && self@.wire_len() <= limit {
                Some(self@.wire_len() as usize)
            } else {
                None
            }),
    {
        if limit < LINK_HEADER_LEN {
            return None;
        }
        match nlas_checked_len(&self.nlas, limit - LINK_HEADER_LEN) {
            Some(len) => Some(LINK_HEADER_LEN + len),
            None => None,
        }
    }

    /// The number of bytes that the message takes.
    pub fn buffer_len(&self) -> (r: usize)
        requires
            self@.fits(),
            self@.wire_len() <= usize::MAX,
        ensures
            r == self@.wire_len(),
    {
        LINK_HEADER_LEN + nlas_buffer_len(&self.nlas)
    }

    /// Writes the message into the front of `buffer` and leaves the rest.
    pub fn emit(&self, buffer: &mut [u8], order: ByteOrder)
        requires
            self@.fits(),
            old(buffer).len() >= self@.wire_len(),
        ensures
            final(buffer)@ == self@.wire(order) + old(buffer)@.skip(self@.wire_len() as int),
    {
        proof {
            self@.lemma_wire_len(order);
        }
        let len: usize = self.buffer_len();
        let (message, _rest) = buffer.split_at_mut(len);
        let (header, nlas) = message.split_at_mut(LINK_HEADER_LEN);
        self.header.emit(header, order);
        emit_nlas(&self.nlas, nlas, order);
    }
}

} // verus!
