//! Address messages: an address of an interface and its attributes.
use vstd::prelude::*;
use crate::byte_order::{lemma_u32_round_trip, ByteOrder};
use crate::errors::DecodeError;
use crate::nla::{
    emit_nlas, ends_clean, lemma_nlas_round_trip, lemma_nlas_wire_len, nlas_buffer_len,
    nlas_canonical, nlas_checked_len, nlas_fit, nlas_parse, nlas_wire, nlas_wire_len,
    parse_nlas, parsed_view, views, Attribute, DefaultNla,
};

verus! {

/// The fixed head of an address message.
#[derive(Debug, Clone, Copy, PartialEq, Eq)]
pub struct AddressHeader {
    pub family: u8,
    pub prefix_len: u8,
    pub flags: u8,
    pub scope: u8,
    pub index: u32,
}

/// The number of bytes of the header.
pub const ADDRESS_HEADER_LEN: usize = 8;

impl AddressHeader {
    /// The header that the first 8 bytes of `b` hold, field by field.
    pub open spec fn at(b: Seq<u8>, order: ByteOrder) -> AddressHeader {
        AddressHeader {
            family: b[0],
            prefix_len: b[1],
            flags: b[2],
            scope: b[3],
            index: order.u32_from(b.subrange(4, 8)),
        }
    }

    /// The header that `b` holds, or a length error when `b` is shorter than
    /// the header.
    pub open spec fn parse_spec(b: Seq<u8>, order: ByteOrder) -> Result<
        AddressHeader,
        DecodeError,
    > {
        if b.len() >= ADDRESS_HEADER_LEN {
            Ok(AddressHeader::at(b, order))
        } else {
            Err(DecodeError::Length { expected: ADDRESS_HEADER_LEN, actual: b.len() as usize })
        }
    }

    /// The 8 bytes of the header. Bytes that no field covers are zero.
    pub open spec fn wire(self, order: ByteOrder) -> Seq<u8> {
        seq![self.family]
            + seq![self.prefix_len]
            + seq![self.flags]
            + seq![self.scope]
            + order.u32_bytes(self.index)
    }

    /// Reads the header from the front of `data`. Bytes after it are ignored.
    pub fn parse(data: &[u8], order: ByteOrder) -> (r: Result<AddressHeader, DecodeError>)
        ensures
            r == AddressHeader::parse_spec(data@, order),
    {
        if data.len() < ADDRESS_HEADER_LEN {
            return Err(DecodeError::Length { expected: ADDRESS_HEADER_LEN, actual: data.len() });
        }
        Ok(
            AddressHeader {
                family: data[0],
                prefix_len: data[1],
                flags: data[2],
                scope: data[3],
                index: order.read_u32(data, 4),
            },
        )
    }

    /// Writes the header into a buffer of exactly its size.
    pub fn emit(&self, buffer: &mut [u8], order: ByteOrder)
        requires
            old(buffer).len() == ADDRESS_HEADER_LEN,
        ensures
            final(buffer)@ == self.wire(order),
    {
        buffer[0] = self.family;
        buffer[1] = self.prefix_len;
        buffer[2] = self.flags;
        buffer[3] = self.scope;
        order.write_u32(buffer, 4, self.index);
        assert(buffer@ =~= self.wire(order));
    }

    /// The header takes 8 bytes, and reading what was written gives the
    /// value back, whatever follows it.
    pub proof fn lemma_round_trip(self, order: ByteOrder, tail: Seq<u8>)
        ensures
            self.wire(order).len() == ADDRESS_HEADER_LEN,
            AddressHeader::at(self.wire(order) + tail, order) == self,
            AddressHeader::parse_spec(self.wire(order) + tail, order) == Ok::<
                AddressHeader,
                DecodeError,
            >(self),
    {
        let b = self.wire(order) + tail;
        lemma_u32_round_trip(order, self.index);
        assert(b[0] == self.family);
        assert(b[1] == self.prefix_len);
        assert(b[2] == self.flags);
        assert(b[3] == self.scope);
        assert(b.subrange(4, 8) =~= order.u32_bytes(self.index));
    }
}

impl AddressHeader {
    /// The header with every field zero.
    pub fn new() -> (r: Self)
        ensures
            r == (AddressHeader { family: 0, prefix_len: 0, flags: 0, scope: 0, index: 0 }),
    {
        AddressHeader { family: 0, prefix_len: 0, flags: 0, scope: 0, index: 0 }
    }
}

/// A message about an address of an interface. Its attributes are kept by
/// kind and raw value.
#[derive(Debug, PartialEq, Eq, Clone)]
pub struct AddressMessage {
    pub header: AddressHeader,
    pub nlas: Vec<DefaultNla>,
}

/// The model of an address message.
pub struct AddressMessageView {
    pub header: AddressHeader,
    pub nlas: Seq<Attribute>,
}

impl View for AddressMessage {
    type V = AddressMessageView;

    open spec fn view(&self) -> AddressMessageView {
        AddressMessageView { header: self.header, nlas: views(self.nlas@) }
    }
}

impl AddressMessageView {
    /// The number of bytes of the message.
    pub open spec fn wire_len(self) -> nat {
        ADDRESS_HEADER_LEN as nat + nlas_wire_len(self.nlas)
    }

    /// The bytes of the message: the header, then the attributes.
    pub open spec fn wire(self, order: ByteOrder) -> Seq<u8> {
        self.header.wire(order) + nlas_wire(self.nlas, order)
    }

    /// Whether every attribute is short enough to be written.
    pub open spec fn fits(self) -> bool {
        nlas_fit(self.nlas)
    }

    /// The message that `b` holds: a length error when `b` is shorter than
    /// the header, else the header and the attributes that follow it, or the
    /// first error among them.
    pub open spec fn parse(b: Seq<u8>, order: ByteOrder) -> Result<
        AddressMessageView,
        DecodeError,
    > {
        if b.len() < ADDRESS_HEADER_LEN {
            Err(DecodeError::Length { expected: ADDRESS_HEADER_LEN, actual: b.len() as usize })
        } else {
            match nlas_parse::<Attribute>(b.skip(ADDRESS_HEADER_LEN as int), order) {
                Ok(nlas) => Ok(AddressMessageView { header: AddressHeader::at(b, order), nlas }),
                Err(e) => Err(e),
            }
        }
    }

    /// The bytes of a message are as many as its size says.
    pub proof fn lemma_wire_len(self, order: ByteOrder)
        ensures
            self.wire(order).len() == self.wire_len(),
    {
        self.header.lemma_round_trip(order, Seq::empty());
        lemma_nlas_wire_len(self.nlas, order);
    }

    /// Whether every attribute is one that comes back as it was written.
    pub open spec fn canonical(self) -> bool {
        nlas_canonical(self.nlas)
    }

    /// Reading a message that was written gives the message back, where
    /// every attribute fits and is canonical, and the last one is found
    /// again before the `tail` that follows the message.
    pub proof fn lemma_round_trip(self, tail: Seq<u8>, order: ByteOrder)
        requires
            self.fits(),
            self.canonical(),
            ends_clean(self.nlas, tail.len()),
        ensures
            AddressMessageView::parse(self.wire(order) + tail, order) == Ok::<
                AddressMessageView,
                DecodeError,
            >(self),
    {
        let rest = nlas_wire(self.nlas, order) + tail;
        let bytes = self.wire(order) + tail;
        self.header.lemma_round_trip(order, rest);
        assert(bytes =~= self.header.wire(order) + rest);
        assert(bytes.skip(ADDRESS_HEADER_LEN as int) =~= rest);
        lemma_nlas_round_trip(self.nlas, tail, order);
    }
}

impl AddressMessage {
    pub fn from_parts(header: AddressHeader, nlas: Vec<DefaultNla>) -> (r: Self)
        ensures
            r.header == header,
            r.nlas == nlas,
    {
        AddressMessage { header, nlas }
    }

    pub fn into_parts(self) -> (r: (AddressHeader, Vec<DefaultNla>))
        ensures
            r.0 == self.header,
            r.1 == self.nlas,
    {
        (self.header, self.nlas)
    }

    /// Reads a message.
    pub fn parse(buffer: &[u8], order: ByteOrder) -> (r: Result<Self, DecodeError>)
        ensures
            parsed_view(r) == AddressMessageView::parse(buffer@, order),
    {
        let header = match AddressHeader::parse(buffer, order) {
            Ok(header) => header,
            Err(e) => {
                return Err(e);
            },
        };
        let rest = vstd::slice::slice_subrange(buffer, ADDRESS_HEADER_LEN, buffer.len());
        assert(rest@ =~= buffer@.skip(ADDRESS_HEADER_LEN as int));
        match parse_nlas::<DefaultNla>(rest, order) {
            Ok(nlas) => Ok(AddressMessage { header, nlas }),
            Err(e) => Err(e),
        }
    }

    /// The number of bytes that the message takes, if every attribute can be
    /// written and the message takes no more than `limit` bytes.
    pub fn checked_buffer_len(&self, limit: usize) -> (r: Option<usize>)
        ensures
            r == (if self@.fits() && self@.wire_len() <= limit {
                Some(self@.wire_len() as usize)
            } else {
                None
            }),
    {
        if limit < ADDRESS_HEADER_LEN {
            return None;
        }
        match nlas_checked_len(&self.nlas, limit - ADDRESS_HEADER_LEN) {
            Some(len) => Some(ADDRESS_HEADER_LEN + len),
            None => None,
        }
    }

    /// The number of bytes that the message takes.
    pub fn buffer_len(&self) -> (r: usize)
        requires
            self@.fits(),
            self@.wire_len() <= usize::MAX,
        ensures
            r == self@.wire_len(),
    {
        ADDRESS_HEADER_LEN + nlas_buffer_len(&self.nlas)
    }

    /// Writes the message into the front of `buffer` and leaves the rest.
    pub fn emit(&self, buffer: &mut [u8], order: ByteOrder)
        requires
            self@.fits(),
            old(buffer).len() >= self@.wire_len(),
        ensures
            final(buffer)@ == self@.wire(order) + old(buffer)@.skip(self@.wire_len() as int),
    {
        proof {
            self@.lemma_wire_len(order);
        }
        let len: usize = self.buffer_len();
        let (message, _rest) = buffer.split_at_mut(len);
        let (header, nlas) = message.split_at_mut(ADDRESS_HEADER_LEN);
        self.header.emit(header, order);
        emit_nlas(&self.nlas, nlas, order);
    }
}

} // verus!
