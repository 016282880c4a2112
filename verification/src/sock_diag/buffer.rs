//! Views over the fixed layouts of socket diagnostics: the socket id, the
//! request and the head of a response. A view reads and writes fields in
//! place; ports are in network order, the other integers in the order that
//! the view was made with.
//!
//! A view that writes borrows its bytes. Each setter says what the bytes are
//! after the call, and also that the view still borrows the same bytes, so
//! that the owner of the buffer finds in it what was written through the
//! view.
use vstd::prelude::*;
use vstd::slice::slice_subrange;
use crate::byte_order::{ByteOrder, splice, u16_from_be, u16_to_be, zeros};
use crate::errors::DecodeError;
use crate::nla::{attributes_from, parsed_view, Attribute, NlaParseModel, NlasIterator};
use crate::sock_diag::addr::{IpAddr, SocketAddr};
use crate::sock_diag::attr::{InetDiagAttr, InetDiagAttrView};
use crate::sock_diag::flags::{Extensions, TcpState, TcpStates};

verus! {

/// Size of a socket id.
pub const IDIAG_ID_SIZE: usize = 48;

/// Size of a request.
pub const IDIAG_REQ_SIZE: usize = 56;

/// Size of the fixed head of a response.
pub const IDIAG_RES_SIZE: usize = 72;

/// Source port of a socket id.
pub open spec fn id_sport(b: Seq<u8>) -> u16 {
    u16_from_be(b.subrange(0, 2))
}

/// Destination port of a socket id.
pub open spec fn id_dport(b: Seq<u8>) -> u16 {
    u16_from_be(b.subrange(2, 4))
}

/// The sixteen bytes of the source address of a socket id.
pub open spec fn id_src(b: Seq<u8>) -> Seq<u8> {
    b.subrange(4, 20)
}

/// The sixteen bytes of the destination address of a socket id.
pub open spec fn id_dst(b: Seq<u8>) -> Seq<u8> {
    b.subrange(20, 36)
}

/// Interface index of a socket id.
pub open spec fn id_interface(b: Seq<u8>, order: ByteOrder) -> u32 {
    order.u32_from(b.subrange(36, 40))
}

/// The 64-bit pattern of the cookie of a socket id: the low half stands
/// first.
pub open spec fn id_cookie_bits(b: Seq<u8>, order: ByteOrder) -> u64 {
    (order.u32_from(b.subrange(40, 44)) as int + order.u32_from(b.subrange(44, 48)) as int
        * 0x1_0000_0000) as u64
}

/// Cookie of a socket id: absent when all 64 bits are set.
pub open spec fn id_cookie(b: Seq<u8>, order: ByteOrder) -> Option<u64> {
    if id_cookie_bits(b, order) == 0xFFFF_FFFF_FFFF_FFFFu64 {
        None
    } else {
        Some(id_cookie_bits(b, order))
    }
}

/// The cookie is absent exactly when both of its halves have all bits set;
/// any other pattern is the cookie `low + (high << 32)`.
pub proof fn lemma_cookie_sentinel(b: Seq<u8>, order: ByteOrder)
    ensures
        id_cookie(b, order) is None <==> (order.u32_from(b.subrange(40, 44)) == 0xFFFF_FFFFu32
            && order.u32_from(b.subrange(44, 48)) == 0xFFFF_FFFFu32),
        id_cookie(b, order) matches Some(cookie) ==> cookie == (order.u32_from(
            b.subrange(40, 44),
        ) as u64) + ((order.u32_from(b.subrange(44, 48)) as u64) << 32),
{
    let low = order.u32_from(b.subrange(40, 44));
    let high = order.u32_from(b.subrange(44, 48));
    assert((high as u64) << 32 == (high as u64) * 0x1_0000_0000) by (bit_vector);
}

/// A cookie that was written is read back, unless it is the pattern that
/// stands for no cookie.
pub proof fn lemma_cookie_round_trip(
    head: Seq<u8>,
    cookie: u64,
    order: ByteOrder,
    rest: Seq<u8>,
)
    requires
        head.len() == 40,
    ensures
        cookie_bytes(cookie, order).len() == 8,
        id_cookie(head + cookie_bytes(cookie, order) + rest, order) == (if cookie
            == 0xFFFF_FFFF_FFFF_FFFFu64 {
            None
        } else {
            Some(cookie)
        }),
{
    let b = head + cookie_bytes(cookie, order) + rest;
    let low = (cookie % 0x1_0000_0000) as u32;
    let high = (cookie / 0x1_0000_0000) as u32;
    crate::byte_order::lemma_u32_round_trip(order, low);
    crate::byte_order::lemma_u32_round_trip(order, high);
    assert(b.subrange(40, 44) =~= order.u32_bytes(low));
    assert(b.subrange(44, 48) =~= order.u32_bytes(high));
}

/// The eight bytes of a cookie: the low half, then the high half.
pub open spec fn cookie_bytes(cookie: u64, order: ByteOrder) -> Seq<u8> {
    order.u32_bytes((cookie % 0x1_0000_0000) as u32) + order.u32_bytes(
        (cookie / 0x1_0000_0000) as u32,
    )
}

/// The sixteen bytes of an address field: the bytes of the address, then
/// zeros.
pub open spec fn addr_field(octets: Seq<u8>) -> Seq<u8> {
    octets + zeros((16 - octets.len()) as nat)
}

/// A view over a socket id.
#[derive(Debug, PartialEq, Eq, Clone)]
pub struct SocketIdBuffer<T> {
    pub buffer: T,
    pub order: ByteOrder,
}

impl<T> SocketIdBuffer<T> {
    /// A view in the order of the machine.
    pub fn new(buffer: T) -> (r: SocketIdBuffer<T>)
        ensures
            r.buffer == buffer,
    {
        SocketIdBuffer { buffer, order: ByteOrder::native() }
    }

    /// A view in the given order.
    pub fn with_order(buffer: T, order: ByteOrder) -> (r: SocketIdBuffer<T>)
        ensures
            r.buffer == buffer,
            r.order == order,
    {
        SocketIdBuffer { buffer, order }
    }

    pub fn len() -> (r: usize)
        ensures
            r == IDIAG_ID_SIZE,
    {
        IDIAG_ID_SIZE
    }
}

/// The four bytes of `buffer` from `at` on.
fn read_octets4(buffer: &[u8], at: usize) -> (r: [u8; 4])
    requires
        at + 4 <= buffer.len(),
    ensures
        r@ == buffer@.subrange(at as int, at + 4),
{
    let r: [u8; 4] = [buffer[at], buffer[at + 1], buffer[at + 2], buffer[at + 3]];
    assert(r@ =~= buffer@.subrange(at as int, at + 4));
    r
}

/// The sixteen bytes of `buffer` from `at` on.
fn read_octets16(buffer: &[u8], at: usize) -> (r: [u8; 16])
    requires
        at + 16 <= buffer.len(),
    ensures
        r@ == buffer@.subrange(at as int, at + 16),
{
    let r: [u8; 16] = [
        buffer[at],
        buffer[at + 1],
        buffer[at + 2],
        buffer[at + 3],
        buffer[at + 4],
        buffer[at + 5],
        buffer[at + 6],
        buffer[at + 7],
        buffer[at + 8],
        buffer[at + 9],
        buffer[at + 10],
        buffer[at + 11],
        buffer[at + 12],
        buffer[at + 13],
        buffer[at + 14],
        buffer[at + 15],
    ];
    assert(r@ =~= buffer@.subrange(at as int, at + 16));
    r
}

/// Writes an address into the sixteen bytes from `at` on: its bytes, then
/// zeros.
pub(crate) fn write_addr_field(buffer: &mut [u8], at: usize, octets: &[u8])
    requires
        at + 16 <= old(buffer).len(),
        octets.len() <= 16,
    ensures
        final(buffer)@ == splice(old(buffer)@, at as int, addr_field(octets@)),
{
    let n: usize = octets.len();
    let mut i: usize = 0;
    while i < 16
        invariant
            i <= 16,
            n == octets.len(),
            n <= 16,
            buffer.len() == old(buffer).len(),
            at + 16 <= buffer.len(),
            forall|j: int| 0 <= j < at || at + 16 <= j < buffer.len() ==> buffer@[j] == old(
                buffer,
            )@[j],
            forall|j: int| 0 <= j < i ==> buffer@[at + j] == addr_field(octets@)[j],
        decreases 16 - i,
    {
        if i < n {
            buffer[at + i] = octets[i];
        } else {
            buffer[at + i] = 0;
        }
        i += 1;
    }
    assert(buffer@ =~= splice(old(buffer)@, at as int, addr_field(octets@)));
}

impl<'a> SocketIdBuffer<&'a [u8]> {
    pub fn sport(&self) -> (r: u16)
        requires
            self.buffer@.len() >= IDIAG_ID_SIZE,
        ensures
            r == id_sport(self.buffer@),
    {
        ByteOrder::BigEndian.read_u16(self.buffer, 0)
    }

    pub fn dport(&self) -> (r: u16)
        requires
            self.buffer@.len() >= IDIAG_ID_SIZE,
        ensures
            r == id_dport(self.buffer@),
    {
        ByteOrder::BigEndian.read_u16(self.buffer, 2)
    }

    /// The source address, read as one of IPv4: the first four bytes of the
    /// field.
    pub fn src_ipv4(&self) -> (r: [u8; 4])
        requires
            self.buffer@.len() >= IDIAG_ID_SIZE,
        ensures
            r@ == id_src(self.buffer@).subrange(0, 4),
    {
        let r = read_octets4(self.buffer, 4);
        assert(r@ =~= id_src(self.buffer@).subrange(0, 4));
        r
    }

    /// The source address, read as one of IPv6.
    pub fn src_ipv6(&self) -> (r: [u8; 16])
        requires
            self.buffer@.len() >= IDIAG_ID_SIZE,
        ensures
            r@ == id_src(self.buffer@),
    {
        read_octets16(self.buffer, 4)
    }

    /// The destination address, read as one of IPv4: the first four bytes
    /// of the field.
    pub fn dst_ipv4(&self) -> (r: [u8; 4])
        requires
            self.buffer@.len() >= IDIAG_ID_SIZE,
        ensures
            r@ == id_dst(self.buffer@).subrange(0, 4),
    {
        let r = read_octets4(self.buffer, 20);
        assert(r@ =~= id_dst(self.buffer@).subrange(0, 4));
        r
    }

    /// The destination address, read as one of IPv6.
    pub fn dst_ipv6(&self) -> (r: [u8; 16])
        requires
            self.buffer@.len() >= IDIAG_ID_SIZE,
        ensures
            r@ == id_dst(self.buffer@),
    {
        read_octets16(self.buffer, 20)
    }

    pub fn interface(&self) -> (r: u32)
        requires
            self.buffer@.len() >= IDIAG_ID_SIZE,
        ensures
            r == id_interface(self.buffer@, self.order),
    {
        self.order.read_u32(self.buffer, 36)
    }

    /// The cookie, unless all its 64 bits are set.
    pub fn cookie(&self) -> (r: Option<u64>)
        requires
            self.buffer@.len() >= IDIAG_ID_SIZE,
        ensures
            r == id_cookie(self.buffer@, self.order),
    {
        let low: u32 = self.order.read_u32(self.buffer, 40);
        let high: u32 = self.order.read_u32(self.buffer, 44);
        let cookie: u64 = (low as u64) + (high as u64) * 0x1_0000_0000;
        if cookie == 0xFFFF_FFFF_FFFF_FFFF {
            None
        } else {
            Some(cookie)
        }
    }
}

impl<'a> SocketIdBuffer<&'a mut [u8]> {
    pub fn set_sport(&mut self, port: u16)
        requires
            old(self).buffer@.len() >= IDIAG_ID_SIZE,
        ensures
            final(self).buffer@ == splice(old(self).buffer@, 0, u16_to_be(port)),
            final(self).order == old(self).order,
            final(final(self).buffer)@ == final(old(self).buffer)@,
    {
        ByteOrder::BigEndian.write_u16(self.buffer, 0, port);
    }

    pub fn set_dport(&mut self, port: u16)
        requires
            old(self).buffer@.len() >= IDIAG_ID_SIZE,
        ensures
            final(self).buffer@ == splice(old(self).buffer@, 2, u16_to_be(port)),
            final(self).order == old(self).order,
            final(final(self).buffer)@ == final(old(self).buffer)@,
    {
        ByteOrder::BigEndian.write_u16(self.buffer, 2, port);
    }

    /// Writes the source address and port.
    pub fn set_src_addr(&mut self, addr: &SocketAddr)
        requires
            old(self).buffer@.len() >= IDIAG_ID_SIZE,
        ensures
            final(self).buffer@ == splice(
                splice(old(self).buffer@, 4, addr_field(addr.ip.octets())),
                0,
                u16_to_be(addr.port),
            ),
            final(self).order == old(self).order,
            final(final(self).buffer)@ == final(old(self).buffer)@,
    {
        match &addr.ip {
            IpAddr::V4(ip) => {
                self.set_src_ipv4(ip);
            },
            IpAddr::V6(ip) => {
                self.set_src_ipv6(ip);
            },
        }
        self.set_sport(addr.port);
    }

    /// Writes an IPv4 source address: its four bytes, and zeros in the rest
    /// of the field.
    pub fn set_src_ipv4(&mut self, addr: &[u8; 4])
        requires
            old(self).buffer@.len() >= IDIAG_ID_SIZE,
        ensures
            final(self).buffer@ == splice(old(self).buffer@, 4, addr_field(addr@)),
            final(self).order == old(self).order,
            final(final(self).buffer)@ == final(old(self).buffer)@,
    {
        write_addr_field(self.buffer, 4, addr.as_slice());
    }

    pub fn set_src_ipv6(&mut self, addr: &[u8; 16])
        requires
            old(self).buffer@.len() >= IDIAG_ID_SIZE,
        ensures
            final(self).buffer@ == splice(old(self).buffer@, 4, addr_field(addr@)),
            final(self).order == old(self).order,
            final(final(self).buffer)@ == final(old(self).buffer)@,
    {
        write_addr_field(self.buffer, 4, addr.as_slice());
    }

    /// Writes the destination address and port.
    pub fn set_dst_addr(&mut self, addr: &SocketAddr)
        requires
            old(self).buffer@.len() >= IDIAG_ID_SIZE,
        ensures
            final(self).buffer@ == splice(
                splice(old(self).buffer@, 20, addr_field(addr.ip.octets())),
                2,
                u16_to_be(addr.port),
            ),
            final(self).order == old(self).order,
            final(final(self).buffer)@ == final(old(self).buffer)@,
    {
        match &addr.ip {
            IpAddr::V4(ip) => {
                self.set_dst_ipv4(ip);
            },
            IpAddr::V6(ip) => {
                self.set_dst_ipv6(ip);
            },
        }
        self.set_dport(addr.port);
    }

    /// Writes an IPv4 destination address: its four bytes, and zeros in the
    /// rest of the field.
    pub fn set_dst_ipv4(&mut self, addr: &[u8; 4])
        requires
            old(self).buffer@.len() >= IDIAG_ID_SIZE,
        ensures
            final(self).buffer@ == splice(old(self).buffer@, 20, addr_field(addr@)),
            final(self).order == old(self).order,
            final(final(self).buffer)@ == final(old(self).buffer)@,
    {
        write_addr_field(self.buffer, 20, addr.as_slice());
    }

    pub fn set_dst_ipv6(&mut self, addr: &[u8; 16])
        requires
            old(self).buffer@.len() >= IDIAG_ID_SIZE,
        ensures
            final(self).buffer@ == splice(old(self).buffer@, 20, addr_field(addr@)),
            final(self).order == old(self).order,
            final(final(self).buffer)@ == final(old(self).buffer)@,
    {
        write_addr_field(self.buffer, 20, addr.as_slice());
    }

    pub fn set_interface(&mut self, intf: u32)
        requires
            old(self).buffer@.len() >= IDIAG_ID_SIZE,
        ensures
            final(self).buffer@ == splice(old(self).buffer@, 36, old(self).order.u32_bytes(intf)),
            final(self).order == old(self).order,
            final(final(self).buffer)@ == final(old(self).buffer)@,
    {
        self.order.write_u32(self.buffer, 36, intf);
    }

    /// Writes the cookie as two 32-bit halves, the low half first.
    pub fn set_cookie(&mut self, cookie: u64)
        requires
            old(self).buffer@.len() >= IDIAG_ID_SIZE,
        ensures
            final(self).buffer@ == splice(
                old(self).buffer@,
                40,
                cookie_bytes(cookie, old(self).order),
            ),
            final(self).order == old(self).order,
            final(final(self).buffer)@ == final(old(self).buffer)@,
    {
        let low: u32 = (cookie % 0x1_0000_0000) as u32;
        let high: u32 = (cookie / 0x1_0000_0000) as u32;
        self.order.write_u32(self.buffer, 40, low);
        self.order.write_u32(self.buffer, 44, high);
        assert(self.buffer@ =~= splice(old(self).buffer@, 40, cookie_bytes(cookie, self.order)));
    }
}

/// A view over a request.
#[derive(Debug, PartialEq, Eq, Clone)]
pub struct InetDiagReqV2Buffer<T> {
    pub buffer: T,
    pub order: ByteOrder,
}

impl<T> InetDiagReqV2Buffer<T> {
    /// A view in the order of the machine.
    pub fn new(buffer: T) -> (r: InetDiagReqV2Buffer<T>)
        ensures
            r.buffer == buffer,
    {
        InetDiagReqV2Buffer { buffer, order: ByteOrder::native() }
    }

    /// A view in the given order.
    pub fn with_order(buffer: T, order: ByteOrder) -> (r: InetDiagReqV2Buffer<T>)
        ensures
            r.buffer == buffer,
            r.order == order,
    {
        InetDiagReqV2Buffer { buffer, order }
    }

    pub fn len() -> (r: usize)
        ensures
            r == IDIAG_REQ_SIZE,
    {
        IDIAG_REQ_SIZE
    }
}

impl<'a> InetDiagReqV2Buffer<&'a [u8]> {
    pub fn family(&self) -> (r: u8)
        requires
            self.buffer@.len() >= IDIAG_REQ_SIZE,
        ensures
            r == self.buffer@[0],
    {
        self.buffer[0]
    }

    pub fn protocol(&self) -> (r: u8)
        requires
            self.buffer@.len() >= IDIAG_REQ_SIZE,
        ensures
            r == self.buffer@[1],
    {
        self.buffer[1]
    }

    pub fn extensions(&self) -> (r: Extensions)
        requires
            self.buffer@.len() >= IDIAG_REQ_SIZE,
        ensures
            r.bits == self.buffer@[2] & 0xFF,
    {
        Extensions::from_bits_truncate(self.buffer[2])
    }

    /// The set of states; bits that stand for no state are dropped.
    pub fn states(&self) -> (r: TcpStates)
        requires
            self.buffer@.len() >= IDIAG_REQ_SIZE,
        ensures
            r.bits == self.order.u32_from(self.buffer@.subrange(4, 8)) & crate::constants::TCPF_ALL,
    {
        TcpStates::from_bits_truncate(self.order.read_u32(self.buffer, 4))
    }

    /// A view over the socket id of the request.
    pub fn id(&self) -> (r: SocketIdBuffer<&'a [u8]>)
        requires
            self.buffer@.len() >= IDIAG_REQ_SIZE,
        ensures
            r.buffer@ == self.buffer@.subrange(8, 56),
            r.order == self.order,
    {
        SocketIdBuffer { buffer: slice_subrange(self.buffer, 8, 56), order: self.order }
    }
}

impl<'a> InetDiagReqV2Buffer<&'a mut [u8]> {
    pub fn set_family(&mut self, family: u8)
        requires
            old(self).buffer@.len() >= IDIAG_REQ_SIZE,
        ensures
            final(self).buffer@ == old(self).buffer@.update(0, family),
            final(self).order == old(self).order,
            final(final(self).buffer)@ == final(old(self).buffer)@,
    {
        self.buffer[0] = family;
    }

    pub fn set_protocol(&mut self, protocol: u8)
        requires
            old(self).buffer@.len() >= IDIAG_REQ_SIZE,
        ensures
            final(self).buffer@ == old(self).buffer@.update(1, protocol),
            final(self).order == old(self).order,
            final(final(self).buffer)@ == final(old(self).buffer)@,
    {
        self.buffer[1] = protocol;
    }

    pub fn set_extensions(&mut self, ext: Extensions)
        requires
            old(self).buffer@.len() >= IDIAG_REQ_SIZE,
        ensures
            final(self).buffer@ == old(self).buffer@.update(2, ext.bits),
            final(self).order == old(self).order,
            final(final(self).buffer)@ == final(old(self).buffer)@,
    {
        self.buffer[2] = ext.bits();
    }

    pub fn set_states(&mut self, states: TcpStates)
        requires
            old(self).buffer@.len() >= IDIAG_REQ_SIZE,
        ensures
            final(self).buffer@ == splice(
                old(self).buffer@,
                4,
                old(self).order.u32_bytes(states.bits),
            ),
            final(self).order == old(self).order,
            final(final(self).buffer)@ == final(old(self).buffer)@,
    {
        self.order.write_u32(self.buffer, 4, states.bits());
    }

    /// A view over the socket id of the request, through which it can be
    /// written. What is written there is written into the request.
    pub fn id_mut(&mut self) -> (r: SocketIdBuffer<&mut [u8]>)
        requires
            old(self).buffer@.len() >= IDIAG_REQ_SIZE,
        ensures
            r.buffer@ == old(self).buffer@.subrange(8, 56),
            r.order == old(self).order,
            final(self).buffer@ == old(self).buffer@.subrange(0, 8) + final(r.buffer)@ + old(
                self,
            ).buffer@.skip(56),
            final(self).order == old(self).order,
            final(final(self).buffer)@ == final(old(self).buffer)@,
    {
        let order = self.order;
        let (_head, rest) = self.buffer.split_at_mut(8);
        let (id, _tail) = rest.split_at_mut(IDIAG_ID_SIZE);
        SocketIdBuffer { buffer: id, order }
    }
}

/// The time until the timer of a socket fires, in milliseconds, or nothing
/// when the field is zero and no timer runs.
pub open spec fn expires_of(b: Seq<u8>, order: ByteOrder) -> Option<u32> {
    if order.u32_from(b.subrange(52, 56)) == 0 {
        None
    } else {
        Some(order.u32_from(b.subrange(52, 56)))
    }
}

/// A view over a response: a fixed head and the extensions that follow it.
#[derive(Debug, PartialEq, Eq, Clone)]
pub struct InetDiagMsgBuffer<T> {
    pub buffer: T,
    pub order: ByteOrder,
}

impl<T> InetDiagMsgBuffer<T> {
    /// A view in the order of the machine.
    pub fn new(buffer: T) -> (r: InetDiagMsgBuffer<T>)
        ensures
            r.buffer == buffer,
    {
        InetDiagMsgBuffer { buffer, order: ByteOrder::native() }
    }

    /// A view in the given order.
    pub fn with_order(buffer: T, order: ByteOrder) -> (r: InetDiagMsgBuffer<T>)
        ensures
            r.buffer == buffer,
            r.order == order,
    {
        InetDiagMsgBuffer { buffer, order }
    }

    pub fn len() -> (r: usize)
        ensures
            r == IDIAG_RES_SIZE,
    {
        IDIAG_RES_SIZE
    }
}

impl<'a> InetDiagMsgBuffer<&'a [u8]> {
    /// A view in the order of the machine over a buffer that is long enough
    /// for the fixed head, or a length error that names both sizes.
    pub fn new_checked(buffer: &'a [u8]) -> (r: Result<Self, DecodeError>)
        ensures
            buffer@.len() >= IDIAG_RES_SIZE ==> r is Ok && r->Ok_0.buffer == buffer,
            buffer@.len() < IDIAG_RES_SIZE ==> r == Err::<Self, DecodeError>(
                DecodeError::Length { expected: IDIAG_RES_SIZE, actual: buffer@.len() as usize },
            ),
    {
        let packet = Self::new(buffer);
        match packet.check_len() {
            Ok(_) => Ok(packet),
            Err(e) => Err(e),
        }
    }

    /// Whether the buffer is long enough for the fixed head.
    pub fn check_len(&self) -> (r: Result<(), DecodeError>)
        ensures
            self.buffer@.len() >= IDIAG_RES_SIZE ==> r is Ok,
            self.buffer@.len() < IDIAG_RES_SIZE ==> r == Err::<(), DecodeError>(
                DecodeError::Length {
                    expected: IDIAG_RES_SIZE,
                    actual: self.buffer@.len() as usize,
                },
            ),
    {
        let len: usize = self.buffer.len();
        if len < IDIAG_RES_SIZE {
            Err(DecodeError::Length { expected: IDIAG_RES_SIZE, actual: len })
        } else {
            Ok(())
        }
    }

    pub fn family(&self) -> (r: u8)
        requires
            self.buffer@.len() >= IDIAG_RES_SIZE,
        ensures
            r == self.buffer@[0],
    {
        self.buffer[0]
    }

    /// The state of the socket. A code that names no state is an invalid
    /// value.
    pub fn state(&self) -> (r: Result<TcpState, DecodeError>)
        requires
            self.buffer@.len() >= IDIAG_RES_SIZE,
        ensures
            r == TcpState::from_code_spec(self.buffer@[1]),
    {
        TcpState::from_code(self.buffer[1])
    }

    pub fn timer(&self) -> (r: u8)
        requires
            self.buffer@.len() >= IDIAG_RES_SIZE,
        ensures
            r == self.buffer@[2],
    {
        self.buffer[2]
    }

    pub fn retrans(&self) -> (r: u8)
        requires
            self.buffer@.len() >= IDIAG_RES_SIZE,
        ensures
            r == self.buffer@[3],
    {
        self.buffer[3]
    }

    /// A view over the socket id of the response.
    pub fn id(&self) -> (r: SocketIdBuffer<&'a [u8]>)
        requires
            self.buffer@.len() >= IDIAG_RES_SIZE,
        ensures
            r.buffer@ == self.buffer@.subrange(4, 52),
            r.order == self.order,
    {
        SocketIdBuffer { buffer: slice_subrange(self.buffer, 4, 52), order: self.order }
    }

    /// The time until the timer fires, in milliseconds; nothing when no
    /// timer runs.
    pub fn expires(&self) -> (r: Option<u32>)
        requires
            self.buffer@.len() >= IDIAG_RES_SIZE,
        ensures
            r == expires_of(self.buffer@, self.order),
    {
        let expires: u32 = self.order.read_u32(self.buffer, 52);
        if expires == 0 {
            None
        } else {
            Some(expires)
        }
    }

    pub fn rqueue(&self) -> (r: u32)
        requires
            self.buffer@.len() >= IDIAG_RES_SIZE,
        ensures
            r == self.order.u32_from(self.buffer@.subrange(56, 60)),
    {
        self.order.read_u32(self.buffer, 56)
    }

    pub fn wqueue(&self) -> (r: u32)
        requires
            self.buffer@.len() >= IDIAG_RES_SIZE,
        ensures
            r == self.order.u32_from(self.buffer@.subrange(60, 64)),
    {
        self.order.read_u32(self.buffer, 60)
    }

    pub fn uid(&self) -> (r: u32)
        requires
            self.buffer@.len() >= IDIAG_RES_SIZE,
        ensures
            r == self.order.u32_from(self.buffer@.subrange(64, 68)),
    {
        self.order.read_u32(self.buffer, 64)
    }

    pub fn inode(&self) -> (r: u32)
        requires
            self.buffer@.len() >= IDIAG_RES_SIZE,
        ensures
            r == self.order.u32_from(self.buffer@.subrange(68, 72)),
    {
        self.order.read_u32(self.buffer, 68)
    }

    /// An iterator over the extensions that follow the fixed head.
    pub fn attrs(&self) -> (r: RtaIterator<&'a [u8]>)
        requires
            self.buffer@.len() >= IDIAG_RES_SIZE,
        ensures
            r.buffer@ == self.buffer@.skip(72),
            r.position == 0,
            r.order == self.order,
    {
        let rest = slice_subrange(self.buffer, IDIAG_RES_SIZE, self.buffer.len());
        assert(rest@ =~= self.buffer@.skip(72));
        RtaIterator { position: 0, buffer: rest, order: self.order }
    }
}

impl<'a> InetDiagMsgBuffer<&'a mut [u8]> {
    pub fn set_family(&mut self, family: u8)
        requires
            old(self).buffer@.len() >= IDIAG_RES_SIZE,
        ensures
            final(self).buffer@ == old(self).buffer@.update(0, family),
            final(self).order == old(self).order,
            final(final(self).buffer)@ == final(old(self).buffer)@,
    {
        self.buffer[0] = family;
    }

    pub fn set_state(&mut self, state: TcpState)
        requires
            old(self).buffer@.len() >= IDIAG_RES_SIZE,
        ensures
            final(self).buffer@ == old(self).buffer@.update(1, state.code_spec()),
            final(self).order == old(self).order,
            final(final(self).buffer)@ == final(old(self).buffer)@,
    {
        self.buffer[1] = state.code();
    }

    pub fn set_timer(&mut self, timer: u8)
        requires
            old(self).buffer@.len() >= IDIAG_RES_SIZE,
        ensures
            final(self).buffer@ == old(self).buffer@.update(2, timer),
            final(self).order == old(self).order,
            final(final(self).buffer)@ == final(old(self).buffer)@,
    {
        self.buffer[2] = timer;
    }

    pub fn set_retrans(&mut self, retrans: u8)
        requires
            old(self).buffer@.len() >= IDIAG_RES_SIZE,
        ensures
            final(self).buffer@ == old(self).buffer@.update(3, retrans),
            final(self).order == old(self).order,
            final(final(self).buffer)@ == final(old(self).buffer)@,
    {
        self.buffer[3] = retrans;
    }

    /// A view over the socket id of the response, through which it can be
    /// written. What is written there is written into the response.
    pub fn id_mut(&mut self) -> (r: SocketIdBuffer<&mut [u8]>)
        requires
            old(self).buffer@.len() >= IDIAG_RES_SIZE,
        ensures
            r.buffer@ == old(self).buffer@.subrange(4, 52),
            r.order == old(self).order,
            final(self).buffer@ == old(self).buffer@.subrange(0, 4) + final(r.buffer)@ + old(
                self,
            ).buffer@.skip(52),
            final(self).order == old(self).order,
            final(final(self).buffer)@ == final(old(self).buffer)@,
    {
        let order = self.order;
        let (_head, rest) = self.buffer.split_at_mut(4);
        let (id, _tail) = rest.split_at_mut(IDIAG_ID_SIZE);
        SocketIdBuffer { buffer: id, order }
    }

    pub fn set_expires(&mut self, expires: u32)
        requires
            old(self).buffer@.len() >= IDIAG_RES_SIZE,
        ensures
            final(self).buffer@ == splice(
                old(self).buffer@,
                52,
                old(self).order.u32_bytes(expires),
            ),
            final(self).order == old(self).order,
            final(final(self).buffer)@ == final(old(self).buffer)@,
    {
        self.order.write_u32(self.buffer, 52, expires);
    }

    pub fn set_rqueue(&mut self, rqueue: u32)
        requires
            old(self).buffer@.len() >= IDIAG_RES_SIZE,
        ensures
            final(self).buffer@ == splice(old(self).buffer@, 56, old(self).order.u32_bytes(rqueue)),
            final(self).order == old(self).order,
            final(final(self).buffer)@ == final(old(self).buffer)@,
    {
        self.order.write_u32(self.buffer, 56, rqueue);
    }

    pub fn set_wqueue(&mut self, wqueue: u32)
        requires
            old(self).buffer@.len() >= IDIAG_RES_SIZE,
        ensures
            final(self).buffer@ == splice(old(self).buffer@, 60, old(self).order.u32_bytes(wqueue)),
            final(self).order == old(self).order,
            final(final(self).buffer)@ == final(old(self).buffer)@,
    {
        self.order.write_u32(self.buffer, 60, wqueue);
    }

    pub fn set_uid(&mut self, uid: u32)
        requires
            old(self).buffer@.len() >= IDIAG_RES_SIZE,
        ensures
            final(self).buffer@ == splice(old(self).buffer@, 64, old(self).order.u32_bytes(uid)),
            final(self).order == old(self).order,
            final(final(self).buffer)@ == final(old(self).buffer)@,
    {
        self.order.write_u32(self.buffer, 64, uid);
    }

    pub fn set_inode(&mut self, inode: u32)
        requires
            old(self).buffer@.len() >= IDIAG_RES_SIZE,
        ensures
            final(self).buffer@ == splice(old(self).buffer@, 68, old(self).order.u32_bytes(inode)),
            final(self).order == old(self).order,
            final(final(self).buffer)@ == final(old(self).buffer)@,
    {
        self.order.write_u32(self.buffer, 68, inode);
    }
}

/// Walks the extensions of a response once, front to back, and reads each
/// one as it goes.
#[derive(Debug, Clone, Copy, PartialEq, Eq)]
pub struct RtaIterator<T> {
    pub position: usize,
    pub buffer: T,
    pub order: ByteOrder,
}

impl<T> RtaIterator<T> {
    /// An iterator in the order of the machine.
    pub fn new(buffer: T) -> (r: Self)
        ensures
            r.buffer == buffer,
            r.position == 0,
    {
        RtaIterator { position: 0, buffer, order: ByteOrder::native() }
    }

    /// An iterator in the given order.
    pub fn with_order(buffer: T, order: ByteOrder) -> (r: Self)
        ensures
            r.buffer == buffer,
            r.position == 0,
            r.order == order,
    {
        RtaIterator { position: 0, buffer, order }
    }
}

/// What a framed item becomes when it is read as an extension.
pub open spec fn extension_of(item: Result<Attribute, DecodeError>, order: ByteOrder) -> Result<
    InetDiagAttrView,
    DecodeError,
> {
    match item {
        Ok(a) => InetDiagAttrView::parse(a, order),
        Err(e) => Err(e),
    }
}

impl<'a> RtaIterator<&'a [u8]> {
    /// What the framing has still to yield.
    pub open spec fn remaining(&self) -> Seq<Result<Attribute, DecodeError>> {
        attributes_from(self.buffer@, self.position as int, self.order)
    }

    /// The next extension, or the error in reading it, or nothing when the
    /// stream has ended.
    pub fn next(&mut self) -> (r: Option<Result<InetDiagAttr, DecodeError>>)
        ensures
            final(self).buffer == old(self).buffer,
            final(self).order == old(self).order,
            old(self).remaining().len() == 0 ==> r is None && final(self).remaining().len() == 0,
            old(self).remaining().len() > 0 ==> r is Some && parsed_view(r->0) == extension_of(
                old(self).remaining()[0],
                old(self).order,
            ) && final(self).remaining() == old(self).remaining().drop_first(),
    {
        let mut framing = NlasIterator {
            buffer: self.buffer,
            position: self.position,
            order: self.order,
        };
        let item = framing.next();
        self.position = framing.position;
        match item {
            None => None,
            Some(Err(e)) => Some(Err(e)),
            Some(Ok(nla)) => Some(InetDiagAttr::parse(nla.kind, nla.value, self.order)),
        }
    }
}

/// A view over a message of UNIX socket diagnostics.
#[derive(Debug, PartialEq, Eq, Clone)]
pub struct UnixDiagBuffer<T> {
    pub buffer: T,
}

} // verus!
