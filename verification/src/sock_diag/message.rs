//! The request and the response of socket diagnostics as values.
use vstd::prelude::*;
use crate::byte_order::{ByteOrder, u16_to_be, zeros};
use crate::constants::{AF_INET, AF_INET6, INET_DIAG_NOCOOKIE};
use crate::errors::DecodeError;
use crate::nla::{fill_zero, nlas_parse, parse_nlas, views};
use crate::sock_diag::addr::{
    ipv4_of, ipv6_of, is_zero, lemma_ipv4_of, lemma_ipv6_of, IpAddr, SocketAddr,
};
use crate::sock_diag::attr::{InetDiagAttr, InetDiagAttrView};
use crate::sock_diag::buffer::{
    addr_field, cookie_bytes, expires_of, id_cookie, id_dport, id_dst, id_interface, id_sport,
    id_src, write_addr_field, InetDiagMsgBuffer, InetDiagReqV2Buffer, SocketIdBuffer,
    IDIAG_ID_SIZE, IDIAG_REQ_SIZE, IDIAG_RES_SIZE,
};
use crate::sock_diag::flags::{Extension, Extensions, TcpState, TcpStates};

verus! {

/// What identifies a socket.
#[derive(Clone, Copy, Debug, PartialEq, Eq)]
pub struct SockId {
    /// The source address and port.
    pub src: Option<SocketAddr>,
    /// The destination address and port.
    pub dst: Option<SocketAddr>,
    /// The interface that the socket is bound to.
    pub interface: u32,
    /// An opaque number that, with the other fields, names one socket.
    pub cookie: Option<u64>,
}

impl Default for SockId {
    fn default() -> (r: Self)
        ensures
            r == (SockId { src: None, dst: None, interface: 0, cookie: None }),
    {
        SockId { src: None, dst: None, interface: 0, cookie: None }
    }
}

/// The port of an endpoint, zero when there is none.
pub open spec fn port_of(endpoint: Option<SocketAddr>) -> u16 {
    match endpoint {
        Some(addr) => addr.port,
        None => 0,
    }
}

/// The bytes of the address of an endpoint, none when there is none.
pub open spec fn octets_of(endpoint: Option<SocketAddr>) -> Seq<u8> {
    match endpoint {
        Some(addr) => addr.ip.octets(),
        None => Seq::empty(),
    }
}

/// The 64-bit pattern of a cookie: all bits set when there is none.
pub open spec fn cookie_bits_of(cookie: Option<u64>) -> u64 {
    match cookie {
        Some(c) => c,
        None => INET_DIAG_NOCOOKIE,
    }
}

impl SockId {
    /// The 48 bytes of the socket id: the two ports in network order, the
    /// two addresses, each filled up with zeros to sixteen bytes, the
    /// interface and the cookie.
    pub open spec fn wire(self, order: ByteOrder) -> Seq<u8> {
        u16_to_be(port_of(self.src)) + u16_to_be(port_of(self.dst)) + addr_field(
            octets_of(self.src),
        ) + addr_field(octets_of(self.dst)) + order.u32_bytes(self.interface) + cookie_bytes(
            cookie_bits_of(self.cookie),
            order,
        )
    }
}

/// The request for IPv4 and IPv6 sockets.
#[derive(Clone, Copy, Debug, PartialEq, Eq)]
pub struct Request {
    /// `AF_INET` or `AF_INET6`.
    pub family: u8,
    /// `IPPROTO_TCP`, `IPPROTO_UDP` or `IPPROTO_UDPLITE`.
    pub protocol: u8,
    /// What extended information the kernel shall report.
    pub extensions: Extensions,
    /// Only sockets in one of these states are reported.
    pub states: TcpStates,
    /// The socket that is asked for, or a filter in a dump.
    pub id: SockId,
}

impl Default for Request {
    /// The request with family and protocol zero, for sockets in any state.
    fn default() -> (r: Self)
        ensures
            r == Request::new_spec(0, 0),
    {
        Request::new(0, 0)
    }
}

/// A request for IPv4 sockets of the given protocol, in any state.
pub fn inet(protocol: u8) -> (r: Request)
    ensures
        r == Request::new_spec(AF_INET, protocol),
{
    Request::new(AF_INET, protocol)
}

/// A request for IPv6 sockets of the given protocol, in any state.
pub fn inet6(protocol: u8) -> (r: Request)
    ensures
        r == Request::new_spec(AF_INET6, protocol),
{
    Request::new(AF_INET6, protocol)
}

impl Request {
    /// The request that asks for every socket of a family and protocol,
    /// with no extension.
    pub open spec fn new_spec(family: u8, protocol: u8) -> Request {
        Request {
            family,
            protocol,
            extensions: Extensions { bits: 0 },
            states: TcpStates { bits: crate::constants::TCPF_ALL },
            id: SockId { src: None, dst: None, interface: 0, cookie: None },
        }
    }

    /// The 56 bytes of the request.
    pub open spec fn wire(self, order: ByteOrder) -> Seq<u8> {
        seq![self.family, self.protocol, self.extensions.bits, 0u8] + order.u32_bytes(
            self.states.bits,
        ) + self.id.wire(order)
    }

    pub fn new(family: u8, protocol: u8) -> (r: Request)
        ensures
            r == Request::new_spec(family, protocol),
    {
        Request {
            family,
            protocol,
            extensions: Extensions::empty(),
            states: TcpStates::all(),
            id: SockId::default(),
        }
    }

    /// The request that also reports sockets in `state`.
    pub fn with_state(self, state: TcpState) -> (r: Self)
        ensures
            r == (Request {
                states: TcpStates { bits: self.states.bits | state.mask_spec() },
                ..self
            }),
            r.states.contains_spec(TcpStates { bits: state.mask_spec() }),
    {
        let mut r = self;
        proof {
            self.states.lemma_insert_remove(TcpStates { bits: state.mask_spec() });
        }
        r.states.insert(TcpStates::of(state));
        r
    }

    /// The request that does not report sockets in `state`.
    pub fn without_state(self, state: TcpState) -> (r: Self)
        ensures
            r == (Request {
                states: TcpStates { bits: self.states.bits & !state.mask_spec() },
                ..self
            }),
            r.states.bits & state.mask_spec() == 0,
    {
        let mut r = self;
        proof {
            self.states.lemma_insert_remove(TcpStates { bits: state.mask_spec() });
        }
        r.states.remove(TcpStates::of(state));
        r
    }

    /// The request that also asks for the extension `ext`.
    pub fn with_extension(self, ext: Extension) -> (r: Self)
        ensures
            r == (Request {
                extensions: Extensions { bits: self.extensions.bits | ext.mask_spec() },
                ..self
            }),
            r.extensions.contains_spec(Extensions { bits: ext.mask_spec() }),
    {
        let mut r = self;
        proof {
            self.extensions.lemma_insert(Extensions { bits: ext.mask_spec() });
        }
        r.extensions.insert(Extensions::of(ext));
        r
    }

    /// The number of bytes that the request takes.
    pub fn buffer_len(&self) -> (r: usize)
        ensures
            r == IDIAG_REQ_SIZE,
            r == self.wire(ByteOrder::LittleEndian).len(),
            r == self.wire(ByteOrder::BigEndian).len(),
    {
        proof {
            self.lemma_wire_len(ByteOrder::LittleEndian);
            self.lemma_wire_len(ByteOrder::BigEndian);
        }
        IDIAG_REQ_SIZE
    }

    /// A request takes 56 bytes.
    pub proof fn lemma_wire_len(self, order: ByteOrder)
        ensures
            self.wire(order).len() == IDIAG_REQ_SIZE,
    {
    }
}

/// Writes the source endpoint of a socket id, zeros when there is none.
fn emit_src(id: &mut SocketIdBuffer<&mut [u8]>, endpoint: &Option<SocketAddr>)
    requires
        old(id).buffer@.len() == IDIAG_ID_SIZE,
    ensures
        final(id).buffer@ == u16_to_be(port_of(*endpoint)) + old(id).buffer@.subrange(2, 4)
            + addr_field(octets_of(*endpoint)) + old(id).buffer@.skip(20),
        final(id).order == old(id).order,
        final(final(id).buffer)@ == final(old(id).buffer)@,
{
    match endpoint {
        Some(addr) => {
            id.set_src_addr(addr);
        },
        None => {
            let none: [u8; 0] = [];
            write_addr_field(id.buffer, 4, none.as_slice());
            id.set_sport(0);
        },
    }
    assert(id.buffer@ =~= u16_to_be(port_of(*endpoint)) + old(id).buffer@.subrange(2, 4)
        + addr_field(octets_of(*endpoint)) + old(id).buffer@.skip(20));
}

/// Writes the destination endpoint of a socket id, zeros when there is none.
fn emit_dst(id: &mut SocketIdBuffer<&mut [u8]>, endpoint: &Option<SocketAddr>)
    requires
        old(id).buffer@.len() == IDIAG_ID_SIZE,
    ensures
        final(id).buffer@ == old(id).buffer@.subrange(0, 2) + u16_to_be(port_of(*endpoint)) + old(
            id,
        ).buffer@.subrange(4, 20) + addr_field(octets_of(*endpoint)) + old(id).buffer@.skip(36),
        final(id).order == old(id).order,
        final(final(id).buffer)@ == final(old(id).buffer)@,
{
    match endpoint {
        Some(addr) => {
            id.set_dst_addr(addr);
        },
        None => {
            let none: [u8; 0] = [];
            write_addr_field(id.buffer, 20, none.as_slice());
            id.set_dport(0);
        },
    }
    assert(id.buffer@ =~= old(id).buffer@.subrange(0, 2) + u16_to_be(port_of(*endpoint)) + old(
        id,
    ).buffer@.subrange(4, 20) + addr_field(octets_of(*endpoint)) + old(id).buffer@.skip(36));
}

impl SockId {
    /// Writes the socket id through a view over exactly its 48 bytes.
    pub fn emit(&self, id: &mut SocketIdBuffer<&mut [u8]>)
        requires
            old(id).buffer@.len() == IDIAG_ID_SIZE,
        ensures
            final(id).buffer@ == self.wire(old(id).order),
            final(id).order == old(id).order,
            final(final(id).buffer)@ == final(old(id).buffer)@,
    {
        emit_src(id, &self.src);
        let ghost b1 = id.buffer@;
        emit_dst(id, &self.dst);
        let ghost b2 = id.buffer@;
        id.set_interface(self.interface);
        id.set_cookie(
            match self.cookie {
                Some(cookie) => cookie,
                None => INET_DIAG_NOCOOKIE,
            },
        );
        proof {
            let order = id.order;
            assert(b2.subrange(0, 36) =~= u16_to_be(port_of(self.src)) + u16_to_be(
                port_of(self.dst),
            ) + addr_field(octets_of(self.src)) + addr_field(octets_of(self.dst)));
            assert(id.buffer@ =~= b2.subrange(0, 36) + order.u32_bytes(self.interface)
                + cookie_bytes(cookie_bits_of(self.cookie), order));
        }
    }
}

impl Request {
    /// Writes the request into the first 56 bytes of `buf`. An endpoint
    /// that is absent is written as zeros, a cookie that is absent with all
    /// bits set, and the byte that no field covers as zero.
    pub fn emit(&self, buf: &mut [u8], order: ByteOrder)
        requires
            old(buf).len() >= IDIAG_REQ_SIZE,
        ensures
            final(buf)@ == self.wire(order) + old(buf)@.skip(IDIAG_REQ_SIZE as int),
    {
        let (head, _tail) = buf.split_at_mut(IDIAG_REQ_SIZE);
        fill_zero(head);
        let mut req = InetDiagReqV2Buffer { buffer: head, order };
        req.set_family(self.family);
        req.set_protocol(self.protocol);
        req.set_extensions(self.extensions);
        req.set_states(self.states);
        let ghost fixed = req.buffer@;
        assert(fixed.subrange(0, 8) =~= seq![
            self.family,
            self.protocol,
            self.extensions.bits,
            0u8,
        ] + order.u32_bytes(self.states.bits));
        let mut id = req.id_mut();
        self.id.emit(&mut id);
        assert(fixed.subrange(0, 8) + self.id.wire(order) + fixed.skip(56) =~= self.wire(order));
    }
}

/// The response to a query for IPv4 or IPv6 sockets.
#[derive(Debug, PartialEq, Eq, Clone)]
pub struct Response {
    /// `AF_INET` or `AF_INET6`.
    pub family: u8,
    /// The state of the socket.
    pub state: TcpState,
    /// The kind of timer that runs for the socket.
    pub timer: u8,
    /// How often the socket has retransmitted.
    pub retrans: u8,
    /// What identifies the socket.
    pub id: SockId,
    /// The time until the timer fires, in milliseconds.
    pub expires: Option<u32>,
    /// Listening sockets: pending connections. Others: bytes in the queue of
    /// incoming data.
    pub rqueue: u32,
    /// Listening sockets: the backlog. Others: memory available for sending.
    pub wqueue: u32,
    /// The user that owns the socket.
    pub uid: u32,
    /// The inode of the socket.
    pub inode: u32,
    /// The extensions that were reported.
    pub attrs: Vec<InetDiagAttr>,
}

/// The model of a response.
pub struct ResponseView {
    pub family: u8,
    pub state: TcpState,
    pub timer: u8,
    pub retrans: u8,
    pub id: SockId,
    pub expires: Option<u32>,
    pub rqueue: u32,
    pub wqueue: u32,
    pub uid: u32,
    pub inode: u32,
    pub attrs: Seq<InetDiagAttrView>,
}

impl View for Response {
    type V = ResponseView;

    open spec fn view(&self) -> ResponseView {
        ResponseView {
            family: self.family,
            state: self.state,
            timer: self.timer,
            retrans: self.retrans,
            id: self.id,
            expires: self.expires,
            rqueue: self.rqueue,
            wqueue: self.wqueue,
            uid: self.uid,
            inode: self.inode,
            attrs: views(self.attrs@),
        }
    }
}

/// The endpoint that an address field and a port stand for. In the family
/// of IPv4 the first four bytes of the field are the address, else all
/// sixteen. There is no endpoint only when the address is all zero and the
/// port is zero too.
pub open spec fn endpoint_of(family: u8, field: Seq<u8>, port: u16) -> Option<SocketAddr> {
    if family == AF_INET {
        if is_zero(field.subrange(0, 4)) && port == 0 {
            None
        } else {
            Some(SocketAddr { ip: IpAddr::V4(ipv4_of(field.subrange(0, 4))), port })
        }
    } else {
        if is_zero(field) && port == 0 {
            None
        } else {
            Some(SocketAddr { ip: IpAddr::V6(ipv6_of(field)), port })
        }
    }
}

/// The bytes of an address field that count in a family: the first four in
/// the family of IPv4, else all of them.
pub open spec fn significant(family: u8, field: Seq<u8>) -> Seq<u8> {
    if family == AF_INET {
        field.subrange(0, 4)
    } else {
        field
    }
}

/// There is no endpoint exactly when the address is all zero and the port
/// is zero: a port alone, or one byte of the address alone, makes an
/// endpoint, and the endpoint has the port that was read.
pub proof fn lemma_endpoint_absent(family: u8, field: Seq<u8>, port: u16)
    ensures
        endpoint_of(family, field, port) is None <==> (is_zero(significant(family, field))
            && port == 0),
        endpoint_of(family, field, port) matches Some(addr) ==> addr.port == port && (addr.ip
            is V4 <==> family == AF_INET),
{
}

/// The socket id that 48 bytes stand for in a family.
pub open spec fn sock_id_of(family: u8, b: Seq<u8>, order: ByteOrder) -> SockId {
    SockId {
        src: endpoint_of(family, id_src(b), id_sport(b)),
        dst: endpoint_of(family, id_dst(b), id_dport(b)),
        interface: id_interface(b, order),
        cookie: id_cookie(b, order),
    }
}

/// In a socket id an endpoint is absent exactly when its address is all
/// zero and its port is zero, and the cookie is absent exactly when all of
/// its bits are set.
pub proof fn lemma_sock_id_absent(family: u8, b: Seq<u8>, order: ByteOrder)
    ensures
        sock_id_of(family, b, order).src is None <==> (is_zero(significant(family, id_src(b)))
            && id_sport(b) == 0),
        sock_id_of(family, b, order).dst is None <==> (is_zero(significant(family, id_dst(b)))
            && id_dport(b) == 0),
        sock_id_of(family, b, order).cookie is None <==> (order.u32_from(b.subrange(40, 44))
            == 0xFFFF_FFFFu32 && order.u32_from(b.subrange(44, 48)) == 0xFFFF_FFFFu32),
{
    lemma_endpoint_absent(family, id_src(b), id_sport(b));
    lemma_endpoint_absent(family, id_dst(b), id_dport(b));
    crate::sock_diag::buffer::lemma_cookie_sentinel(b, order);
}

/// Whether an endpoint is one that a socket id of the family can hold: its
/// address is of the family, and it is not the address of all zeros with
/// the port zero, which stands for no endpoint.
pub open spec fn endpoint_fits(family: u8, endpoint: Option<SocketAddr>) -> bool {
    endpoint matches Some(addr) ==> (addr.ip is V4 <==> family == AF_INET) && !(is_zero(
        addr.ip.octets(),
    ) && addr.port == 0)
}

/// Reading a socket id that was written gives it back, in the family of its
/// addresses, unless an endpoint is all zero or the cookie is the pattern
/// that stands for none.
pub proof fn lemma_sock_id_round_trip(id: SockId, family: u8, order: ByteOrder)
    requires
        family == AF_INET || family == AF_INET6,
        endpoint_fits(family, id.src),
        endpoint_fits(family, id.dst),
        id.cookie != Some(INET_DIAG_NOCOOKIE),
    ensures
        id.wire(order).len() == IDIAG_ID_SIZE,
        sock_id_of(family, id.wire(order), order) == id,
{
    let b = id.wire(order);
    let src = addr_field(octets_of(id.src));
    let dst = addr_field(octets_of(id.dst));
    crate::byte_order::lemma_u16_round_trip(ByteOrder::BigEndian, port_of(id.src));
    crate::byte_order::lemma_u16_round_trip(ByteOrder::BigEndian, port_of(id.dst));
    crate::byte_order::lemma_u32_round_trip(order, id.interface);
    assert(b.subrange(0, 2) =~= u16_to_be(port_of(id.src)));
    assert(b.subrange(2, 4) =~= u16_to_be(port_of(id.dst)));
    assert(id_src(b) =~= src);
    assert(id_dst(b) =~= dst);
    assert(b.subrange(36, 40) =~= order.u32_bytes(id.interface));
    let head = b.subrange(0, 40);
    crate::sock_diag::buffer::lemma_cookie_round_trip(
        head,
        cookie_bits_of(id.cookie),
        order,
        Seq::empty(),
    );
    assert(b =~= head + cookie_bytes(cookie_bits_of(id.cookie), order) + Seq::<u8>::empty());
    lemma_endpoint_round_trip(family, id.src);
    lemma_endpoint_round_trip(family, id.dst);
}

/// Reading an endpoint that was written into an address field and a port
/// gives it back.
pub proof fn lemma_endpoint_round_trip(family: u8, endpoint: Option<SocketAddr>)
    requires
        family == AF_INET || family == AF_INET6,
        endpoint_fits(family, endpoint),
    ensures
        endpoint_of(family, addr_field(octets_of(endpoint)), port_of(endpoint)) == endpoint,
{
    let field = addr_field(octets_of(endpoint));
    match endpoint {
        None => {
            assert(is_zero(field));
            assert(is_zero(field.subrange(0, 4)));
        },
        Some(addr) => {
            match addr.ip {
                IpAddr::V4(a) => {
                    assert(field.subrange(0, 4) =~= a@);
                    lemma_ipv4_of(a);
                },
                IpAddr::V6(a) => {
                    assert(field =~= a@);
                    lemma_ipv6_of(a);
                },
            }
        },
    }
}

/// The response that `b` holds. In this order: a buffer shorter than the
/// fixed head is a length error; a family that is neither IPv4 nor IPv6 is
/// an invalid value; the first error among the extensions is reported; a
/// state code that names no state is an invalid value.
pub open spec fn response_parse(b: Seq<u8>, order: ByteOrder) -> Result<ResponseView, DecodeError> {
    if b.len() < IDIAG_RES_SIZE {
        Err(DecodeError::Length { expected: IDIAG_RES_SIZE, actual: b.len() as usize })
    } else if b[0] != AF_INET && b[0] != AF_INET6 {
        Err(DecodeError::InvalidValue { value: b[0] as u32 })
    } else {
        match nlas_parse::<InetDiagAttrView>(b.skip(IDIAG_RES_SIZE as int), order) {
            Err(e) => Err(e),
            Ok(attrs) => match TcpState::from_code_spec(b[1]) {
                Err(e) => Err(e),
                Ok(state) => Ok(
                    ResponseView {
                        family: b[0],
                        state,
                        timer: b[2],
                        retrans: b[3],
                        id: sock_id_of(b[0], b.subrange(4, 52), order),
                        expires: expires_of(b, order),
                        rqueue: order.u32_from(b.subrange(56, 60)),
                        wqueue: order.u32_from(b.subrange(60, 64)),
                        uid: order.u32_from(b.subrange(64, 68)),
                        inode: order.u32_from(b.subrange(68, 72)),
                        attrs,
                    },
                ),
            },
        }
    }
}

/// The endpoint of an IPv4 socket.
fn endpoint_v4(ip: [u8; 4], port: u16) -> (r: Option<SocketAddr>)
    ensures
        r == (if is_zero(ip@) && port == 0 {
            None
        } else {
            Some(SocketAddr { ip: IpAddr::V4(ip), port })
        }),
{
    let addr = IpAddr::V4(ip);
    if addr.is_unspecified() && port == 0 {
        None
    } else {
        Some(SocketAddr::new(addr, port))
    }
}

/// The endpoint of an IPv6 socket.
fn endpoint_v6(ip: [u8; 16], port: u16) -> (r: Option<SocketAddr>)
    ensures
        r == (if is_zero(ip@) && port == 0 {
            None
        } else {
            Some(SocketAddr { ip: IpAddr::V6(ip), port })
        }),
{
    let addr = IpAddr::V6(ip);
    if addr.is_unspecified() && port == 0 {
        None
    } else {
        Some(SocketAddr::new(addr, port))
    }
}

impl<'a> InetDiagMsgBuffer<&'a [u8]> {
    /// Reads the response that the buffer holds.
    pub fn parse(&self) -> (r: Result<Response, DecodeError>)
        ensures
            crate::nla::parsed_view(r) == response_parse(self.buffer@, self.order),
    {
        if self.buffer.len() < IDIAG_RES_SIZE {
            return Err(
                DecodeError::Length { expected: IDIAG_RES_SIZE, actual: self.buffer.len() },
            );
        }
        let family: u8 = self.family();
        let id = self.id();
        let ghost b = id.buffer@;
        let (src, dst) = if family == AF_INET {
            let sip = id.src_ipv4();
            let dip = id.dst_ipv4();
            proof {
                lemma_ipv4_of(sip);
                lemma_ipv4_of(dip);
            }
            (endpoint_v4(sip, id.sport()), endpoint_v4(dip, id.dport()))
        } else if family == AF_INET6 {
            let sip = id.src_ipv6();
            let dip = id.dst_ipv6();
            proof {
                lemma_ipv6_of(sip);
                lemma_ipv6_of(dip);
            }
            (endpoint_v6(sip, id.sport()), endpoint_v6(dip, id.dport()))
        } else {
            return Err(DecodeError::InvalidValue { value: family as u32 });
        };
        assert(src == endpoint_of(family, id_src(b), id_sport(b)));
        assert(dst == endpoint_of(family, id_dst(b), id_dport(b)));
        let rest = vstd::slice::slice_subrange(self.buffer, IDIAG_RES_SIZE, self.buffer.len());
        assert(rest@ =~= self.buffer@.skip(IDIAG_RES_SIZE as int));
        let attrs: Vec<InetDiagAttr> = match parse_nlas::<InetDiagAttr>(rest, self.order) {
            Ok(attrs) => attrs,
            Err(e) => {
                return Err(e);
            },
        };
        let state = match self.state() {
            Ok(state) => state,
            Err(e) => {
                return Err(e);
            },
        };
        Ok(
            Response {
                family,
                state,
                timer: self.timer(),
                retrans: self.retrans(),
                id: SockId { src, dst, interface: id.interface(), cookie: id.cookie() },
                expires: self.expires(),
                rqueue: self.rqueue(),
                wqueue: self.wqueue(),
                uid: self.uid(),
                inode: self.inode(),
                attrs,
            },
        )
    }
}

} // verus!
