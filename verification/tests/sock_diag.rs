use netlink_packet::byte_order::ByteOrder;
use netlink_packet::constants::{AF_INET, AF_INET6, TCPF_ALL};
use netlink_packet::errors::DecodeError;
use netlink_packet::sock_diag::addr::{IpAddr, SocketAddr};
use netlink_packet::sock_diag::attr::{InetDiagAttr, MemInfo, SkMemInfo, TcpInfo};
use netlink_packet::sock_diag::buffer::{
    InetDiagMsgBuffer, InetDiagReqV2Buffer, RtaIterator, SocketIdBuffer,
};
use netlink_packet::sock_diag::flags::{Extension, Extensions, Shutdown, TcpState, TcpStates};
use netlink_packet::sock_diag::message::{inet, inet6, Request, Response, SockId};

const LE: ByteOrder = ByteOrder::LittleEndian;
const BE: ByteOrder = ByteOrder::BigEndian;

const ALL_STATES: [(TcpState, u8); 11] = [
    (TcpState::Established, 1),
    (TcpState::SynSent, 2),
    (TcpState::SynRecv, 3),
    (TcpState::FinWait1, 4),
    (TcpState::FinWait2, 5),
    (TcpState::TimeWait, 6),
    (TcpState::Close, 7),
    (TcpState::CloseWait, 8),
    (TcpState::LastAck, 9),
    (TcpState::Listen, 10),
    (TcpState::Closing, 11),
];

const ALL_EXTENSIONS: [(Extension, u16); 8] = [
    (Extension::MemInfo, 1),
    (Extension::Info, 2),
    (Extension::VegasInfo, 3),
    (Extension::Conf, 4),
    (Extension::ToS, 5),
    (Extension::TClass, 6),
    (Extension::SkMemInfo, 7),
    (Extension::Shutdown, 8),
];

#[test]
fn each_state_has_the_bit_of_its_code() {
    for (state, code) in ALL_STATES {
        assert_eq!(state.code(), code);
        assert_eq!(TcpState::from_code(code), Ok(state));
        assert_eq!(state.mask(), 1u32 << code);
        assert_eq!(TcpStates::of(state).bits(), 1u32 << code);
        assert!(TcpStates::all().contains(TcpStates::of(state)));
        assert!(!TcpStates::empty().contains(TcpStates::of(state)));
    }
    assert_eq!(TcpStates::all().bits(), 0xFFF);
    assert_eq!(TcpStates::default(), TcpStates::all());
}

#[test]
fn state_codes_outside_the_set_are_invalid() {
    assert_eq!(TcpState::from_code(0), Err(DecodeError::InvalidValue { value: 0 }));
    assert_eq!(TcpState::from_code(12), Err(DecodeError::InvalidValue { value: 12 }));
    assert_eq!(TcpState::from_code(255), Err(DecodeError::InvalidValue { value: 255 }));
}

#[test]
fn each_extension_has_the_bit_below_its_code() {
    for (ext, code) in ALL_EXTENSIONS {
        assert_eq!(ext.code(), code);
        assert_eq!(ext.mask(), 1u8 << (code - 1));
        assert_eq!(Extensions::of(ext).bits(), 1u8 << (code - 1));
    }
    assert_eq!(Extensions::default(), Extensions::empty());
    assert_eq!(Extensions::all().bits(), 0xFF);
}

#[test]
fn flag_sets_insert_remove_and_truncate() {
    let mut states = TcpStates::empty();
    assert!(states.is_empty());
    states.insert(TcpStates::of(TcpState::Listen));
    states.insert(TcpStates::of(TcpState::Established));
    assert_eq!(states.bits(), (1 << 10) | (1 << 1));
    states.remove(TcpStates::of(TcpState::Listen));
    assert_eq!(states.bits(), 1 << 1);
    assert_eq!(TcpStates::from_bits_truncate(0xFFFF_FFFF).bits(), TCPF_ALL);
    assert_eq!(TcpStates::from_bits_truncate(0x1002).bits(), 0x2);
    assert_eq!(Shutdown::from_bits_truncate(0xFF).bits(), 3);
    assert_eq!(Shutdown::none().bits(), 0);
    assert_eq!(Shutdown::recv().bits(), 1);
    assert_eq!(Shutdown::send().bits(), 2);
    assert!(Shutdown::all().contains(Shutdown::recv()));
    assert!(Shutdown::all().contains(Shutdown::send()));
}

#[test]
fn request_builders_set_single_bits() {
    let req = inet(6);
    assert_eq!(req, Request::new(AF_INET, 6));
    assert_eq!(req.family, 2);
    assert_eq!(req.protocol, 6);
    assert_eq!(req.states, TcpStates::all());
    assert_eq!(req.extensions, Extensions::empty());
    assert_eq!(req.id, SockId::default());
    assert_eq!(inet6(17).family, 10);
    assert_eq!(inet6(17), Request::new(AF_INET6, 17));
    for (state, code) in ALL_STATES {
        let without = inet(6).without_state(state);
        assert_eq!(without.states.bits(), TCPF_ALL & !(1u32 << code));
        let with = without.with_state(state);
        assert_eq!(with.states.bits(), TCPF_ALL);
        let mut only = Request::new(AF_INET, 6);
        only.states = TcpStates::empty();
        assert_eq!(only.with_state(state).states.bits(), 1u32 << code);
    }
    for (ext, code) in ALL_EXTENSIONS {
        let req = inet(6).with_extension(ext);
        assert_eq!(req.extensions.bits(), 1u8 << (code - 1));
        assert_eq!(req.with_extension(ext).extensions.bits(), 1u8 << (code - 1));
    }
    let req = inet(6).with_extension(Extension::MemInfo).with_extension(Extension::Shutdown);
    assert_eq!(req.extensions.bits(), 0x81);
}

#[test]
fn request_is_written_field_by_field() {
    let mut req = inet(6).with_extension(Extension::Info);
    req.states = TcpStates::of(TcpState::Listen);
    req.id = SockId {
        src: Some(SocketAddr::new(IpAddr::V4([127, 0, 0, 1]), 8080)),
        dst: None,
        interface: 3,
        cookie: Some(0x1122_3344_5566_7788),
    };
    assert_eq!(req.buffer_len(), 56);
    let mut buf = [0xEEu8; 58];
    req.emit(&mut buf, LE);
    let mut expected = vec![2u8, 6, 0x02, 0, 0x00, 0x04, 0, 0];
    expected.extend_from_slice(&[0x1F, 0x90, 0, 0]);
    expected.extend_from_slice(&[127, 0, 0, 1, 0, 0, 0, 0, 0, 0, 0, 0, 0, 0, 0, 0]);
    expected.extend_from_slice(&[0u8; 16]);
    expected.extend_from_slice(&[3, 0, 0, 0]);
    expected.extend_from_slice(&[0x88, 0x77, 0x66, 0x55, 0x44, 0x33, 0x22, 0x11]);
    expected.extend_from_slice(&[0xEE, 0xEE]);
    assert_eq!(&buf[..], &expected[..]);

    let mut buf = [0xEEu8; 56];
    req.emit(&mut buf, BE);
    assert_eq!(&buf[4..8], &[0, 0, 0x04, 0]);
    assert_eq!(&buf[8..10], &[0x1F, 0x90]);
    assert_eq!(&buf[44..48], &[0, 0, 0, 3]);
    assert_eq!(&buf[48..56], &[0x55, 0x66, 0x77, 0x88, 0x11, 0x22, 0x33, 0x44]);
}

#[test]
fn request_without_cookie_writes_all_ones() {
    let mut req = inet6(6);
    req.id.dst = Some(SocketAddr::new(
        IpAddr::V6([0x20, 1, 0xd, 0xb8, 0, 0, 0, 0, 0, 0, 0, 0, 0, 0, 0, 1]),
        443,
    ));
    let mut buf = [0xEEu8; 56];
    req.emit(&mut buf, LE);
    assert_eq!(&buf[0..4], &[10, 6, 0, 0]);
    assert_eq!(&buf[4..8], &[0xFF, 0x0F, 0, 0]);
    assert_eq!(&buf[8..12], &[0, 0, 0x01, 0xBB]);
    assert_eq!(&buf[12..28], &[0u8; 16]);
    assert_eq!(&buf[28..44], &[0x20, 1, 0xd, 0xb8, 0, 0, 0, 0, 0, 0, 0, 0, 0, 0, 0, 1]);
    assert_eq!(&buf[48..56], &[0xFF; 8]);
    let view = InetDiagReqV2Buffer::with_order(&buf[..], LE);
    assert_eq!(view.family(), 10);
    assert_eq!(view.protocol(), 6);
    assert_eq!(view.extensions(), Extensions::empty());
    assert_eq!(view.states(), TcpStates::all());
    let id = view.id();
    assert_eq!(id.sport(), 0);
    assert_eq!(id.dport(), 443);
    assert_eq!(id.dst_ipv6(), [0x20, 1, 0xd, 0xb8, 0, 0, 0, 0, 0, 0, 0, 0, 0, 0, 0, 1]);
    assert_eq!(id.cookie(), None);
}

#[test]
fn socket_id_fields_are_set_and_got() {
    for order in [LE, BE] {
        let mut buf = [0u8; 48];
        {
            let mut id = SocketIdBuffer::with_order(&mut buf[..], order);
            id.set_sport(1234);
            id.set_dport(80);
            id.set_src_ipv4(&[10, 0, 0, 1]);
            id.set_dst_ipv6(&[1, 2, 3, 4, 5, 6, 7, 8, 9, 10, 11, 12, 13, 14, 15, 16]);
            id.set_interface(0x0102_0304);
            id.set_cookie(0x0A0B_0C0D_0102_0304);
        }
        assert_eq!(&buf[0..4], &[0x04, 0xD2, 0, 80]);
        let id = SocketIdBuffer::with_order(&buf[..], order);
        assert_eq!(id.sport(), 1234);
        assert_eq!(id.dport(), 80);
        assert_eq!(id.src_ipv4(), [10, 0, 0, 1]);
        assert_eq!(id.src_ipv6(), [10, 0, 0, 1, 0, 0, 0, 0, 0, 0, 0, 0, 0, 0, 0, 0]);
        assert_eq!(id.dst_ipv4(), [1, 2, 3, 4]);
        assert_eq!(id.dst_ipv6(), [1, 2, 3, 4, 5, 6, 7, 8, 9, 10, 11, 12, 13, 14, 15, 16]);
        assert_eq!(id.interface(), 0x0102_0304);
        assert_eq!(id.cookie(), Some(0x0A0B_0C0D_0102_0304));
    }
    assert_eq!(SocketIdBuffer::<&[u8]>::len(), 48);
    assert_eq!(InetDiagReqV2Buffer::<&[u8]>::len(), 56);
    assert_eq!(InetDiagMsgBuffer::<&[u8]>::len(), 72);
}

#[test]
fn socket_addresses_are_set_with_their_ports() {
    let mut buf = [0xEEu8; 48];
    {
        let mut id = SocketIdBuffer::with_order(&mut buf[..], LE);
        id.set_src_addr(&SocketAddr::new(IpAddr::V4([192, 168, 1, 2]), 22));
        id.set_dst_addr(&SocketAddr::new(IpAddr::V6([0xFE; 16]), 65535));
    }
    assert_eq!(&buf[0..4], &[0, 22, 0xFF, 0xFF]);
    assert_eq!(&buf[4..20], &[192, 168, 1, 2, 0, 0, 0, 0, 0, 0, 0, 0, 0, 0, 0, 0]);
    assert_eq!(&buf[20..36], &[0xFE; 16]);
    assert_eq!(&buf[36..48], &[0xEE; 12]);
}

#[test]
fn cookie_is_absent_only_when_all_bits_are_set() {
    let mut buf = [0u8; 48];
    for b in buf[40..48].iter_mut() {
        *b = 0xFF;
    }
    assert_eq!(SocketIdBuffer::with_order(&buf[..], LE).cookie(), None);
    assert_eq!(SocketIdBuffer::with_order(&buf[..], BE).cookie(), None);
    buf[40] = 0xFE;
    assert_eq!(
        SocketIdBuffer::with_order(&buf[..], LE).cookie(),
        Some(0xFFFF_FFFF_FFFF_FFFE)
    );
    buf[40] = 0xFF;
    buf[47] = 0x7F;
    assert_eq!(
        SocketIdBuffer::with_order(&buf[..], LE).cookie(),
        Some(0x7FFF_FFFF_FFFF_FFFF)
    );
    // The low half stands first, each half in the order of the view.
    let mut buf = [0u8; 48];
    buf[40..48].copy_from_slice(&[1, 0, 0, 0, 2, 0, 0, 0]);
    assert_eq!(SocketIdBuffer::with_order(&buf[..], LE).cookie(), Some(1 + (2u64 << 32)));
    assert_eq!(
        SocketIdBuffer::with_order(&buf[..], BE).cookie(),
        Some(0x0100_0000 + (0x0200_0000u64 << 32))
    );
    let zero = [0u8; 48];
    assert_eq!(SocketIdBuffer::with_order(&zero[..], LE).cookie(), Some(0));
}

/// The fixed head of a response about an established IPv4 socket.
fn response_head(order: ByteOrder) -> Vec<u8> {
    let mut buf = vec![0u8; 72];
    {
        let mut msg = InetDiagMsgBuffer::with_order(&mut buf[..], order);
        msg.set_family(AF_INET);
        msg.set_state(TcpState::Established);
        msg.set_timer(0);
        msg.set_retrans(0);
        msg.set_expires(0);
        msg.set_rqueue(10);
        msg.set_wqueue(0);
        msg.set_uid(1000);
        msg.set_inode(9999);
        let mut id = msg.id_mut();
        id.set_cookie(0xFFFF_FFFF_FFFF_FFFF);
    }
    buf
}

#[test]
fn response_with_memory_info_extension() {
    for order in [LE, BE] {
        let mut buf = response_head(order);
        let mut header = [0u8; 4];
        order.write_u16(&mut header, 0, 20);
        order.write_u16(&mut header, 2, 1);
        buf.extend_from_slice(&header);
        buf.extend_from_slice(&[0u8; 16]);
        // One byte of padding behind the extension, so that it does not
        // reach exactly to the end of the buffer.
        buf.push(0);
        let response = InetDiagMsgBuffer::with_order(&buf[..], order).parse().unwrap();
        assert_eq!(response.family, AF_INET);
        assert_eq!(response.state, TcpState::Established);
        assert_eq!(response.rqueue, 10);
        assert_eq!(response.wqueue, 0);
        assert_eq!(response.uid, 1000);
        assert_eq!(response.inode, 9999);
        assert_eq!(response.expires, None);
        assert_eq!(response.id, SockId { src: None, dst: None, interface: 0, cookie: None });
        assert_eq!(
            response.attrs,
            vec![InetDiagAttr::MemInfo(MemInfo { rmem: 0, wmem: 0, fmem: 0, tmem: 0 })]
        );
    }
}

#[test]
fn extension_that_reaches_the_end_is_not_reported() {
    let mut buf = response_head(LE);
    buf.extend_from_slice(&[20, 0, 1, 0]);
    buf.extend_from_slice(&[0u8; 16]);
    let response = InetDiagMsgBuffer::with_order(&buf[..], LE).parse().unwrap();
    assert_eq!(response.attrs, vec![]);
    assert_eq!(response.inode, 9999);
}

#[test]
fn endpoint_is_absent_only_when_address_and_port_are_zero() {
    let mut buf = response_head(LE);
    let response = InetDiagMsgBuffer::with_order(&buf[..], LE).parse().unwrap();
    assert_eq!(response.id.src, None);
    assert_eq!(response.id.dst, None);
    // The same address, all zero, with port 1234.
    buf[4] = 0x04;
    buf[5] = 0xD2;
    let response = InetDiagMsgBuffer::with_order(&buf[..], LE).parse().unwrap();
    assert_eq!(response.id.src, Some(SocketAddr::new(IpAddr::V4([0, 0, 0, 0]), 1234)));
    assert_eq!(response.id.dst, None);
    // Port zero with one byte of the address set.
    buf[4] = 0;
    buf[5] = 0;
    buf[4 + 4 + 16 + 3] = 1;
    let response = InetDiagMsgBuffer::with_order(&buf[..], LE).parse().unwrap();
    assert_eq!(response.id.src, None);
    assert_eq!(response.id.dst, Some(SocketAddr::new(IpAddr::V4([0, 0, 0, 1]), 0)));
    // In the family of IPv4 only the first four bytes of the field count.
    buf[4 + 4 + 16 + 3] = 0;
    buf[4 + 4 + 15] = 9;
    let response = InetDiagMsgBuffer::with_order(&buf[..], LE).parse().unwrap();
    assert_eq!(response.id.src, None);
    // In the family of IPv6 all sixteen count.
    buf[0] = AF_INET6;
    let response = InetDiagMsgBuffer::with_order(&buf[..], LE).parse().unwrap();
    assert_eq!(
        response.id.src,
        Some(SocketAddr::new(IpAddr::V6([0, 0, 0, 0, 0, 0, 0, 0, 0, 0, 0, 0, 0, 0, 0, 9]), 0))
    );
    assert_eq!(response.id.dst, None);
}

#[test]
fn response_fields_are_read_from_their_places() {
    let mut buf = vec![0u8; 75];
    buf[0] = AF_INET6;
    buf[1] = 10;
    buf[2] = 2;
    buf[3] = 5;
    buf[4..8].copy_from_slice(&[0x1F, 0x90, 0xC0, 0x00]);
    for i in 0..16 {
        buf[8 + i] = i as u8 + 1;
        buf[24 + i] = 0x80 + i as u8;
    }
    buf[40..44].copy_from_slice(&[7, 0, 0, 0]);
    buf[44..52].copy_from_slice(&[1, 2, 3, 4, 5, 6, 7, 8]);
    buf[52..56].copy_from_slice(&[0xE8, 0x03, 0, 0]);
    buf[56..60].copy_from_slice(&[1, 0, 0, 0]);
    buf[60..64].copy_from_slice(&[2, 0, 0, 0]);
    buf[64..68].copy_from_slice(&[3, 0, 0, 0]);
    buf[68..72].copy_from_slice(&[4, 0, 0, 0]);
    let view = InetDiagMsgBuffer::with_order(&buf[..], LE);
    assert_eq!(view.check_len(), Ok(()));
    assert_eq!(view.family(), 10);
    assert_eq!(view.state(), Ok(TcpState::Listen));
    assert_eq!(view.timer(), 2);
    assert_eq!(view.retrans(), 5);
    assert_eq!(view.expires(), Some(1000));
    assert_eq!(view.rqueue(), 1);
    assert_eq!(view.wqueue(), 2);
    assert_eq!(view.uid(), 3);
    assert_eq!(view.inode(), 4);
    let mut attrs = view.attrs();
    assert_eq!(attrs.next(), None);
    let response = view.parse().unwrap();
    assert_eq!(
        response,
        Response {
            family: 10,
            state: TcpState::Listen,
            timer: 2,
            retrans: 5,
            id: SockId {
                src: Some(SocketAddr::new(
                    IpAddr::V6([1, 2, 3, 4, 5, 6, 7, 8, 9, 10, 11, 12, 13, 14, 15, 16]),
                    8080
                )),
                dst: Some(SocketAddr::new(
                    IpAddr::V6([
                        0x80, 0x81, 0x82, 0x83, 0x84, 0x85, 0x86, 0x87, 0x88, 0x89, 0x8A, 0x8B,
                        0x8C, 0x8D, 0x8E, 0x8F
                    ]),
                    0xC000
                )),
                interface: 7,
                cookie: Some(0x0807_0605_0403_0201),
            },
            expires: Some(1000),
            rqueue: 1,
            wqueue: 2,
            uid: 3,
            inode: 4,
            attrs: vec![],
        }
    );
    let big = InetDiagMsgBuffer::with_order(&buf[..], BE);
    assert_eq!(big.rqueue(), 0x0100_0000);
    assert_eq!(big.id().sport(), 8080);
}

#[test]
fn response_errors_come_in_order() {
    let short = [0u8; 71];
    assert_eq!(
        InetDiagMsgBuffer::with_order(&short[..], LE).parse(),
        Err(DecodeError::Length { expected: 72, actual: 71 })
    );
    assert_eq!(
        InetDiagMsgBuffer::with_order(&short[..], LE).check_len(),
        Err(DecodeError::Length { expected: 72, actual: 71 })
    );
    assert!(matches!(
        InetDiagMsgBuffer::new_checked(&short[..]),
        Err(DecodeError::Length { expected: 72, actual: 71 })
    ));
    let mut buf = response_head(LE);
    assert!(InetDiagMsgBuffer::new_checked(&buf[..]).is_ok());
    buf[0] = 1;
    buf[1] = 0;
    assert_eq!(
        InetDiagMsgBuffer::with_order(&buf[..], LE).parse(),
        Err(DecodeError::InvalidValue { value: 1 })
    );
    buf[0] = AF_INET;
    assert_eq!(
        InetDiagMsgBuffer::with_order(&buf[..], LE).parse(),
        Err(DecodeError::InvalidValue { value: 0 })
    );
    assert_eq!(
        InetDiagMsgBuffer::with_order(&buf[..], LE).state(),
        Err(DecodeError::InvalidValue { value: 0 })
    );
    // A memory-info extension that is too short comes before the state.
    buf.extend_from_slice(&[8, 0, 1, 0, 0, 0, 0, 0, 0]);
    assert_eq!(
        InetDiagMsgBuffer::with_order(&buf[..], LE).parse(),
        Err(DecodeError::Length { expected: 16, actual: 4 })
    );
}

#[test]
fn extensions_are_read_by_kind() {
    assert_eq!(
        InetDiagAttr::parse(1, &[1, 0, 0, 0, 2, 0, 0, 0, 3, 0, 0, 0, 4, 0, 0, 0, 9], LE),
        Ok(InetDiagAttr::MemInfo(MemInfo { rmem: 1, wmem: 2, fmem: 3, tmem: 4 }))
    );
    assert_eq!(
        InetDiagAttr::parse(1, &[0u8; 15], LE),
        Err(DecodeError::Length { expected: 16, actual: 15 })
    );
    assert_eq!(InetDiagAttr::parse(4, b"bbr\0", LE), Ok(InetDiagAttr::Conf(String::from("bbr"))));
    assert_eq!(InetDiagAttr::parse(4, b"bbr", LE), Err(DecodeError::Malformed));
    assert_eq!(InetDiagAttr::parse(5, &[0x10], LE), Ok(InetDiagAttr::Tos(0x10)));
    assert_eq!(
        InetDiagAttr::parse(5, &[], LE),
        Err(DecodeError::Length { expected: 1, actual: 0 })
    );
    assert_eq!(InetDiagAttr::parse(6, &[0x20], LE), Ok(InetDiagAttr::TClass(0x20)));
    assert_eq!(
        InetDiagAttr::parse(8, &[0xFE], LE),
        Ok(InetDiagAttr::Shutdown(Shutdown::send()))
    );
    assert_eq!(
        InetDiagAttr::parse(8, &[0x07], LE),
        Ok(InetDiagAttr::Shutdown(Shutdown::all()))
    );
    assert_eq!(InetDiagAttr::parse(10, &[6], LE), Ok(InetDiagAttr::Protocol(6)));
    assert_eq!(InetDiagAttr::parse(11, &[0], LE), Ok(InetDiagAttr::SkV6Only(false)));
    assert_eq!(InetDiagAttr::parse(11, &[2], LE), Ok(InetDiagAttr::SkV6Only(true)));
    assert_eq!(InetDiagAttr::parse(15, &[1, 2, 3, 4], LE), Ok(InetDiagAttr::Mark(0x0403_0201)));
    assert_eq!(InetDiagAttr::parse(15, &[1, 2, 3, 4], BE), Ok(InetDiagAttr::Mark(0x0102_0304)));
    assert_eq!(
        InetDiagAttr::parse(15, &[1, 2, 3], LE),
        Err(DecodeError::Length { expected: 4, actual: 3 })
    );
    assert_eq!(InetDiagAttr::parse(17, &[9, 0, 0, 0], LE), Ok(InetDiagAttr::ClassId(9)));
    assert_eq!(
        InetDiagAttr::parse(0xFFFF, &[1, 2, 3], LE),
        Ok(InetDiagAttr::Other(0xFFFF, vec![1, 2, 3]))
    );
    assert_eq!(InetDiagAttr::parse(3, &[], LE), Ok(InetDiagAttr::Other(3, vec![])));
}

#[test]
fn socket_memory_block_is_read_field_by_field() {
    let mut data = Vec::new();
    for i in 1..=9u32 {
        data.extend_from_slice(&(i * 0x0101).to_le_bytes());
    }
    let expected = SkMemInfo {
        rmem_alloc: 0x0101,
        recvbuf: 0x0202,
        wmem_alloc: 0x0303,
        sndbuf: 0x0404,
        fwd_alloc: 0x0505,
        wmem_queued: 0x0606,
        optmem: 0x0707,
        backlog: 0x0808,
        drops: 0x0909,
    };
    assert_eq!(SkMemInfo::parse(&data, LE), Ok(expected));
    assert_eq!(InetDiagAttr::parse(7, &data, LE), Ok(InetDiagAttr::SkMemInfo(expected)));
    assert_eq!(
        SkMemInfo::parse(&data[..35], LE),
        Err(DecodeError::Length { expected: 36, actual: 35 })
    );
    assert_eq!(
        MemInfo::parse(&data[..16], BE),
        Ok(MemInfo { rmem: 0x0101_0000, wmem: 0x0202_0000, fmem: 0x0303_0000, tmem: 0x0404_0000 })
    );
}

#[test]
fn tcp_info_block_is_read_field_by_field() {
    let mut data = vec![0u8; 224];
    for (i, b) in data.iter_mut().enumerate() {
        *b = i as u8;
    }
    let info = TcpInfo::parse(&data, LE).unwrap();
    assert_eq!(info.tcpi_state, 0);
    assert_eq!(info.tcpi_ca_state, 1);
    assert_eq!(info.tcpi_delivery_rate_app_limited, 7);
    assert_eq!(info.tcpi_rto, u32::from_le_bytes([8, 9, 10, 11]));
    assert_eq!(info.tcpi_total_retrans, u32::from_le_bytes([100, 101, 102, 103]));
    assert_eq!(
        info.tcpi_pacing_rate,
        u64::from_le_bytes([104, 105, 106, 107, 108, 109, 110, 111])
    );
    assert_eq!(info.tcpi_segs_out, u32::from_le_bytes([136, 137, 138, 139]));
    assert_eq!(
        info.tcpi_delivery_rate,
        u64::from_le_bytes([160, 161, 162, 163, 164, 165, 166, 167])
    );
    assert_eq!(info.tcpi_delivered, u32::from_le_bytes([192, 193, 194, 195]));
    assert_eq!(
        info.tcpi_bytes_retrans,
        u64::from_le_bytes([208, 209, 210, 211, 212, 213, 214, 215])
    );
    assert_eq!(info.tcpi_reord_seen, u32::from_le_bytes([220, 221, 222, 223]));
    assert_eq!(InetDiagAttr::parse(2, &data, LE), Ok(InetDiagAttr::Info(info)));
    assert_eq!(
        TcpInfo::parse(&data[..223], LE),
        Err(DecodeError::Length { expected: 224, actual: 223 })
    );
    let big = TcpInfo::parse(&data, BE).unwrap();
    assert_eq!(big.tcpi_rto, u32::from_be_bytes([8, 9, 10, 11]));
}

#[test]
fn extension_iterator_reads_as_it_walks() {
    // A type-of-service byte, an unknown kind, a mark that is too short.
    let buf = [
        5u8, 0, 5, 0, 0x10, 0, 0, 0, //
        6, 0, 0xFF, 0xFF, 1, 2, 0, 0, //
        6, 0, 15, 0, 1, 2, 0, 0,
    ];
    let mut it = RtaIterator::with_order(&buf[..], LE);
    assert_eq!(it.next(), Some(Ok(InetDiagAttr::Tos(0x10))));
    assert_eq!(it.next(), Some(Ok(InetDiagAttr::Other(0xFFFF, vec![1, 2]))));
    assert_eq!(it.next(), Some(Err(DecodeError::Length { expected: 4, actual: 2 })));
    assert_eq!(it.next(), None);
    let native = RtaIterator::new(&buf[..0]);
    assert_eq!(native.position, 0);
}
