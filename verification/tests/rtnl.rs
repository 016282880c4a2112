use netlink_packet::byte_order::ByteOrder;
use netlink_packet::constants::{
    NLMSG_DONE, NLMSG_ERROR, NLMSG_NOOP, RTM_DELADDR, RTM_DELLINK, RTM_DELQDISC, RTM_DELTCLASS,
    RTM_DELTFILTER, RTM_GETADDR, RTM_GETLINK, RTM_GETQDISC, RTM_GETTCLASS, RTM_GETTFILTER,
    RTM_NEWADDR, RTM_NEWLINK, RTM_NEWQDISC, RTM_NEWTCLASS, RTM_NEWTFILTER, RTM_SETLINK,
};
use netlink_packet::errors::DecodeError;
use netlink_packet::netlink::{
    ErrorMessage, NetlinkFlags, NetlinkHeader, NetlinkMessage, NetlinkPayload,
};
use netlink_packet::nla::{emit_nla, nla_buffer_len, DefaultNla, Nla, NlaBuffer, ParseableNla};
use netlink_packet::rtnl::address::{AddressHeader, AddressMessage};
use netlink_packet::rtnl::link::{LinkHeader, LinkMessage};
use netlink_packet::rtnl::message::RtnlMessage;
use netlink_packet::rtnl::tc::{
    TcHeader, TcMessage, TcNla, TcStats, TcStats2Nla, TcStatsBasic, TcStatsQueue,
};

const LE: ByteOrder = ByteOrder::LittleEndian;
const BE: ByteOrder = ByteOrder::BigEndian;

fn link() -> LinkMessage {
    LinkMessage::from_parts(
        LinkHeader {
            address_family: 0,
            link_layer_type: 1,
            index: 2,
            flags: 0x1043,
            change_mask: 0,
        },
        vec![DefaultNla::new(3, b"lo\0".to_vec())],
    )
}

fn address() -> AddressMessage {
    AddressMessage::from_parts(
        AddressHeader { family: 2, prefix_len: 8, flags: 0x80, scope: 254, index: 1 },
        vec![DefaultNla::new(1, vec![127, 0, 0, 1]), DefaultNla::new(3, b"lo\0".to_vec())],
    )
}

fn stats() -> TcStats {
    TcStats {
        bytes: 0x0102_0304_0506_0708,
        packets: 1,
        drops: 2,
        overlimits: 3,
        bps: 4,
        pps: 5,
        qlen: 6,
        backlog: 7,
    }
}

fn tc() -> TcMessage {
    TcMessage::from_parts(
        TcHeader { family: 0, index: 2, handle: 0x0001_0000, parent: 0xFFFF_FFFF, info: 2 },
        vec![
            TcNla::Stats(stats()),
            TcNla::Stats2(vec![
                TcStats2Nla::StatsBasic(TcStatsBasic { bytes: 1000, packets: 10 }),
                TcStats2Nla::StatsQueue(TcStatsQueue {
                    qlen: 1,
                    backlog: 2,
                    drops: 3,
                    requeues: 4,
                    overlimits: 5,
                }),
                TcStats2Nla::Other(DefaultNla::new(2, vec![1, 2, 3, 4, 5, 6, 7, 8, 9, 10, 11, 12])),
                TcStats2Nla::StatsApp(vec![1, 2, 3]),
            ]),
            TcNla::Options(vec![]),
            TcNla::XStats(vec![1]),
            TcNla::Rate(vec![2, 3]),
            TcNla::Fcnt(vec![4, 5, 6, 7]),
            TcNla::Stab(vec![8]),
            TcNla::Unspec(vec![9, 9]),
            TcNla::HwOffload(1),
            TcNla::Other(DefaultNla::new(0xFFFF, vec![0xAB; 7])),
            TcNla::Kind(String::from("fq_codel")),
        ],
    )
}

fn all_variants() -> Vec<(RtnlMessage, u16)> {
    vec![
        (RtnlMessage::NewLink(link()), RTM_NEWLINK),
        (RtnlMessage::DelLink(link()), RTM_DELLINK),
        (RtnlMessage::GetLink(link()), RTM_GETLINK),
        (RtnlMessage::SetLink(link()), RTM_SETLINK),
        (RtnlMessage::NewAddress(address()), RTM_NEWADDR),
        (RtnlMessage::DelAddress(address()), RTM_DELADDR),
        (RtnlMessage::GetAddress(address()), RTM_GETADDR),
        (RtnlMessage::NewQueueDiscipline(tc()), RTM_NEWQDISC),
        (RtnlMessage::DelQueueDiscipline(tc()), RTM_DELQDISC),
        (RtnlMessage::GetQueueDiscipline(tc()), RTM_GETQDISC),
        (RtnlMessage::NewTrafficClass(tc()), RTM_NEWTCLASS),
        (RtnlMessage::DelTrafficClass(tc()), RTM_DELTCLASS),
        (RtnlMessage::GetTrafficClass(tc()), RTM_GETTCLASS),
        (RtnlMessage::NewTrafficFilter(tc()), RTM_NEWTFILTER),
        (RtnlMessage::DelTrafficFilter(tc()), RTM_DELTFILTER),
        (RtnlMessage::GetTrafficFilter(tc()), RTM_GETTFILTER),
    ]
}

#[test]
fn message_types_are_the_kernel_codes() {
    let codes: Vec<u16> = all_variants().iter().map(|(m, _)| m.message_type()).collect();
    assert_eq!(codes, vec![16, 17, 18, 19, 20, 21, 22, 36, 37, 38, 40, 41, 42, 44, 45, 46]);
    for (message, code) in all_variants() {
        assert_eq!(message.message_type(), code);
    }
}

#[test]
fn each_predicate_holds_of_one_variant() {
    let variants = all_variants();
    for (i, (message, _)) in variants.iter().enumerate() {
        let answers = [
            message.is_new_link(),
            message.is_del_link(),
            message.is_get_link(),
            message.is_set_link(),
            message.is_new_address(),
            message.is_del_address(),
            message.is_get_address(),
            message.is_new_qdisc(),
            message.is_del_qdisc(),
            message.is_get_qdisc(),
            message.is_new_class(),
            message.is_del_class(),
            message.is_get_class(),
            message.is_new_filter(),
            message.is_del_filter(),
            message.is_get_filter(),
        ];
        for (j, answer) in answers.iter().enumerate() {
            assert_eq!(*answer, i == j);
        }
    }
}

#[test]
fn every_routing_message_round_trips() {
    for order in [LE, BE] {
        for (message, code) in all_variants() {
            let mut buf = vec![0xEEu8; message.buffer_len()];
            message.emit(&mut buf[..], order);
            assert_eq!(RtnlMessage::parse(code, &buf[..], order), Ok(message));
        }
    }
}

#[test]
fn every_routing_message_round_trips_in_an_envelope() {
    for order in [LE, BE] {
        for (message, code) in all_variants() {
            let mut packet = NetlinkMessage::from_rtnl(message);
            packet.header.set_flags(NetlinkFlags::new(5));
            packet.header.set_sequence_number(0x0102_0304);
            packet.header.set_port_number(77);
            packet.finalize();
            assert_eq!(packet.header().message_type(), code);
            assert_eq!(packet.header().length() as usize, packet.buffer_len());
            // Bytes behind the message do not matter.
            let mut buf = vec![0xEEu8; packet.buffer_len() + 5];
            packet.emit(&mut buf[..], order);
            assert_eq!(&buf[packet.buffer_len()..], &[0xEE; 5]);
            assert_eq!(NetlinkMessage::parse(&buf[..], order), Ok(packet));
        }
    }
}

#[test]
fn emit_computes_length_and_type_whatever_the_header_holds() {
    let mut packet = NetlinkMessage::from_rtnl(RtnlMessage::NewAddress(address()));
    packet.header.set_length(1);
    packet.header.set_message_type(9999);
    let mut buf = vec![0u8; packet.buffer_len()];
    packet.emit(&mut buf[..], LE);
    let parsed = NetlinkMessage::parse(&buf[..], LE).unwrap();
    packet.finalize();
    assert_eq!(parsed, packet);
    assert_eq!(parsed.header.length(), 40);
    assert_eq!(parsed.header.message_type(), RTM_NEWADDR);
    assert_eq!(parsed.payload(), &NetlinkPayload::Rtnl(RtnlMessage::NewAddress(address())));
}

#[test]
fn envelope_bytes_are_exact() {
    let mut packet = NetlinkMessage::from_rtnl(RtnlMessage::GetLink(LinkMessage::from_parts(
        LinkHeader {
            address_family: 17,
            link_layer_type: 0x0304,
            index: 5,
            flags: 6,
            change_mask: 7,
        },
        vec![],
    )));
    packet.header.set_flags(NetlinkFlags::new(0x301));
    packet.header.set_sequence_number(1);
    packet.finalize();
    let mut buf = vec![0xEEu8; 32];
    packet.emit(&mut buf[..], LE);
    assert_eq!(
        buf,
        vec![
            32, 0, 0, 0, 18, 0, 0x01, 0x03, 1, 0, 0, 0, 0, 0, 0, 0, //
            17, 0, 0x04, 0x03, 5, 0, 0, 0, 6, 0, 0, 0, 7, 0, 0, 0,
        ]
    );
    packet.emit(&mut buf[..], BE);
    assert_eq!(
        buf,
        vec![
            0, 0, 0, 32, 0, 18, 0x03, 0x01, 0, 0, 0, 1, 0, 0, 0, 0, //
            17, 0, 0x03, 0x04, 0, 0, 0, 5, 0, 0, 0, 6, 0, 0, 0, 7,
        ]
    );
}

#[test]
fn sentinels_are_read_without_their_payload() {
    let mut buf = vec![0u8; 20];
    buf[0] = 20;
    buf[4] = NLMSG_DONE as u8;
    buf[16] = 0xAA;
    let parsed = NetlinkMessage::parse(&buf[..], LE).unwrap();
    assert_eq!(parsed.payload, NetlinkPayload::Done);
    assert_eq!(parsed.header.length(), 20);
    buf[4] = NLMSG_NOOP as u8;
    assert_eq!(NetlinkMessage::parse(&buf[..], LE).unwrap().payload, NetlinkPayload::Noop);
    for payload in [NetlinkPayload::Done, NetlinkPayload::Noop] {
        let mut packet = NetlinkMessage::new(NetlinkHeader::new(), payload);
        packet.finalize();
        assert_eq!(packet.buffer_len(), 16);
        let mut out = vec![0u8; 16];
        packet.emit(&mut out[..], LE);
        assert_eq!(NetlinkMessage::parse(&out[..], LE), Ok(packet));
    }
}

#[test]
fn error_payload_keeps_code_and_echoed_header() {
    let echoed: Vec<u8> = (1..=16).collect();
    for code in [0i32, -1, -95, i32::MIN, i32::MAX, 17] {
        let mut packet = NetlinkMessage::new(
            NetlinkHeader::new(),
            NetlinkPayload::Error(ErrorMessage { code, header: echoed.clone() }),
        );
        packet.finalize();
        assert_eq!(packet.header.message_type(), NLMSG_ERROR);
        assert_eq!(packet.buffer_len(), 36);
        for order in [LE, BE] {
            let mut buf = vec![0u8; 36];
            packet.emit(&mut buf[..], order);
            assert_eq!(NetlinkMessage::parse(&buf[..], order), Ok(packet.clone()));
        }
    }
    let mut buf = vec![0u8; 36];
    buf[0] = 36;
    buf[4] = 2;
    buf[16..20].copy_from_slice(&[0xA1, 0xFF, 0xFF, 0xFF]);
    buf[20..36].copy_from_slice(&echoed);
    assert_eq!(
        NetlinkMessage::parse(&buf[..], LE).unwrap().payload,
        NetlinkPayload::Error(ErrorMessage { code: -95, header: echoed })
    );
    assert_eq!(
        ErrorMessage::parse(&[1, 2, 3], LE),
        Err(DecodeError::Length { expected: 4, actual: 3 })
    );
}

#[test]
fn envelope_length_errors_name_both_sizes() {
    assert_eq!(
        NetlinkMessage::parse(&[0u8; 15], LE),
        Err(DecodeError::Length { expected: 16, actual: 15 })
    );
    let mut buf = vec![0u8; 16];
    buf[0] = 15;
    buf[4] = 3;
    assert_eq!(
        NetlinkMessage::parse(&buf[..], LE),
        Err(DecodeError::Length { expected: 16, actual: 15 })
    );
    buf[0] = 17;
    assert_eq!(
        NetlinkMessage::parse(&buf[..], LE),
        Err(DecodeError::Length { expected: 17, actual: 16 })
    );
    // A link message whose payload is shorter than the link header.
    buf[0] = 16;
    buf[4] = 16;
    assert_eq!(
        NetlinkMessage::parse(&buf[..], LE),
        Err(DecodeError::Length { expected: 16, actual: 0 })
    );
    assert_eq!(
        RtnlMessage::parse(RTM_NEWADDR, &[0u8; 7], LE),
        Err(DecodeError::Length { expected: 8, actual: 7 })
    );
    assert_eq!(
        RtnlMessage::parse(RTM_NEWQDISC, &[0u8; 19], LE),
        Err(DecodeError::Length { expected: 20, actual: 19 })
    );
}

#[test]
fn unknown_type_codes_are_reported_by_name() {
    for code in [0u16, 4, 15, 23, 35, 39, 43, 47, 9999, 0xFFFF] {
        assert_eq!(
            RtnlMessage::parse(code, &[0u8; 64], LE),
            Err(DecodeError::UnknownMessageType(code))
        );
        let mut buf = vec![0u8; 16];
        LE.write_u32(&mut buf[..], 0, 16);
        LE.write_u16(&mut buf[..], 4, code);
        assert_eq!(
            NetlinkMessage::parse(&buf[..], LE),
            Err(DecodeError::UnknownMessageType(code))
        );
    }
}

#[test]
fn last_attribute_without_padding_is_not_read_back() {
    // The value of the last attribute takes four bytes: nothing stands
    // behind it in a buffer of exactly the size of the message.
    let message = TcMessage::from_parts(
        TcHeader::new(),
        vec![TcNla::HwOffload(1), TcNla::Kind(String::from("htb"))],
    );
    let mut buf = vec![0u8; message.buffer_len()];
    message.emit(&mut buf[..], LE);
    let parsed = TcMessage::parse(&buf[..], LE).unwrap();
    assert_eq!(parsed.nlas, vec![TcNla::HwOffload(1)]);
    buf.push(0);
    assert_eq!(TcMessage::parse(&buf[..], LE), Ok(message));
}

#[test]
fn statistics_blocks_have_the_kernel_layout() {
    let mut buf = [0xEEu8; 40];
    stats().to_bytes(&mut buf, LE);
    assert_eq!(
        buf,
        [
            8, 7, 6, 5, 4, 3, 2, 1, 1, 0, 0, 0, 2, 0, 0, 0, 3, 0, 0, 0, 4, 0, 0, 0, 5, 0, 0, 0, 6,
            0, 0, 0, 7, 0, 0, 0, 0, 0, 0, 0
        ]
    );
    assert_eq!(TcStats::from_bytes(&buf, LE), Ok(stats()));
    assert_eq!(
        TcStats::from_bytes(&buf[..39], LE),
        Err(DecodeError::Length { expected: 40, actual: 39 })
    );
    let basic = TcStatsBasic { bytes: 0x0A0B, packets: 0x0C };
    let mut buf = [0xEEu8; 16];
    basic.to_bytes(&mut buf, BE);
    assert_eq!(buf, [0, 0, 0, 0, 0, 0, 0x0A, 0x0B, 0, 0, 0, 0x0C, 0, 0, 0, 0]);
    assert_eq!(TcStatsBasic::from_bytes(&buf, BE), Ok(basic));
    assert_eq!(
        TcStatsBasic::from_bytes(&buf[..15], BE),
        Err(DecodeError::Length { expected: 16, actual: 15 })
    );
    let queue = TcStatsQueue { qlen: 1, backlog: 2, drops: 3, requeues: 4, overlimits: 5 };
    let mut buf = [0xEEu8; 20];
    queue.to_bytes(&mut buf, LE);
    assert_eq!(buf, [1, 0, 0, 0, 2, 0, 0, 0, 3, 0, 0, 0, 4, 0, 0, 0, 5, 0, 0, 0]);
    assert_eq!(TcStatsQueue::from_bytes(&buf, LE), Ok(queue));
    assert_eq!(
        TcStatsQueue::from_bytes(&buf[..19], LE),
        Err(DecodeError::Length { expected: 20, actual: 19 })
    );
}

#[test]
fn traffic_control_attributes_have_their_kinds_and_sizes() {
    let cases: Vec<(TcNla, u16, usize)> = vec![
        (TcNla::Unspec(vec![1, 2]), 0, 2),
        (TcNla::Kind(String::from("pfifo")), 1, 6),
        (TcNla::Options(vec![1, 2, 3]), 2, 3),
        (TcNla::Stats(stats()), 3, 40),
        (TcNla::XStats(vec![]), 4, 0),
        (TcNla::Rate(vec![1]), 5, 1),
        (TcNla::Fcnt(vec![1, 2, 3, 4]), 6, 4),
        (
            TcNla::Stats2(vec![
                TcStats2Nla::StatsBasic(TcStatsBasic { bytes: 1, packets: 2 }),
                TcStats2Nla::StatsApp(vec![1]),
            ]),
            7,
            28,
        ),
        (TcNla::Stab(vec![1, 2, 3, 4, 5]), 8, 5),
        (TcNla::HwOffload(1), 12, 1),
        (TcNla::Other(DefaultNla::new(77, vec![1, 2, 3])), 77, 3),
    ];
    for (nla, kind, len) in cases {
        assert_eq!(nla.kind(), kind);
        assert_eq!(nla.value_len(), len);
        assert_eq!(nla_buffer_len(&nla), 4 + (len + 3) / 4 * 4);
        let mut value = vec![0xEEu8; len];
        nla.emit_value(&mut value[..], LE);
        let read = <TcNla as ParseableNla>::parse(&NlaBuffer { kind, value: &value[..] }, LE);
        assert_eq!(read, Ok(nla));
    }
    let nested: Vec<(TcStats2Nla, u16, usize)> = vec![
        (TcStats2Nla::StatsApp(vec![1, 2, 3]), 4, 3),
        (TcStats2Nla::StatsBasic(TcStatsBasic { bytes: 1, packets: 2 }), 1, 16),
        (
            TcStats2Nla::StatsQueue(TcStatsQueue {
                qlen: 1,
                backlog: 2,
                drops: 3,
                requeues: 4,
                overlimits: 5,
            }),
            3,
            20,
        ),
        (TcStats2Nla::Other(DefaultNla::new(2, vec![9; 12])), 2, 12),
    ];
    for (nla, kind, len) in nested {
        assert_eq!(nla.kind(), kind);
        assert_eq!(nla.value_len(), len);
        let mut value = vec![0xEEu8; len];
        nla.emit_value(&mut value[..], BE);
        let read = <TcStats2Nla as ParseableNla>::parse(&NlaBuffer { kind, value: &value[..] }, BE);
        assert_eq!(read, Ok(nla));
    }
}

#[test]
fn name_of_a_discipline_is_written_with_its_nul() {
    let nla = TcNla::Kind(String::from("htb"));
    let mut buf = [0xEEu8; 8];
    emit_nla(&nla, &mut buf, LE);
    assert_eq!(buf, [8, 0, 1, 0, b'h', b't', b'b', 0]);
}

#[test]
fn errors_of_attributes_are_the_errors_of_the_message() {
    let read = |kind: u16, value: &[u8]| {
        <TcNla as ParseableNla>::parse(&NlaBuffer { kind, value }, LE)
    };
    assert_eq!(read(1, b"htb"), Err(DecodeError::Malformed));
    assert_eq!(read(3, &[0u8; 39]), Err(DecodeError::Length { expected: 40, actual: 39 }));
    assert_eq!(read(12, &[]), Err(DecodeError::Length { expected: 1, actual: 0 }));
    // A nested statistic that is too short, and one whose length is
    // malformed.
    assert_eq!(
        read(7, &[8, 0, 1, 0, 0, 0, 0, 0, 0]),
        Err(DecodeError::Length { expected: 16, actual: 4 })
    );
    assert_eq!(read(7, &[2, 0, 1, 0, 0, 0, 0, 0]), Err(DecodeError::Malformed));
    // Through a whole message.
    let mut buf = vec![0u8; 20];
    buf.extend_from_slice(&[7, 0, 1, 0, b'h', b't', b'b', 0]);
    assert_eq!(RtnlMessage::parse(RTM_NEWQDISC, &buf[..], LE), Err(DecodeError::Malformed));
}

#[test]
fn parts_of_messages_come_apart_again() {
    let (header, nlas) = link().into_parts();
    assert_eq!(header.index, 2);
    assert_eq!(nlas.len(), 1);
    let (header, nlas) = address().into_parts();
    assert_eq!(
        header,
        AddressHeader { family: 2, prefix_len: 8, flags: 0x80, scope: 254, index: 1 }
    );
    assert_eq!(nlas.len(), 2);
    let (header, nlas) = tc().into_parts();
    assert_eq!(header.parent, 0xFFFF_FFFF);
    assert_eq!(nlas.len(), 11);
    assert_eq!(AddressHeader::new().index, 0);
    let mut flags = NetlinkFlags::new(1);
    flags.insert(0x300);
    assert!(flags.contains(0x301));
    assert!(!flags.contains(4));
    assert_eq!(flags.bits(), 0x301);
    let mut header = NetlinkHeader::new();
    header.set_flags(flags);
    assert_eq!(header.flags(), flags);
    assert_eq!(header.sequence_number(), 0);
    assert_eq!(header.port_number(), 0);
}
