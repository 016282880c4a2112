use netlink_packet::byte_order::ByteOrder;
use netlink_packet::constants::{NLM_F_DUMP, NLM_F_REQUEST, RTM_GETLINK};
use netlink_packet::errors::DecodeError;
use netlink_packet::netlink::{NetlinkFlags, NetlinkMessage, NetlinkPayload, NETLINK_HEADER_LEN};
use netlink_packet::rtnl::link::{LinkHeader, LinkMessage, LINK_HEADER_LEN};
use netlink_packet::rtnl::message::RtnlMessage;

#[test]
fn get_link_request_round_trips() {
    let order = ByteOrder::native();
    let mut packet =
        NetlinkMessage::from_rtnl(RtnlMessage::GetLink(LinkMessage::from_parts(
            LinkHeader::new(),
            vec![],
        )));
    packet.header.set_flags(NetlinkFlags::new(NLM_F_DUMP | NLM_F_REQUEST));
    packet.header.set_sequence_number(1);
    packet.finalize();
    assert_eq!(packet.buffer_len(), NETLINK_HEADER_LEN + LINK_HEADER_LEN);
    assert_eq!(packet.buffer_len(), 32);
    assert_eq!(packet.header.length(), 32);
    assert_eq!(packet.header.message_type(), RTM_GETLINK);
    let mut buf = vec![0u8; packet.buffer_len()];
    packet.emit(&mut buf[..], order);
    let parsed = NetlinkMessage::parse(&buf[..], order).unwrap();
    assert_eq!(parsed, packet);
}

#[test]
fn unknown_message_type_is_reported() {
    let order = ByteOrder::LittleEndian;
    let mut buf = vec![0u8; 16];
    buf[0] = 16;
    buf[4] = (9999u16 & 0xff) as u8;
    buf[5] = (9999u16 >> 8) as u8;
    assert_eq!(
        NetlinkMessage::parse(&buf[..], order),
        Err(DecodeError::UnknownMessageType(9999))
    );
    assert!(matches!(NetlinkMessage::parse(&buf[..], order), Err(_)));
    let _ = NetlinkPayload::Done;
}
