use netlink_packet::byte_order::ByteOrder;
use netlink_packet::errors::DecodeError;
use netlink_packet::nla::{
    emit_nla, emit_nlas, fill_zero, nla_align, nla_buffer_len, nlas_buffer_len, parse_nlas,
    parse_u32, parse_u8, DefaultNla, Nla, NlaBuffer, NlasIterator, ParseableNla,
};
use netlink_packet::text::parse_string;

const LE: ByteOrder = ByteOrder::LittleEndian;
const BE: ByteOrder = ByteOrder::BigEndian;

#[test]
fn native_order_is_the_order_of_the_machine() {
    let expected = if u16::from_ne_bytes([1, 0]) == 1 { LE } else { BE };
    assert_eq!(ByteOrder::native(), expected);
    assert_eq!(ByteOrder::network(), BE);
}

#[test]
fn order_is_told_from_how_the_probe_reads() {
    assert_eq!(ByteOrder::reading_as(1), LE);
    assert_eq!(ByteOrder::reading_as(0x100), BE);
    assert_eq!(ByteOrder::reading_as(0), BE);
    assert_eq!(ByteOrder::reading_as(1).read_u16(&[1, 0], 0), 1);
    assert_eq!(ByteOrder::reading_as(0x100).read_u16(&[1, 0], 0), 0x100);
    assert_eq!(ByteOrder::reading_as(u16::from_ne_bytes([1, 0])), ByteOrder::native());
}

#[test]
fn integers_are_read_in_both_orders() {
    let buf = [0xAAu8, 0x01, 0x02, 0x03, 0x04, 0x05, 0x06, 0x07, 0x08, 0xBB];
    assert_eq!(LE.read_u16(&buf, 1), 0x0201);
    assert_eq!(BE.read_u16(&buf, 1), 0x0102);
    assert_eq!(LE.read_u32(&buf, 1), 0x0403_0201);
    assert_eq!(BE.read_u32(&buf, 1), 0x0102_0304);
    assert_eq!(LE.read_u64(&buf, 1), 0x0807_0605_0403_0201);
    assert_eq!(BE.read_u64(&buf, 1), 0x0102_0304_0506_0708);
}

#[test]
fn integers_are_written_in_both_orders() {
    let mut buf = [0xEEu8; 10];
    LE.write_u16(&mut buf, 1, 0x0201);
    assert_eq!(buf, [0xEE, 0x01, 0x02, 0xEE, 0xEE, 0xEE, 0xEE, 0xEE, 0xEE, 0xEE]);
    BE.write_u16(&mut buf, 1, 0x0201);
    assert_eq!(buf, [0xEE, 0x02, 0x01, 0xEE, 0xEE, 0xEE, 0xEE, 0xEE, 0xEE, 0xEE]);
    LE.write_u32(&mut buf, 2, 0x0403_0201);
    assert_eq!(buf, [0xEE, 0x02, 0x01, 0x02, 0x03, 0x04, 0xEE, 0xEE, 0xEE, 0xEE]);
    BE.write_u32(&mut buf, 2, 0x0403_0201);
    assert_eq!(buf, [0xEE, 0x02, 0x04, 0x03, 0x02, 0x01, 0xEE, 0xEE, 0xEE, 0xEE]);
    LE.write_u64(&mut buf, 2, 0x0807_0605_0403_0201);
    assert_eq!(buf, [0xEE, 0x02, 0x01, 0x02, 0x03, 0x04, 0x05, 0x06, 0x07, 0x08]);
    BE.write_u64(&mut buf, 2, 0x0807_0605_0403_0201);
    assert_eq!(buf, [0xEE, 0x02, 0x08, 0x07, 0x06, 0x05, 0x04, 0x03, 0x02, 0x01]);
}

#[test]
fn what_is_written_is_read_back() {
    for order in [LE, BE] {
        let mut buf = [0u8; 16];
        order.write_u16(&mut buf, 0, 0xBEEF);
        order.write_u32(&mut buf, 4, 0xDEAD_BEEF);
        order.write_u64(&mut buf, 8, 0x0123_4567_89AB_CDEF);
        assert_eq!(order.read_u16(&buf, 0), 0xBEEF);
        assert_eq!(order.read_u32(&buf, 4), 0xDEAD_BEEF);
        assert_eq!(order.read_u64(&buf, 8), 0x0123_4567_89AB_CDEF);
    }
}

#[test]
fn alignment_rounds_up_to_four() {
    assert_eq!(nla_align(0), 0);
    assert_eq!(nla_align(1), 4);
    assert_eq!(nla_align(4), 4);
    assert_eq!(nla_align(5), 8);
    assert_eq!(nla_align(39), 40);
}

#[test]
fn fill_zero_clears_every_byte() {
    let mut buf = [7u8; 5];
    fill_zero(&mut buf);
    assert_eq!(buf, [0u8; 5]);
}

/// Two attributes with payloads of five bytes, each followed by three bytes
/// of padding that are not zero.
fn two_padded_attributes() -> Vec<u8> {
    vec![
        9, 0, 1, 0, 10, 11, 12, 13, 14, 0xFF, 0xFF, 0xFF, //
        9, 0, 2, 0, 20, 21, 22, 23, 24, 0xFF, 0xFF, 0xFF,
    ]
}

#[test]
fn padding_between_attributes_is_skipped() {
    let buf = two_padded_attributes();
    let mut it = NlasIterator::new(&buf[..], LE);
    let first = it.next().unwrap().unwrap();
    assert_eq!(first, NlaBuffer { kind: 1, value: &[10, 11, 12, 13, 14] });
    let second = it.next().unwrap().unwrap();
    assert_eq!(second, NlaBuffer { kind: 2, value: &[20, 21, 22, 23, 24] });
    assert_eq!(it.next(), None);
    assert_eq!(it.next(), None);
    let nlas: Vec<DefaultNla> = parse_nlas(&buf[..], LE).unwrap();
    assert_eq!(nlas.len(), 2);
}

#[test]
fn attribute_header_is_read_in_the_order_given() {
    let buf = [0u8, 6, 0x12, 0x34, 0xAA, 0xBB, 0, 0];
    let mut it = NlasIterator::new(&buf[..], BE);
    assert_eq!(it.next(), Some(Ok(NlaBuffer { kind: 0x1234, value: &[0xAA, 0xBB] })));
    assert_eq!(it.next(), None);
}

#[test]
fn truncated_attribute_ends_the_walk_silently() {
    // The second attribute declares twelve bytes and only eight are left.
    let buf = [8u8, 0, 1, 0, 1, 2, 3, 4, 12, 0, 2, 0, 5, 6, 7, 8];
    let mut it = NlasIterator::new(&buf[..], LE);
    assert_eq!(it.next(), Some(Ok(NlaBuffer { kind: 1, value: &[1, 2, 3, 4] })));
    assert_eq!(it.next(), None);
    let nlas: Vec<DefaultNla> = parse_nlas(&buf[..], LE).unwrap();
    assert_eq!(nlas, vec![DefaultNla::new(1, vec![1, 2, 3, 4])]);
}

#[test]
fn attribute_that_reaches_the_end_is_not_yielded() {
    // The declared length is exactly what is left.
    let buf = [8u8, 0, 1, 0, 1, 2, 3, 4];
    let mut it = NlasIterator::new(&buf[..], LE);
    assert_eq!(it.next(), None);
    // One more byte behind it, and it is found.
    let buf = [8u8, 0, 1, 0, 1, 2, 3, 4, 0];
    let mut it = NlasIterator::new(&buf[..], LE);
    assert_eq!(it.next(), Some(Ok(NlaBuffer { kind: 1, value: &[1, 2, 3, 4] })));
    assert_eq!(it.next(), None);
}

#[test]
fn fewer_than_four_bytes_end_the_walk() {
    for len in 0..4usize {
        let buf = vec![9u8; len];
        let mut it = NlasIterator::new(&buf[..], LE);
        assert_eq!(it.next(), None);
    }
}

#[test]
fn length_under_four_is_malformed() {
    let buf = [3u8, 0, 1, 0, 0, 0, 0, 0];
    let mut it = NlasIterator::new(&buf[..], LE);
    assert_eq!(it.next(), Some(Err(DecodeError::Malformed)));
    assert_eq!(it.next(), None);
    let r: Result<Vec<DefaultNla>, DecodeError> = parse_nlas(&buf[..], LE);
    assert_eq!(r, Err(DecodeError::Malformed));
}

#[test]
fn empty_attribute_is_yielded() {
    let buf = [4u8, 0, 7, 0, 0];
    let mut it = NlasIterator::new(&buf[..], LE);
    assert_eq!(it.next(), Some(Ok(NlaBuffer { kind: 7, value: &[] })));
    assert_eq!(it.next(), None);
}

#[test]
fn unknown_kind_is_kept_and_written_back_byte_for_byte() {
    let buf = [9u8, 0, 0xFF, 0xFF, 1, 2, 3, 4, 5, 0, 0, 0];
    let mut it = NlasIterator::new(&buf[..], LE);
    let nla = it.next().unwrap().unwrap();
    let other = <DefaultNla as ParseableNla>::parse(&nla, LE).unwrap();
    assert_eq!(other, DefaultNla::new(0xFFFF, vec![1, 2, 3, 4, 5]));
    assert_eq!(other.kind(), 0xFFFF);
    assert_eq!(other.value_len(), 5);
    assert_eq!(nla_buffer_len(&other), 12);
    let mut out = [0xEEu8; 12];
    emit_nla(&other, &mut out, LE);
    assert_eq!(out, buf);
}

#[test]
fn list_of_attributes_is_written_with_zero_padding() {
    let nlas = vec![DefaultNla::new(1, vec![0xAA]), DefaultNla::new(2, vec![])];
    assert_eq!(nlas_buffer_len(&nlas), 12);
    let mut out = [0xEEu8; 12];
    emit_nlas(&nlas, &mut out, LE);
    assert_eq!(out, [5, 0, 1, 0, 0xAA, 0, 0, 0, 4, 0, 2, 0]);
    let mut out = [0xEEu8; 12];
    emit_nlas(&nlas, &mut out, BE);
    assert_eq!(out, [0, 5, 0, 1, 0xAA, 0, 0, 0, 0, 4, 0, 2]);
}

#[test]
fn list_is_read_back_when_the_last_value_is_padded() {
    let nlas = vec![
        DefaultNla::new(3, vec![1, 2, 3, 4]),
        DefaultNla::new(0xFFFF, vec![9, 8, 7, 6, 5]),
    ];
    let mut out = vec![0u8; nlas_buffer_len(&nlas)];
    emit_nlas(&nlas, &mut out[..], LE);
    let back: Vec<DefaultNla> = parse_nlas(&out[..], LE).unwrap();
    assert_eq!(back, nlas);
}

#[test]
fn last_value_without_padding_is_not_read_back() {
    let nlas = vec![
        DefaultNla::new(0xFFFF, vec![9, 8, 7, 6, 5]),
        DefaultNla::new(3, vec![1, 2, 3, 4]),
    ];
    let mut out = vec![0u8; nlas_buffer_len(&nlas)];
    emit_nlas(&nlas, &mut out[..], LE);
    let back: Vec<DefaultNla> = parse_nlas(&out[..], LE).unwrap();
    assert_eq!(back, vec![DefaultNla::new(0xFFFF, vec![9, 8, 7, 6, 5])]);
    // With one byte behind the list, all of it comes back.
    out.push(0);
    let back: Vec<DefaultNla> = parse_nlas(&out[..], LE).unwrap();
    assert_eq!(back, nlas);
}

#[test]
fn text_must_end_in_its_only_nul() {
    assert_eq!(parse_string(b"cubic\0"), Ok(String::from("cubic")));
    assert_eq!(parse_string(b"\0"), Ok(String::new()));
    assert_eq!(parse_string("h\u{e9}\0".as_bytes()), Ok(String::from("h\u{e9}")));
    assert_eq!(parse_string(b""), Err(DecodeError::Malformed));
    assert_eq!(parse_string(b"cubic"), Err(DecodeError::Malformed));
    assert_eq!(parse_string(b"cu\0bic\0"), Err(DecodeError::Malformed));
    assert_eq!(parse_string(&[0xFF, 0xFE, 0]), Err(DecodeError::Malformed));
}

#[test]
fn short_payloads_are_length_errors() {
    assert_eq!(parse_u8(&[]), Err(DecodeError::Length { expected: 1, actual: 0 }));
    assert_eq!(parse_u8(&[5, 6]), Ok(5));
    assert_eq!(parse_u32(&[1, 2, 3], LE), Err(DecodeError::Length { expected: 4, actual: 3 }));
    assert_eq!(parse_u32(&[1, 2, 3, 4, 5], LE), Ok(0x0403_0201));
    assert_eq!(parse_u32(&[1, 2, 3, 4, 5], BE), Ok(0x0102_0304));
}
