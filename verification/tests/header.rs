use rs_proxy::header::{
    parse_addrs, parse_proxy_header, HeaderError, ProxiedAddress, PROXY_EXPECTED_HEADER_BYTES,
};

const GREETING: [u8; 12] = [0x0d, 0x0a, 0x0d, 0x0a, 0x00, 0x0d, 0x0a, 0x51, 0x55, 0x49, 0x54, 0x0a];

fn header(command: u8, protocol: u8, len: u16, block: &[u8]) -> Vec<u8> {
    let mut v = GREETING.to_vec();
    v.push(command);
    v.push(protocol);
    v.extend_from_slice(&len.to_be_bytes());
    v.extend_from_slice(block);
    v
}

fn ipv4_block() -> Vec<u8> {
    vec![192, 168, 1, 10, 10, 0, 0, 1, 0x1f, 0x90, 0x00, 0x50]
}

#[test]
fn valid_ipv4_header_gives_both_addresses() {
    let buf = header(0x21, 0x11, 12, &ipv4_block());
    assert_eq!(buf.len(), PROXY_EXPECTED_HEADER_BYTES);
    let addrs = parse_proxy_header(&buf).unwrap();
    assert_eq!(addrs.source.0, [192, 168, 1, 10]);
    assert_eq!(addrs.destination.0, [10, 0, 0, 1]);
}

#[test]
fn bytes_after_the_header_are_ignored() {
    let mut buf = header(0x21, 0x11, 12, &ipv4_block());
    buf.extend_from_slice(&[14, 1, 2, 3]);
    let addrs = parse_proxy_header(&buf).unwrap();
    assert_eq!(addrs.source.0, [192, 168, 1, 10]);
    assert_eq!(addrs.destination.0, [10, 0, 0, 1]);
}

#[test]
fn fewer_than_sixteen_bytes_are_too_short() {
    let buf = GREETING.to_vec();
    assert_eq!(parse_proxy_header(&buf).unwrap_err(), HeaderError::BufferTooShort);
    assert_eq!(parse_proxy_header(&[]).unwrap_err(), HeaderError::BufferTooShort);
}

#[test]
fn truncated_address_block_is_too_short() {
    let block = ipv4_block();
    let buf = header(0x21, 0x11, 12, &block[..8]);
    assert_eq!(parse_proxy_header(&buf).unwrap_err(), HeaderError::BufferTooShort);
}

#[test]
fn wrong_signature_is_invalid() {
    let mut buf = header(0x21, 0x11, 12, &ipv4_block());
    buf[7] = b'q';
    assert_eq!(parse_proxy_header(&buf).unwrap_err(), HeaderError::Invalid);
}

#[test]
fn local_command_is_invalid() {
    let buf = header(0x20, 0x11, 12, &ipv4_block());
    assert_eq!(parse_proxy_header(&buf).unwrap_err(), HeaderError::Invalid);
}

#[test]
fn unknown_command_is_invalid() {
    let buf = header(0x22, 0x11, 12, &ipv4_block());
    assert_eq!(parse_proxy_header(&buf).unwrap_err(), HeaderError::Invalid);
    let buf = header(0x11, 0x11, 12, &ipv4_block());
    assert_eq!(parse_proxy_header(&buf).unwrap_err(), HeaderError::Invalid);
}

#[test]
fn other_protocol_is_invalid() {
    // TCP over IPv6 with a block that happens to be short enough to fit
    let buf = header(0x21, 0x21, 12, &ipv4_block());
    assert_eq!(parse_proxy_header(&buf).unwrap_err(), HeaderError::Invalid);
    // UDP over IPv4
    let buf = header(0x21, 0x12, 12, &ipv4_block());
    assert_eq!(parse_proxy_header(&buf).unwrap_err(), HeaderError::Invalid);
}

#[test]
fn announced_length_beyond_the_buffer_is_too_short() {
    // the length is checked before the protocol
    let buf = header(0x21, 0x21, 36, &ipv4_block());
    assert_eq!(parse_proxy_header(&buf).unwrap_err(), HeaderError::BufferTooShort);
    let buf = header(0x21, 0x11, 13, &ipv4_block());
    assert_eq!(parse_proxy_header(&buf).unwrap_err(), HeaderError::BufferTooShort);
}

#[test]
fn announced_length_below_an_address_block_is_invalid() {
    let buf = header(0x21, 0x11, 8, &ipv4_block());
    assert_eq!(parse_proxy_header(&buf).unwrap_err(), HeaderError::Invalid);
}

#[test]
fn longer_announced_block_is_accepted_when_present() {
    let mut block = ipv4_block();
    block.extend_from_slice(&[1, 2, 3, 4]);
    let buf = header(0x21, 0x11, 16, &block);
    let addrs = parse_proxy_header(&buf).unwrap();
    assert_eq!(addrs.source.0, [192, 168, 1, 10]);
}

#[test]
fn invalid_header_stays_invalid_with_more_bytes() {
    let mut buf = header(0x20, 0x11, 12, &ipv4_block());
    assert_eq!(parse_proxy_header(&buf).unwrap_err(), HeaderError::Invalid);
    buf.extend_from_slice(&[0; 40]);
    assert_eq!(parse_proxy_header(&buf).unwrap_err(), HeaderError::Invalid);
}

#[test]
fn parse_addrs_moves_past_the_block() {
    let buf = header(0x21, 0x11, 20, &ipv4_block());
    let mut pos = 16usize;
    let mut rest = 20usize;
    let addrs = parse_addrs(&buf, &mut pos, &mut rest).unwrap();
    assert_eq!(addrs.source.0, [192, 168, 1, 10]);
    assert_eq!(addrs.destination.0, [10, 0, 0, 1]);
    assert_eq!(pos, 28);
    assert_eq!(rest, 8);
}

#[test]
fn parse_addrs_refusals_leave_counters() {
    let buf = header(0x21, 0x11, 12, &ipv4_block());
    let mut pos = 17usize;
    let mut rest = 12usize;
    assert_eq!(parse_addrs(&buf, &mut pos, &mut rest).unwrap_err(), HeaderError::BufferTooShort);
    assert_eq!((pos, rest), (17, 12));
    let mut pos = 16usize;
    let mut rest = 11usize;
    assert_eq!(parse_addrs(&buf, &mut pos, &mut rest).unwrap_err(), HeaderError::Invalid);
    assert_eq!((pos, rest), (16, 11));
}

#[test]
fn dotted_form_of_addresses() {
    assert_eq!(ProxiedAddress([192, 168, 1, 10]).to_dotted(), "192.168.1.10");
    assert_eq!(ProxiedAddress([0, 0, 0, 0]).to_dotted(), "0.0.0.0");
    assert_eq!(ProxiedAddress([255, 255, 255, 255]).to_dotted(), "255.255.255.255");
    assert_eq!(ProxiedAddress([10, 100, 9, 99]).to_dotted(), "10.100.9.99");
}
