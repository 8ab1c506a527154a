use fast_mic::socket::{parse_address, Endpoint, SocketError};

fn ok(address: &str) -> Endpoint {
    parse_address(address).expect("address should parse")
}

fn ok_v4(address: &str) -> (u8, u8, u8, u8, u16) {
    match ok(address) {
        Endpoint::V4 { o0, o1, o2, o3, port } => (o0, o1, o2, o3, port),
        other => panic!("expected a dotted-quad endpoint, got {:?}", other),
    }
}

fn ok_v6(address: &str) -> (Vec<u8>, u16) {
    match ok(address) {
        Endpoint::V6 { host, port } => (host, port),
        other => panic!("expected a bracketed endpoint, got {:?}", other),
    }
}

fn rejected(address: &str) {
    match parse_address(address) {
        Err(SocketError::AddressError) => (),
        other => panic!("expected AddressError for {:?}, got {:?}", address, other),
    }
}

#[test]
fn parses_a_plain_address() {
    assert_eq!(ok_v4("127.0.0.1:8080"), (127, 0, 0, 1, 8080));
}

#[test]
fn parses_extreme_values() {
    assert_eq!(ok_v4("255.255.255.255:65535"), (255, 255, 255, 255, 65535));
    assert_eq!(ok_v4("0.0.0.0:0"), (0, 0, 0, 0, 0));
    assert_eq!(ok_v4("1.22.133.244:9"), (1, 22, 133, 244, 9));
}

#[test]
fn parses_bracketed_addresses() {
    assert_eq!(ok_v6("[::1]:8080"), (b"::1".to_vec(), 8080));
    assert_eq!(ok_v6("[::]:1"), (b"::".to_vec(), 1));
    assert_eq!(
        ok_v6("[2001:db8::8:800:200C:417A]:80"),
        (b"2001:db8::8:800:200C:417A".to_vec(), 80)
    );
    assert_eq!(ok_v6("[1:2:3:4:5:6:7:8]:443"), (b"1:2:3:4:5:6:7:8".to_vec(), 443));
    assert_eq!(ok_v6("[fe80::0001]:9"), (b"fe80::0001".to_vec(), 9));
    assert_eq!(ok_v6("[1:2:3:4:5:6:7::]:9"), (b"1:2:3:4:5:6:7::".to_vec(), 9));
}

#[test]
fn parses_embedded_quad_hosts() {
    assert_eq!(ok_v6("[::ffff:192.168.0.1]:443"), (b"::ffff:192.168.0.1".to_vec(), 443));
    assert_eq!(
        ok_v6("[1:2:3:4:5:6:7.8.9.10]:25"),
        (b"1:2:3:4:5:6:7.8.9.10".to_vec(), 25)
    );
}

#[test]
fn rejects_malformed_bracketed_addresses() {
    rejected("[::1]");
    rejected("[::1]:");
    rejected("[]:80");
    rejected("[:::1]:80");
    rejected("[1::2::3]:80");
    rejected("[1:2:3:4:5:6:7:8:9]:80");
    rejected("[1:2:3:4:5:6:7:8::]:80");
    rejected("[12345::]:80");
    rejected("[1:2:3:4:5:6:7]:80");
    rejected("[g::1]:80");
    rejected("[1.2.3.4::ffff]:80");
    rejected("[::1]x80");
    rejected("[::1]:80]");
    // zone identifiers are outside the grammar
    rejected("[fe80::1%3]:80");
}

#[test]
fn rejects_malformed_addresses() {
    rejected("");
    rejected("localhost:80");
    rejected("1.2.3:80");
    rejected("1.2.3.4");
    rejected("1.2.3.4:");
    rejected(":80");
    rejected("1.2.3.4.5:80");
    rejected("1.2.3.4:80:90");
    rejected(" 1.2.3.4:80");
    rejected("1.2.3.4:80 ");
    rejected("1.2.3.4;80");
    rejected("::1:80");
}

#[test]
fn rejects_out_of_range_values() {
    rejected("256.1.1.1:80");
    rejected("1.1.1.999:80");
    rejected("1.2.3.4:65536");
    rejected("1.2.3.4:99999");
    rejected("1234.1.1.1:80");
    rejected("1.2.3.4:123456");
    rejected("[::1]:65536");
}

#[test]
fn octets_take_no_leading_zero_but_ports_do() {
    rejected("01.2.3.4:80");
    rejected("1.2.3.04:80");
    // a lone zero is not a leading zero
    assert_eq!(ok_v4("0.2.3.4:80").0, 0);
    // the port is read as a plain decimal numeral, zero prefix and all
    assert_eq!(ok_v4("1.2.3.4:0080").4, 80);
    assert_eq!(ok_v4("1.2.3.4:00000").4, 0);
    assert_eq!(ok_v6("[::1]:0080").1, 80);
}

#[test]
fn rejects_non_ascii_input() {
    rejected("1.2.3.4:8\u{663}");
    rejected("\u{661}.2.3.4:80");
    rejected("[::\u{3b1}]:80");
}

#[test]
fn error_messages() {
    assert_eq!(SocketError::AddressError.message(), "Device address invalid");
    assert_eq!(SocketError::ConnectionError.message(), "Error connecting to device");
    assert_eq!(SocketError::SetupError.message(), "Internal error");
}
