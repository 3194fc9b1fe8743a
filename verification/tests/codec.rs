use stratum_counter::codec::decode_endpoint;
use stratum_counter::codec::encode_port;
use stratum_counter::codec::AddrError;
use stratum_counter::hex::parse_hex_u16;
use stratum_counter::record::Address;
use stratum_counter::record::Endpoint;

#[test]
fn loopback_fixture_decodes_reversed() {
    // "0100007F" carries the bytes [0x01, 0x00, 0x00, 0x7F]; the dotted quad
    // reverses them, and "1F90" is port 8080.
    let e = decode_endpoint("0100007F:1F90").unwrap();
    assert_eq!(
        e,
        Endpoint {
            addr: Address::V4 {
                a: 127,
                b: 0,
                c: 0,
                d: 1
            },
            port: 8080
        }
    );
}

#[test]
fn port_round_trip_concrete() {
    for p in [0u16, 1, 0x50, 3333, 8080, 0x1F90, 65535] {
        let s = encode_port(p);
        assert_eq!(parse_hex_u16(&s), Some(p));
    }
    assert_eq!(encode_port(8080), "1F90");
    assert_eq!(encode_port(0), "0000");
}

#[test]
fn lowercase_hex_accepted() {
    let e = decode_endpoint("0100007f:1f90").unwrap();
    assert_eq!(
        e,
        Endpoint {
            addr: Address::V4 {
                a: 127,
                b: 0,
                c: 0,
                d: 1
            },
            port: 8080
        }
    );
}

#[test]
fn missing_colon_is_malformed_token() {
    assert_eq!(decode_endpoint("0100007F"), Err(AddrError::MalformedToken));
}

#[test]
fn two_colons_are_malformed_token() {
    assert_eq!(
        decode_endpoint("0100007F:1F90:00"),
        Err(AddrError::MalformedToken)
    );
}

#[test]
fn bad_port_is_malformed_port() {
    assert_eq!(
        decode_endpoint("0100007F:ZZZZ"),
        Err(AddrError::MalformedPort)
    );
    assert_eq!(decode_endpoint("0100007F:"), Err(AddrError::MalformedPort));
    assert_eq!(
        decode_endpoint("0100007F:12345"),
        Err(AddrError::MalformedPort)
    );
}

#[test]
fn short_port_still_parses() {
    let e = decode_endpoint("00000000:50").unwrap();
    assert_eq!(e.port, 0x50);
}

#[test]
fn non_hex_address_passes_through_raw() {
    let e = decode_endpoint("NOTHEX00:0050").unwrap();
    assert_eq!(e.addr, Address::Raw("NOTHEX00".to_string()));
    assert_eq!(e.port, 80);
}

#[test]
fn short_address_passes_through_raw() {
    let e = decode_endpoint("7F:0050").unwrap();
    assert_eq!(e.addr, Address::Raw("7F".to_string()));
    assert_eq!(e.port, 80);
}
