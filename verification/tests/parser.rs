use stratum_counter::codec::AddrError;
use stratum_counter::parser::parse_line;
use stratum_counter::parser::ParseError;
use stratum_counter::parser::ParseOutcome;
use stratum_counter::record::Address;

#[test]
fn header_line_skips() {
    // The column-header row is an intentional skip, never an error.
    let r = parse_line("  sl  local_address rem_address   st ...");
    assert_eq!(r, ParseOutcome::Skip);
}

#[test]
fn empty_line_skips() {
    assert_eq!(parse_line(""), ParseOutcome::Skip);
    assert_eq!(parse_line("   \t  "), ParseOutcome::Skip);
}

#[test]
fn full_line_parses() {
    let line = "   0: 0100007F:1F90 00000000:0000 0A 00000000:00000000 00:00000000 00000000  1000        0 12345 1 0000000000000000 100 0 0 10 0";
    match parse_line(line) {
        ParseOutcome::Record(c) => {
            assert_eq!(
                c.local.addr,
                Address::V4 {
                    a: 127,
                    b: 0,
                    c: 0,
                    d: 1
                }
            );
            assert_eq!(c.local.port, 8080);
            assert_eq!(c.remote.addr, Address::V4 { a: 0, b: 0, c: 0, d: 0 });
            assert_eq!(c.remote.port, 0);
            assert_eq!(c.state, 10);
        }
        other => panic!("expected a record, got {:?}", other),
    }
}

#[test]
fn too_few_fields_reports_count() {
    let r = parse_line(" 0: 0100007F:1F90 00000000:0000");
    assert_eq!(r, ParseOutcome::Fail(ParseError::InvalidLineFormat(3)));
    assert_eq!(
        parse_line("one"),
        ParseOutcome::Fail(ParseError::InvalidLineFormat(1))
    );
}

#[test]
fn bad_local_token_wraps_error() {
    let r = parse_line(" 0: 0100007F 00000000:0000 0A");
    assert_eq!(
        r,
        ParseOutcome::Fail(ParseError::InvalidLocalAddress(AddrError::MalformedToken))
    );
}

#[test]
fn bad_remote_port_wraps_error() {
    let r = parse_line(" 0: 0100007F:1F90 00000000:ZZZZ 0A");
    assert_eq!(
        r,
        ParseOutcome::Fail(ParseError::InvalidRemoteAddress(AddrError::MalformedPort))
    );
}

#[test]
fn bad_state_field_fails() {
    let r = parse_line(" 0: 0100007F:1F90 00000000:0000 GG");
    assert_eq!(r, ParseOutcome::Fail(ParseError::InvalidState));
    let r = parse_line(" 0: 0100007F:1F90 00000000:0000 1FF");
    assert_eq!(r, ParseOutcome::Fail(ParseError::InvalidState));
}

#[test]
fn degraded_address_still_yields_record() {
    let r = parse_line(" 0: WXYZWXYZ:0050 00000000:0000 01");
    match r {
        ParseOutcome::Record(c) => {
            assert_eq!(c.local.addr, Address::Raw("WXYZWXYZ".to_string()));
            assert_eq!(c.local.port, 80);
            assert_eq!(c.state, 1);
        }
        other => panic!("expected a record, got {:?}", other),
    }
}
