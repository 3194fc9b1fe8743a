use stratum_counter::collector::collect_container_output;
use stratum_counter::parser::ParseError;
use stratum_counter::record::Address;

fn chunk(text: &str) -> Vec<u8> {
    text.as_bytes().to_vec()
}

#[test]
fn malformed_line_tolerated() {
    // Five lines, exactly one with fewer than four fields: four records,
    // one diagnostic, no failure.
    let text = " 0: 0100007F:1F90 00000000:0000 0A\n 1: 0100007F:0050 0200007F:C000 01\n 2: short\n 3: 00000000:0016 00000000:0000 0A\n 4: 0A00000A:01BB 0B00000B:F000 06\n";
    let out = collect_container_output(&vec![chunk(text)]);
    assert_eq!(out.records.len(), 4);
    assert_eq!(out.errors, vec![ParseError::InvalidLineFormat(2)]);
}

#[test]
fn header_and_blank_lines_are_no_errors() {
    let text = "  sl  local_address rem_address   st tx_queue rx_queue\n\n 0: 0100007F:1F90 00000000:0000 0A\n";
    let out = collect_container_output(&vec![chunk(text)]);
    assert_eq!(out.records.len(), 1);
    assert_eq!(out.errors.len(), 0);
}

#[test]
fn records_keep_table_order_across_chunks() {
    let first = chunk(" 0: 0100007F:0001 00000000:0000 01\n 1: 0100007F:0002 00000000:0000 01\n");
    let second = chunk(" 2: 0100007F:0003 00000000:0000 01\n");
    let out = collect_container_output(&vec![first, second]);
    let ports: Vec<u16> = out.records.iter().map(|c| c.local.port).collect();
    assert_eq!(ports, vec![1, 2, 3]);
}

#[test]
fn carriage_returns_are_stripped() {
    let text = " 0: 0100007F:1F90 00000000:0000 0A\r\n 1: 0100007F:0050 00000000:0000 01\r\n";
    let out = collect_container_output(&vec![chunk(text)]);
    assert_eq!(out.records.len(), 2);
    assert_eq!(out.errors.len(), 0);
}

#[test]
fn invalid_bytes_decode_lossily() {
    // 0xFF is no UTF-8: it becomes the replacement character, which makes
    // the address field degrade to raw text instead of aborting.
    let mut bytes = b" 0: ".to_vec();
    bytes.push(0xFF);
    bytes.extend_from_slice(b"100007F:1F90 00000000:0000 0A\n");
    let out = collect_container_output(&vec![bytes]);
    assert_eq!(out.records.len(), 1);
    assert_eq!(
        out.records[0].local.addr,
        Address::Raw("\u{FFFD}100007F".to_string())
    );
    assert_eq!(out.records[0].local.port, 8080);
}

#[test]
fn empty_dump_yields_nothing() {
    let out = collect_container_output(&vec![]);
    assert_eq!(out.records.len(), 0);
    assert_eq!(out.errors.len(), 0);
    let out = collect_container_output(&vec![chunk("")]);
    assert_eq!(out.records.len(), 0);
    assert_eq!(out.errors.len(), 0);
}
