use stratum_counter::record::Address;
use stratum_counter::record::Endpoint;
use stratum_counter::record::TcpConnection;
use stratum_counter::state::classify;
use stratum_counter::state::state_name;
use stratum_counter::state::ConnectionState;

fn record_with_state(state: u8) -> TcpConnection {
    TcpConnection {
        local: Endpoint {
            addr: Address::V4 {
                a: 127,
                b: 0,
                c: 0,
                d: 1,
            },
            port: 80,
        },
        remote: Endpoint {
            addr: Address::V4 { a: 0, b: 0, c: 0, d: 0 },
            port: 0,
        },
        state,
    }
}

#[test]
fn classification_is_total_per_table() {
    // Every one of the 256 codes yields a defined state; 1 through 11 per
    // the kernel table, everything else Unknown.
    for code in 0u16..=255 {
        let c = code as u8;
        let expected = match c {
            1 => ConnectionState::Established,
            2 => ConnectionState::SynSent,
            3 => ConnectionState::SynRecv,
            4 => ConnectionState::FinWait1,
            5 => ConnectionState::FinWait2,
            6 => ConnectionState::TimeWait,
            7 => ConnectionState::Close,
            8 => ConnectionState::CloseWait,
            9 => ConnectionState::LastAck,
            10 => ConnectionState::Listen,
            11 => ConnectionState::Closing,
            _ => ConnectionState::Unknown,
        };
        assert_eq!(classify(c), expected);
    }
}

#[test]
fn state_names_spelled_per_kernel() {
    assert_eq!(state_name(ConnectionState::Established), "ESTABLISHED");
    assert_eq!(state_name(ConnectionState::SynSent), "SYN_SENT");
    assert_eq!(state_name(ConnectionState::SynRecv), "SYN_RECV");
    assert_eq!(state_name(ConnectionState::FinWait1), "FIN_WAIT1");
    assert_eq!(state_name(ConnectionState::FinWait2), "FIN_WAIT2");
    assert_eq!(state_name(ConnectionState::TimeWait), "TIME_WAIT");
    assert_eq!(state_name(ConnectionState::Close), "CLOSE");
    assert_eq!(state_name(ConnectionState::CloseWait), "CLOSE_WAIT");
    assert_eq!(state_name(ConnectionState::LastAck), "LAST_ACK");
    assert_eq!(state_name(ConnectionState::Listen), "LISTEN");
    assert_eq!(state_name(ConnectionState::Closing), "CLOSING");
    assert_eq!(state_name(ConnectionState::Unknown), "UNKNOWN");
}

#[test]
fn get_state_name_classifies_raw_code() {
    assert_eq!(record_with_state(1).get_state_name(), "ESTABLISHED");
    assert_eq!(record_with_state(10).get_state_name(), "LISTEN");
    assert_eq!(record_with_state(0).get_state_name(), "UNKNOWN");
    assert_eq!(record_with_state(255).get_state_name(), "UNKNOWN");
}
