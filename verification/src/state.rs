//! Classification of the kernel's numeric TCP state codes.

use vstd::prelude::*;

verus! {

/// The symbolic TCP connection states behind the kernel's numeric codes.
///
/// The enumeration is closed: `Unknown` catches every code outside the
/// mapped set, so classification never fails.
#[derive(Debug, Clone, Copy, PartialEq, Eq, Structural)]
pub enum ConnectionState {
    Established,
    SynSent,
    SynRecv,
    FinWait1,
    FinWait2,
    TimeWait,
    Close,
    CloseWait,
    LastAck,
    Listen,
    Closing,
    Unknown,
}

/// The total mapping from a numeric state code to its symbolic state.
pub open spec fn spec_classify(code: u8) -> ConnectionState {
    if code == 1 {
        ConnectionState::Established
    } else if code == 2 {
        ConnectionState::SynSent
    } else if code == 3 {
        ConnectionState::SynRecv
    } else if code == 4 {
        ConnectionState::FinWait1
    } else if code == 5 {
        ConnectionState::FinWait2
    } else if code == 6 {
        ConnectionState::TimeWait
    } else if code == 7 {
        ConnectionState::Close
    } else if code == 8 {
        ConnectionState::CloseWait
    } else if code == 9 {
        ConnectionState::LastAck
    } else if code == 10 {
        ConnectionState::Listen
    } else if code == 11 {
        ConnectionState::Closing
    } else {
        ConnectionState::Unknown
    }
}

/// The display name of a symbolic state, as the kernel documentation spells it.
pub open spec fn spec_state_name(s: ConnectionState) -> Seq<char> {
    match s {
        ConnectionState::Established => "ESTABLISHED"@,
        ConnectionState::SynSent => "SYN_SENT"@,
        ConnectionState::SynRecv => "SYN_RECV"@,
        ConnectionState::FinWait1 => "FIN_WAIT1"@,
        ConnectionState::FinWait2 => "FIN_WAIT2"@,
        ConnectionState::TimeWait => "TIME_WAIT"@,
        ConnectionState::Close => "CLOSE"@,
        ConnectionState::CloseWait => "CLOSE_WAIT"@,
        ConnectionState::LastAck => "LAST_ACK"@,
        ConnectionState::Listen => "LISTEN"@,
        ConnectionState::Closing => "CLOSING"@,
        ConnectionState::Unknown => "UNKNOWN"@,
    }
}

/// Maps a numeric connection-state code to its symbolic state.
pub fn classify(code: u8) -> (s: ConnectionState)
    ensures
        s == spec_classify(code),
{
    match code {
        1 => ConnectionState::Established,
        2 => ConnectionState::SynSent,
        3 => ConnectionState::SynRecv,
        4 => ConnectionState::FinWait1,
        5 => ConnectionState::FinWait2,
        6 => ConnectionState::TimeWait,
        7 => ConnectionState::Close,
        8 => ConnectionState::CloseWait,
        9 => ConnectionState::LastAck,
        10 => ConnectionState::Listen,
        11 => ConnectionState::Closing,
        _ => ConnectionState::Unknown,
    }
}

/// The display name of a symbolic state.
pub fn state_name(s: ConnectionState) -> (r: &'static str)
    ensures
        r@ == spec_state_name(s),
{
    match s {
        ConnectionState::Established => "ESTABLISHED",
        ConnectionState::SynSent => "SYN_SENT",
        ConnectionState::SynRecv => "SYN_RECV",
        ConnectionState::FinWait1 => "FIN_WAIT1",
        ConnectionState::FinWait2 => "FIN_WAIT2",
        ConnectionState::TimeWait => "TIME_WAIT",
        ConnectionState::Close => "CLOSE",
        ConnectionState::CloseWait => "CLOSE_WAIT",
        ConnectionState::LastAck => "LAST_ACK",
        ConnectionState::Listen => "LISTEN",
        ConnectionState::Closing => "CLOSING",
        ConnectionState::Unknown => "UNKNOWN",
    }
}

/// Law: classification is total. Every code yields a defined state; the codes
/// 1 through 11 map to the eleven named kernel states in order, and every
/// other code maps to `Unknown` rather than failing.
pub proof fn lemma_classify_total(code: u8)
    ensures
        spec_classify(1) == ConnectionState::Established,
        spec_classify(2) == ConnectionState::SynSent,
        spec_classify(3) == ConnectionState::SynRecv,
        spec_classify(4) == ConnectionState::FinWait1,
        spec_classify(5) == ConnectionState::FinWait2,
        spec_classify(6) == ConnectionState::TimeWait,
        spec_classify(7) == ConnectionState::Close,
        spec_classify(8) == ConnectionState::CloseWait,
        spec_classify(9) == ConnectionState::LastAck,
        spec_classify(10) == ConnectionState::Listen,
        spec_classify(11) == ConnectionState::Closing,
        !(1 <= code <= 11) ==> spec_classify(code) == ConnectionState::Unknown,
        spec_classify(code) == ConnectionState::Unknown <==> !(1 <= code <= 11),
{
}

} // verus!
