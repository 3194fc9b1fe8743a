//! Decoding one line of the connection table into a structured record.

use vstd::prelude::*;

use crate::codec::decode_endpoint;
use crate::codec::spec_decode_endpoint;
use crate::codec::AddrError;
use crate::hex::parse_hex_u8;
use crate::hex::spec_parse_hex_u8;
use crate::record::TcpConnection;
use crate::record::TcpConnectionModel;
use crate::text::split_ws;
use crate::text::split_ws_fields;

verus! {

/// Why a data line was rejected.
#[derive(Debug, Clone, Copy, PartialEq, Eq, Structural)]
pub enum ParseError {
    /// Fewer whitespace-delimited fields than a data line carries; holds the
    /// number of fields seen.
    InvalidLineFormat(usize),
    /// The local endpoint token was rejected.
    InvalidLocalAddress(AddrError),
    /// The remote endpoint token was rejected.
    InvalidRemoteAddress(AddrError),
    /// The state field does not name a hexadecimal 8-bit integer.
    InvalidState,
}

/// What one line of the table yields: a record, an intentional skip, or an
/// error. A skip (the column-header line or an empty line) is a distinct
/// outcome, never confusable with a failure.
#[derive(Debug, PartialEq, Eq)]
pub enum ParseOutcome {
    Record(TcpConnection),
    Skip,
    Fail(ParseError),
}

/// The mathematical value of a [`ParseOutcome`].
pub enum ParseOutcomeModel {
    Record(TcpConnectionModel),
    Skip,
    Fail(ParseError),
}

impl View for ParseOutcome {
    type V = ParseOutcomeModel;

    open spec fn view(&self) -> ParseOutcomeModel {
        match self {
            ParseOutcome::Record(c) => ParseOutcomeModel::Record(c@),
            ParseOutcome::Skip => ParseOutcomeModel::Skip,
            ParseOutcome::Fail(e) => ParseOutcomeModel::Fail(*e),
        }
    }
}

impl DeepView for ParseOutcome {
    type V = ParseOutcomeModel;

    open spec fn deep_view(&self) -> ParseOutcomeModel {
        self.view()
    }
}

/// What parsing one line yields.
///
/// A line with no fields, or whose first field is the header marker `sl`,
/// is skipped. A data line needs at least four fields: the fields at
/// indices 1 and 2 are the local and remote endpoint tokens, the field at
/// index 3 the hexadecimal state code; later fields are ignored.
pub open spec fn spec_parse_line(line: Seq<char>) -> ParseOutcomeModel {
    let fields = split_ws(line);
    if fields.len() == 0 || fields[0] == "sl"@ {
        ParseOutcomeModel::Skip
    } else if fields.len() < 4 {
        ParseOutcomeModel::Fail(ParseError::InvalidLineFormat(fields.len() as usize))
    } else {
        match spec_decode_endpoint(fields[1]) {
            Err(e) => ParseOutcomeModel::Fail(ParseError::InvalidLocalAddress(e)),
            Ok(local) => match spec_decode_endpoint(fields[2]) {
                Err(e) => ParseOutcomeModel::Fail(ParseError::InvalidRemoteAddress(e)),
                Ok(remote) => match spec_parse_hex_u8(fields[3]) {
                    None => ParseOutcomeModel::Fail(ParseError::InvalidState),
                    Some(st) => ParseOutcomeModel::Record(
                        TcpConnectionModel { local, remote, state: st },
                    ),
                },
            },
        }
    }
}

/// Parses one line of the connection table.
pub fn parse_line(line: &str) -> (r: ParseOutcome)
    ensures
        r@ == spec_parse_line(line@),
{
    let fields = split_ws_fields(line);
    let ghost spec_fields = split_ws(line@);
    if fields.len() == 0 {
        return ParseOutcome::Skip;
    }
    assert(spec_fields[0] == fields@[0]@);
    let marker = String::from_str("sl");
    if fields[0].eq(&marker) {
        return ParseOutcome::Skip;
    }
    if fields.len() < 4 {
        return ParseOutcome::Fail(ParseError::InvalidLineFormat(fields.len()));
    }
    assert(spec_fields[1] == fields@[1]@);
    assert(spec_fields[2] == fields@[2]@);
    assert(spec_fields[3] == fields@[3]@);
    let local = match decode_endpoint(fields[1].as_str()) {
        Ok(e) => e,
        Err(err) => {
            return ParseOutcome::Fail(ParseError::InvalidLocalAddress(err));
        },
    };
    let remote = match decode_endpoint(fields[2].as_str()) {
        Ok(e) => e,
        Err(err) => {
            return ParseOutcome::Fail(ParseError::InvalidRemoteAddress(err));
        },
    };
    let state = match parse_hex_u8(fields[3].as_str()) {
        Some(v) => v,
        None => {
            return ParseOutcome::Fail(ParseError::InvalidState);
        },
    };
    ParseOutcome::Record(TcpConnection { local, remote, state })
}

} // verus!
