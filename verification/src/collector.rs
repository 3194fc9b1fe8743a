//! Collecting the connection records of one container's raw table dump.

use vstd::prelude::*;

use crate::parser::parse_line;
use crate::parser::spec_parse_line;
use crate::parser::ParseError;
use crate::parser::ParseOutcome;
use crate::parser::ParseOutcomeModel;
use crate::record::TcpConnection;
use crate::record::TcpConnectionModel;
use crate::text::split_lines;
use crate::text::split_text_lines;

verus! {

/// A name for the text that lossy UTF-8 decoding yields on given bytes.
pub uninterp spec fn utf8_lossy_of(bytes: Seq<u8>) -> Seq<char>;

/// Relies on `String::from_utf8_lossy`: invalid byte sequences become
/// replacement characters instead of failing, the decoded text is a
/// function of the bytes alone, and ASCII bytes decode to themselves.
#[verifier::external_body]
fn decode_utf8_lossy(bytes: &Vec<u8>) -> (r: String)
    ensures
        r@ == utf8_lossy_of(bytes@),
        (forall|i: int| 0 <= i < bytes@.len() ==> bytes@[i] < 128) ==> r@ == bytes@.map_values(
            |b: u8| b as char,
        ),
{
    String::from_utf8_lossy(bytes).into_owned()
}

/// The records of a sequence of lines, in table order. A line that parses
/// contributes its record; a skipped or malformed line contributes nothing.
pub open spec fn records_of_lines(lines: Seq<Seq<char>>) -> Seq<TcpConnectionModel>
    decreases lines.len(),
{
    if lines.len() == 0 {
        Seq::empty()
    } else {
        records_of_lines(lines.drop_last()) + (match spec_parse_line(lines.last()) {
            ParseOutcomeModel::Record(c) => seq![c],
            ParseOutcomeModel::Skip => Seq::empty(),
            ParseOutcomeModel::Fail(_) => Seq::empty(),
        })
    }
}

/// The errors of a sequence of lines, in table order. Only malformed lines
/// contribute; skips are not failures.
pub open spec fn errors_of_lines(lines: Seq<Seq<char>>) -> Seq<ParseError>
    decreases lines.len(),
{
    if lines.len() == 0 {
        Seq::empty()
    } else {
        errors_of_lines(lines.drop_last()) + (match spec_parse_line(lines.last()) {
            ParseOutcomeModel::Record(_) => Seq::empty(),
            ParseOutcomeModel::Skip => Seq::empty(),
            ParseOutcomeModel::Fail(e) => seq![e],
        })
    }
}

/// The records a whole dump yields: each chunk is decoded as UTF-8 with
/// lossy substitution, split into lines, and parsed line by line.
pub open spec fn spec_collect_records(chunks: Seq<Seq<u8>>) -> Seq<TcpConnectionModel>
    decreases chunks.len(),
{
    if chunks.len() == 0 {
        Seq::empty()
    } else {
        spec_collect_records(chunks.drop_last()) + records_of_lines(
            split_lines(utf8_lossy_of(chunks.last())),
        )
    }
}

/// The per-line errors a whole dump yields, in order.
pub open spec fn spec_collect_errors(chunks: Seq<Seq<u8>>) -> Seq<ParseError>
    decreases chunks.len(),
{
    if chunks.len() == 0 {
        Seq::empty()
    } else {
        spec_collect_errors(chunks.drop_last()) + errors_of_lines(
            split_lines(utf8_lossy_of(chunks.last())),
        )
    }
}

/// What collecting one container's dump yields: the ordered records of the
/// lines that parsed, and the error of each line that did not.
#[derive(Debug, PartialEq, Eq)]
pub struct Collection {
    pub records: Vec<TcpConnection>,
    pub errors: Vec<ParseError>,
}

/// Collects the connection records of one container's raw table dump.
///
/// The dump arrives as byte chunks. Each chunk is decoded as UTF-8 with
/// lossy substitution and split into lines; a line that parses contributes
/// its record in table order, a skipped line contributes nothing, and a
/// malformed line contributes only its error. One bad line never aborts the
/// collection, and the collection as a whole never fails.
pub fn collect_container_output(chunks: &Vec<Vec<u8>>) -> (r: Collection)
    ensures
        r.records.deep_view() == spec_collect_records(chunks.deep_view()),
        r.errors@ == spec_collect_errors(chunks.deep_view()),
{
    let ghost cdv = chunks.deep_view();
    let mut records: Vec<TcpConnection> = Vec::new();
    let mut errors: Vec<ParseError> = Vec::new();
    let mut ci: usize = 0;
    proof {
        assert(cdv.take(0) =~= Seq::<Seq<u8>>::empty());
        assert(records.deep_view() =~= Seq::<TcpConnectionModel>::empty());
        assert(errors@ =~= Seq::<ParseError>::empty());
    }
    while ci < chunks.len()
        invariant
            ci <= chunks@.len(),
            cdv == chunks.deep_view(),
            records.deep_view() == spec_collect_records(cdv.take(ci as int)),
            errors@ == spec_collect_errors(cdv.take(ci as int)),
        decreases chunks@.len() - ci,
    {
        proof {
            assert(chunks@[ci as int].deep_view() =~= chunks@[ci as int]@);
            assert(cdv[ci as int] == chunks@[ci as int]@);
        }
        let text = decode_utf8_lossy(&chunks[ci]);
        let lines = split_text_lines(text.as_str());
        let ghost ldv = lines.deep_view();
        let ghost rec_base = records.deep_view();
        let ghost err_base = errors@;
        let mut li: usize = 0;
        proof {
            assert(ldv.take(0) =~= Seq::<Seq<char>>::empty());
            assert(rec_base + records_of_lines(ldv.take(0)) =~= rec_base);
            assert(err_base + errors_of_lines(ldv.take(0)) =~= err_base);
        }
        while li < lines.len()
            invariant
                li <= lines@.len(),
                ldv == lines.deep_view(),
                records.deep_view() == rec_base + records_of_lines(ldv.take(li as int)),
                errors@ == err_base + errors_of_lines(ldv.take(li as int)),
            decreases lines@.len() - li,
        {
            proof {
                assert(ldv.take(li as int + 1).drop_last() =~= ldv.take(li as int));
                assert(ldv.take(li as int + 1).last() == lines@[li as int]@);
            }
            match parse_line(lines[li].as_str()) {
                ParseOutcome::Record(c) => {
                    let ghost old_dv = records.deep_view();
                    records.push(c);
                    proof {
                        assert(records.deep_view() =~= old_dv.push(c@));
                        assert(rec_base + (records_of_lines(ldv.take(li as int)) + seq![c@])
                            =~= records.deep_view());
                        assert(err_base + (errors_of_lines(ldv.take(li as int))
                            + Seq::<ParseError>::empty()) =~= errors@);
                    }
                },
                ParseOutcome::Skip => {
                    proof {
                        assert(rec_base + (records_of_lines(ldv.take(li as int))
                            + Seq::<TcpConnectionModel>::empty()) =~= records.deep_view());
                        assert(err_base + (errors_of_lines(ldv.take(li as int))
                            + Seq::<ParseError>::empty()) =~= errors@);
                    }
                },
                ParseOutcome::Fail(e) => {
                    errors.push(e);
                    proof {
                        assert(rec_base + (records_of_lines(ldv.take(li as int))
                            + Seq::<TcpConnectionModel>::empty()) =~= records.deep_view());
                        assert(err_base + (errors_of_lines(ldv.take(li as int)) + seq![e])
                            =~= errors@);
                    }
                },
            }
            li += 1;
        }
        proof {
            assert(ldv.take(lines@.len() as int) =~= ldv);
            assert(ldv == split_lines(utf8_lossy_of(cdv[ci as int])));
            assert(cdv.take(ci as int + 1).drop_last() =~= cdv.take(ci as int));
            assert(cdv.take(ci as int + 1).last() == cdv[ci as int]);
            assert(records.deep_view() == spec_collect_records(cdv.take(ci as int + 1)));
            assert(errors@ == spec_collect_errors(cdv.take(ci as int + 1)));
        }
        ci += 1;
    }
    proof {
        assert(cdv.take(chunks@.len() as int) =~= cdv);
    }
    Collection { records, errors }
}

} // verus!
