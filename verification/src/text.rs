//! Splitting raw table text into lines and whitespace-delimited fields.

use vstd::prelude::*;

verus! {

/// Whether `c` is ASCII whitespace: space, tab, line feed, form feed or
/// carriage return.
pub open spec fn is_space(c: char) -> bool {
    c == ' ' || c == '\t' || c == '\n' || c == '\u{c}' || c == '\r'
}

/// Whether `c` is ASCII whitespace.
pub fn is_space_char(c: char) -> (r: bool)
    ensures
        r == is_space(c),
{
    c == ' ' || c == '\t' || c == '\n' || c == '\u{c}' || c == '\r'
}

/// The maximal whitespace-free prefix of `s`.
pub open spec fn take_token(s: Seq<char>) -> Seq<char>
    decreases s.len(),
{
    if s.len() > 0 && !is_space(s[0]) {
        seq![s[0]] + take_token(s.drop_first())
    } else {
        Seq::empty()
    }
}

/// What follows the maximal whitespace-free prefix of `s`.
pub open spec fn skip_token(s: Seq<char>) -> Seq<char>
    decreases s.len(),
{
    if s.len() > 0 && !is_space(s[0]) {
        skip_token(s.drop_first())
    } else {
        s
    }
}

/// Skipping a token never lengthens the text, and skipping a nonempty token
/// shortens it.
pub proof fn lemma_skip_token_len(s: Seq<char>)
    ensures
        skip_token(s).len() <= s.len(),
        s.len() > 0 && !is_space(s[0]) ==> skip_token(s).len() < s.len(),
    decreases s.len(),
{
    if s.len() > 0 && !is_space(s[0]) {
        lemma_skip_token_len(s.drop_first());
    }
}

/// The whitespace-delimited fields of `s`, in order. Runs of whitespace
/// separate fields; no field is empty; surrounding whitespace is ignored.
pub open spec fn split_ws(s: Seq<char>) -> Seq<Seq<char>>
    decreases s.len(),
{
    if s.len() == 0 {
        Seq::empty()
    } else if is_space(s[0]) {
        split_ws(s.drop_first())
    } else {
        proof {
            lemma_skip_token_len(s);
        }
        seq![take_token(s)] + split_ws(skip_token(s))
    }
}

/// The prefix of `s` before its first line feed.
pub open spec fn take_until_nl(s: Seq<char>) -> Seq<char>
    decreases s.len(),
{
    if s.len() > 0 && s[0] != '\n' {
        seq![s[0]] + take_until_nl(s.drop_first())
    } else {
        Seq::empty()
    }
}

/// What follows the first line feed of `s`; empty when there is none.
pub open spec fn skip_past_nl(s: Seq<char>) -> Seq<char>
    decreases s.len(),
{
    if s.len() == 0 {
        s
    } else if s[0] == '\n' {
        s.drop_first()
    } else {
        skip_past_nl(s.drop_first())
    }
}

/// Passing a line feed always consumes at least one character.
pub proof fn lemma_skip_past_nl_len(s: Seq<char>)
    ensures
        s.len() > 0 ==> skip_past_nl(s).len() < s.len(),
    decreases s.len(),
{
    if s.len() > 0 {
        if s[0] == '\n' {
            assert(skip_past_nl(s) == s.drop_first());
        } else {
            lemma_skip_past_nl_len(s.drop_first());
            assert(skip_past_nl(s) == skip_past_nl(s.drop_first()));
            assert(skip_past_nl(s.drop_first()).len() <= s.drop_first().len());
        }
    }
}

/// `l` without one trailing carriage return.
pub open spec fn strip_cr(l: Seq<char>) -> Seq<char> {
    if l.len() > 0 && l.last() == '\r' {
        l.drop_last()
    } else {
        l
    }
}

/// The lines of `s`: separated by line feeds, each without one trailing
/// carriage return; a final line feed closes the last line rather than
/// opening an empty one.
pub open spec fn split_lines(s: Seq<char>) -> Seq<Seq<char>>
    decreases s.len(),
{
    if s.len() == 0 {
        Seq::empty()
    } else {
        proof {
            lemma_skip_past_nl_len(s);
        }
        seq![strip_cr(take_until_nl(s))] + split_lines(skip_past_nl(s))
    }
}

/// The lines of `s`.
pub fn split_text_lines(s: &str) -> (lines: Vec<String>)
    ensures
        lines.deep_view() == split_lines(s@),
{
    let n = s.unicode_len();
    let mut lines: Vec<String> = Vec::new();
    let mut i: usize = 0;
    proof {
        assert(s@.skip(0) =~= s@);
        assert(lines.deep_view() =~= Seq::<Seq<char>>::empty());
        assert(lines.deep_view() + split_lines(s@) =~= split_lines(s@));
    }
    while i < n
        invariant
            i <= n,
            n == s@.len(),
            split_lines(s@) == lines.deep_view() + split_lines(s@.skip(i as int)),
        decreases n - i,
    {
        let ghost suffix = s@.skip(i as int);
        let mut j: usize = i;
        proof {
            assert(s@.subrange(i as int, i as int) + take_until_nl(s@.skip(i as int)) =~= take_until_nl(
                suffix,
            ));
        }
        while j < n && s.get_char(j) != '\n'
            invariant
                i <= j <= n,
                n == s@.len(),
                suffix == s@.skip(i as int),
                take_until_nl(suffix) == s@.subrange(i as int, j as int) + take_until_nl(
                    s@.skip(j as int),
                ),
                skip_past_nl(suffix) == skip_past_nl(s@.skip(j as int)),
            decreases n - j,
        {
            proof {
                assert(s@.skip(j as int).drop_first() =~= s@.skip(j as int + 1));
                assert(s@.subrange(i as int, j as int + 1) =~= s@.subrange(i as int, j as int)
                    + seq![s@[j as int]]);
                assert(s@.subrange(i as int, j as int) + (seq![s@[j as int]] + take_until_nl(
                    s@.skip(j as int + 1),
                )) =~= s@.subrange(i as int, j as int + 1) + take_until_nl(s@.skip(j as int + 1)));
            }
            j += 1;
        }
        proof {
            if j == n {
                assert(s@.skip(n as int) =~= Seq::<char>::empty());
            }
            assert(take_until_nl(s@.skip(j as int)) =~= Seq::<char>::empty());
            assert(take_until_nl(suffix) =~= s@.subrange(i as int, j as int));
        }
        let end = if j > i {
            if s.get_char(j - 1) == '\r' {
                j - 1
            } else {
                j
            }
        } else {
            j
        };
        proof {
            let line = s@.subrange(i as int, j as int);
            if j > i && s@[j as int - 1] == '\r' {
                assert(line.last() == s@[j as int - 1]);
                assert(line.drop_last() =~= s@.subrange(i as int, j as int - 1));
            }
            assert(strip_cr(line) =~= s@.subrange(i as int, end as int));
        }
        let line_text = String::from_str(s.substring_char(i, end));
        let ghost old_dv = lines.deep_view();
        lines.push(line_text);
        let next = if j < n {
            j + 1
        } else {
            n
        };
        proof {
            assert(lines.deep_view() =~= old_dv.push(line_text@));
            assert(split_lines(suffix) == seq![strip_cr(take_until_nl(suffix))] + split_lines(
                skip_past_nl(suffix),
            ));
            if j < n {
                assert(s@.skip(j as int).drop_first() =~= s@.skip(j as int + 1));
                assert(skip_past_nl(s@.skip(j as int)) == s@.skip(next as int));
            } else {
                assert(skip_past_nl(s@.skip(j as int)) =~= s@.skip(next as int));
            }
            assert(old_dv + (seq![line_text@] + split_lines(s@.skip(next as int)))
                =~= lines.deep_view() + split_lines(s@.skip(next as int)));
        }
        i = next;
    }
    proof {
        assert(s@.skip(n as int) =~= Seq::<char>::empty());
        assert(lines.deep_view() + split_lines(s@.skip(n as int)) =~= lines.deep_view());
    }
    lines
}

/// The whitespace-delimited fields of `s`.
#[verifier::rlimit(60)]
pub fn split_ws_fields(s: &str) -> (fields: Vec<String>)
    ensures
        fields.deep_view() == split_ws(s@),
{
    let n = s.unicode_len();
    let mut fields: Vec<String> = Vec::new();
    let mut i: usize = 0;
    proof {
        assert(s@.skip(0) =~= s@);
        assert(fields.deep_view() =~= Seq::<Seq<char>>::empty());
        assert(fields.deep_view() + split_ws(s@) =~= split_ws(s@));
    }
    while i < n
        invariant
            i <= n,
            n == s@.len(),
            split_ws(s@) == fields.deep_view() + split_ws(s@.skip(i as int)),
        decreases n - i,
    {
        if is_space_char(s.get_char(i)) {
            proof {
                assert(s@.skip(i as int).drop_first() =~= s@.skip(i as int + 1));
            }
            i += 1;
        } else {
            let ghost suffix = s@.skip(i as int);
            let mut j: usize = i + 1;
            proof {
                assert(suffix.drop_first() =~= s@.skip(i as int + 1));
                assert(seq![s@[i as int]] =~= s@.subrange(i as int, i as int + 1));
                assert(take_token(suffix) == seq![s@[i as int]] + take_token(suffix.drop_first()));
                assert(s@.subrange(i as int, i as int + 1) + take_token(s@.skip(i as int + 1))
                    =~= take_token(suffix));
                assert(skip_token(suffix) == skip_token(suffix.drop_first()));
            }
            while j < n && !is_space_char(s.get_char(j))
                invariant
                    i <= j <= n,
                    n == s@.len(),
                    suffix == s@.skip(i as int),
                    take_token(suffix) == s@.subrange(i as int, j as int) + take_token(
                        s@.skip(j as int),
                    ),
                    skip_token(suffix) == skip_token(s@.skip(j as int)),
                decreases n - j,
            {
                proof {
                    assert(s@.skip(j as int).drop_first() =~= s@.skip(j as int + 1));
                    assert(s@.subrange(i as int, j as int + 1) =~= s@.subrange(i as int, j as int)
                        + seq![s@[j as int]]);
                    assert(s@.subrange(i as int, j as int) + (seq![s@[j as int]] + take_token(
                        s@.skip(j as int + 1),
                    )) =~= s@.subrange(i as int, j as int + 1) + take_token(s@.skip(j as int + 1)));
                }
                j += 1;
            }
            proof {
                if j == n {
                    assert(s@.skip(n as int) =~= Seq::<char>::empty());
                }
                assert(take_token(s@.skip(j as int)) =~= Seq::<char>::empty());
                assert(take_token(suffix) =~= s@.subrange(i as int, j as int));
                assert(skip_token(s@.skip(j as int)) == s@.skip(j as int));
            }
            let token = String::from_str(s.substring_char(i, j));
            let ghost old_dv = fields.deep_view();
            fields.push(token);
            proof {
                assert(fields.deep_view() =~= old_dv.push(token@));
                assert(split_ws(suffix) == seq![take_token(suffix)] + split_ws(skip_token(suffix)));
                assert(old_dv + (seq![token@] + split_ws(s@.skip(j as int))) =~= fields.deep_view()
                    + split_ws(s@.skip(j as int)));
            }
            i = j;
        }
    }
    proof {
        assert(s@.skip(n as int) =~= Seq::<char>::empty());
        assert(fields.deep_view() + split_ws(s@.skip(n as int)) =~= fields.deep_view());
    }
    fields
}

} // verus!
