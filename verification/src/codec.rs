//! Decoding of one `HEXADDR:HEXPORT` token into a structured endpoint.

use vstd::prelude::*;

use crate::hex::all_hex_digits;
use crate::hex::hex_digit_char;
use crate::hex::hex_digit_val;
use crate::hex::hex_digit_value;
use crate::hex::hex_seq_val;
use crate::hex::is_hex_digit;
use crate::hex::lemma_hex_digit_char_val;
use crate::hex::parse_hex_u16;
use crate::hex::push_hex_digit;
use crate::hex::spec_parse_hex_u16;
use crate::record::Address;
use crate::record::AddressModel;
use crate::record::Endpoint;
use crate::record::EndpointModel;

verus! {

/// Why a `HEXADDR:HEXPORT` token was rejected.
#[derive(Debug, Clone, Copy, PartialEq, Eq, Structural)]
pub enum AddrError {
    /// The token does not split into exactly two colon-separated parts.
    MalformedToken,
    /// The port part does not name a hexadecimal 16-bit integer.
    MalformedPort,
}

/// The colon-separated parts of `s`, in order. A split always yields at
/// least one (possibly empty) part.
pub open spec fn split_colon(s: Seq<char>) -> Seq<Seq<char>>
    decreases s.len(),
{
    if s.len() == 0 {
        seq![Seq::<char>::empty()]
    } else if s[0] == ':' {
        seq![Seq::<char>::empty()] + split_colon(s.drop_first())
    } else {
        let r = split_colon(s.drop_first());
        seq![seq![s[0]] + r[0]] + r.drop_first()
    }
}

/// A colon split never yields fewer than one part.
pub proof fn lemma_split_colon_len(s: Seq<char>)
    ensures
        split_colon(s).len() >= 1,
    decreases s.len(),
{
    if s.len() > 0 {
        lemma_split_colon_len(s.drop_first());
    }
}

/// A text without a colon is its own single part.
pub proof fn lemma_split_colon_none(s: Seq<char>)
    requires
        forall|i: int| 0 <= i < s.len() ==> s[i] != ':',
    ensures
        split_colon(s) == seq![s],
    decreases s.len(),
{
    if s.len() == 0 {
        assert(Seq::<char>::empty() =~= s);
        assert(seq![Seq::<char>::empty()] =~= seq![s]);
    } else {
        lemma_split_colon_none(s.drop_first());
        let r = split_colon(s.drop_first());
        assert(r[0] == s.drop_first());
        assert(seq![s[0]] + r[0] =~= s);
        assert(r.drop_first() =~= Seq::<Seq<char>>::empty());
        assert(seq![seq![s[0]] + r[0]] + r.drop_first() =~= seq![s]);
    }
}

/// Splitting at the first colon: the part before it, then the split of what
/// follows it.
pub proof fn lemma_split_colon_first(s: Seq<char>, k: int)
    requires
        0 <= k < s.len(),
        s[k] == ':',
        forall|j: int| 0 <= j < k ==> s[j] != ':',
    ensures
        split_colon(s) == seq![s.take(k)] + split_colon(s.skip(k + 1)),
    decreases k,
{
    if k == 0 {
        assert(s.take(0) =~= Seq::<char>::empty());
        assert(s.drop_first() =~= s.skip(1));
        assert(seq![Seq::<char>::empty()] + split_colon(s.drop_first()) =~= seq![s.take(0)]
            + split_colon(s.skip(1)));
    } else {
        let t = s.drop_first();
        assert(t[k - 1] == ':');
        assert(forall|j: int| 0 <= j < k - 1 ==> t[j] != ':');
        lemma_split_colon_first(t, k - 1);
        let r = split_colon(t);
        assert(r[0] == t.take(k - 1));
        assert(r.drop_first() =~= split_colon(t.skip(k)));
        assert(seq![s[0]] + t.take(k - 1) =~= s.take(k));
        assert(t.skip(k) =~= s.skip(k + 1));
        assert(seq![seq![s[0]] + r[0]] + r.drop_first() =~= seq![s.take(k)] + split_colon(
            s.skip(k + 1),
        ));
    }
}

/// The byte named by the `i`-th pair of hexadecimal digits of `s`.
pub open spec fn hex_byte_at(s: Seq<char>, i: int) -> u8 {
    (hex_digit_val(s[2 * i]) * 16 + hex_digit_val(s[2 * i + 1])) as u8
}

/// The address part of a token. Eight hexadecimal digits name four bytes
/// stored least-significant-first (the kernel writes each 32-bit word of the
/// table in little-endian order), so the dotted quad `a.b.c.d` reverses
/// them. Any other address text is kept as it stood, a degraded value that
/// never aborts the line.
pub open spec fn spec_decode_address(s: Seq<char>) -> AddressModel {
    if s.len() == 8 && all_hex_digits(s) {
        AddressModel::V4 {
            a: hex_byte_at(s, 3),
            b: hex_byte_at(s, 2),
            c: hex_byte_at(s, 1),
            d: hex_byte_at(s, 0),
        }
    } else {
        AddressModel::Raw(s)
    }
}

/// The four bytes of an eight-digit address field, in the order written.
fn decode_quad(s: &str) -> (r: Option<(u8, u8, u8, u8)>)
    requires
        s@.len() == 8,
    ensures
        r == (if all_hex_digits(s@) {
            Some((hex_byte_at(s@, 0), hex_byte_at(s@, 1), hex_byte_at(s@, 2), hex_byte_at(s@, 3)))
        } else {
            None::<(u8, u8, u8, u8)>
        }),
{
    let mut bytes: Vec<u8> = Vec::new();
    let mut i: usize = 0;
    while i < 4
        invariant
            i <= 4,
            s@.len() == 8,
            bytes@.len() == i,
            forall|j: int| 0 <= j < 2 * i ==> is_hex_digit(s@[j]),
            forall|j: int| 0 <= j < i ==> bytes@[j] == hex_byte_at(s@, j),
        decreases 4 - i,
    {
        let hi = match hex_digit_value(s.get_char(2 * i)) {
            Some(v) => v,
            None => {
                assert(!is_hex_digit(s@[2 * i as int]));
                return None;
            },
        };
        let lo = match hex_digit_value(s.get_char(2 * i + 1)) {
            Some(v) => v,
            None => {
                assert(!is_hex_digit(s@[2 * i as int + 1]));
                return None;
            },
        };
        assert(hi < 16 && lo < 16);
        bytes.push(hi * 16 + lo);
        i += 1;
    }
    Some((bytes[0], bytes[1], bytes[2], bytes[3]))
}

/// Decodes the address part of a token.
pub fn decode_address(s: &str) -> (r: Address)
    ensures
        r@ == spec_decode_address(s@),
{
    if s.unicode_len() == 8 {
        match decode_quad(s) {
            Some((b0, b1, b2, b3)) => Address::V4 { a: b3, b: b2, c: b1, d: b0 },
            None => Address::Raw(String::from_str(s)),
        }
    } else {
        Address::Raw(String::from_str(s))
    }
}

/// What decoding a whole `HEXADDR:HEXPORT` token yields: the structured
/// endpoint, or the error that rejected the token.
pub open spec fn spec_decode_endpoint(s: Seq<char>) -> Result<EndpointModel, AddrError> {
    let parts = split_colon(s);
    if parts.len() != 2 {
        Err(AddrError::MalformedToken)
    } else {
        match spec_parse_hex_u16(parts[1]) {
            Some(p) => Ok(EndpointModel { addr: spec_decode_address(parts[0]), port: p }),
            None => Err(AddrError::MalformedPort),
        }
    }
}

/// Decodes one `HEXADDR:HEXPORT` token into an endpoint.
///
/// The token must split into exactly two colon-separated parts, else
/// `MalformedToken`. The port part must name a hexadecimal 16-bit integer,
/// else `MalformedPort`. The address part never fails: when it is not eight
/// hexadecimal digits it is kept as raw text.
pub fn decode_endpoint(token: &str) -> (r: Result<Endpoint, AddrError>)
    ensures
        match r {
            Ok(e) => spec_decode_endpoint(token@) == Ok::<EndpointModel, AddrError>(e@),
            Err(err) => spec_decode_endpoint(token@) == Err::<EndpointModel, AddrError>(err),
        },
{
    let n = token.unicode_len();
    let mut k: usize = 0;
    while k < n && token.get_char(k) != ':'
        invariant
            k <= n,
            n == token@.len(),
            forall|j: int| 0 <= j < k ==> token@[j] != ':',
        decreases n - k,
    {
        k += 1;
    }
    if k == n {
        proof {
            lemma_split_colon_none(token@);
        }
        return Err(AddrError::MalformedToken);
    }
    proof {
        lemma_split_colon_first(token@, k as int);
    }
    let mut m: usize = k + 1;
    while m < n && token.get_char(m) != ':'
        invariant
            k + 1 <= m <= n,
            n == token@.len(),
            forall|j: int| k + 1 <= j < m ==> token@[j] != ':',
        decreases n - m,
    {
        m += 1;
    }
    if m < n {
        // a second colon: the split has at least three parts
        proof {
            let rest = token@.skip(k as int + 1);
            assert(rest[m - k - 1] == ':');
            assert(forall|j: int| 0 <= j < m - k - 1 ==> rest[j] != ':');
            lemma_split_colon_first(rest, m - k - 1);
            lemma_split_colon_len(rest.skip(m - k));
        }
        return Err(AddrError::MalformedToken);
    }
    proof {
        let rest = token@.skip(k as int + 1);
        assert(forall|j: int| 0 <= j < rest.len() ==> rest[j] != ':');
        lemma_split_colon_none(rest);
        assert(split_colon(token@) == seq![token@.take(k as int), rest]);
    }
    let addr_text = token.substring_char(0, k);
    let port_text = token.substring_char(k + 1, n);
    let addr = decode_address(addr_text);
    match parse_hex_u16(port_text) {
        Some(p) => Ok(Endpoint { addr, port: p }),
        None => Err(AddrError::MalformedPort),
    }
}

/// The four upper-case hexadecimal digits of a port value, most significant
/// first: the text a table token carries for that port.
pub open spec fn spec_encode_port(p: u16) -> Seq<char> {
    seq![
        hex_digit_char(p as nat / 4096),
        hex_digit_char((p as nat / 256) % 16),
        hex_digit_char((p as nat / 16) % 16),
        hex_digit_char(p as nat % 16),
    ]
}

/// Writes a port value back as the four hexadecimal digits of its token.
pub fn encode_port(p: u16) -> (s: String)
    ensures
        s@ == spec_encode_port(p),
{
    assert(p / 4096 < 16 && (p / 256) % 16 < 16 && (p / 16) % 16 < 16 && p % 16 < 16) by (bit_vector);
    let mut s = String::new();
    push_hex_digit(&mut s, (p / 4096) as u8);
    push_hex_digit(&mut s, ((p / 256) % 16) as u8);
    push_hex_digit(&mut s, ((p / 16) % 16) as u8);
    push_hex_digit(&mut s, (p % 16) as u8);
    proof {
        assert(s@ =~= spec_encode_port(p));
    }
    s
}

/// Law: address-codec round trip. Writing any 16-bit port value as its
/// four-digit token text and decoding that text again yields exactly the
/// original numeric port value.
pub proof fn lemma_port_round_trip(p: u16)
    ensures
        spec_parse_hex_u16(spec_encode_port(p)) == Some(p),
{
    let s = spec_encode_port(p);
    let d3 = p as nat / 4096;
    let d2 = (p as nat / 256) % 16;
    let d1 = (p as nat / 16) % 16;
    let d0 = p as nat % 16;
    assert(p / 4096 < 16 && (p / 256) % 16 < 16 && (p / 16) % 16 < 16 && p % 16 < 16) by (bit_vector);
    lemma_hex_digit_char_val(d3);
    lemma_hex_digit_char_val(d2);
    lemma_hex_digit_char_val(d1);
    lemma_hex_digit_char_val(d0);
    assert forall|i: int| 0 <= i < s.len() implies is_hex_digit(s[i]) by {
        if i == 0 {
            assert(s[i] == hex_digit_char(d3));
        } else if i == 1 {
            assert(s[i] == hex_digit_char(d2));
        } else if i == 2 {
            assert(s[i] == hex_digit_char(d1));
        } else {
            assert(s[i] == hex_digit_char(d0));
        }
    }
    let s3 = seq![s[0], s[1], s[2]];
    let s2 = seq![s[0], s[1]];
    let s1 = seq![s[0]];
    assert(s.drop_last() =~= s3);
    assert(s3.drop_last() =~= s2);
    assert(s2.drop_last() =~= s1);
    assert(s1.drop_last() =~= Seq::<char>::empty());
    assert(hex_seq_val(Seq::<char>::empty()) == 0);
    assert(hex_seq_val(s1) == hex_digit_val(s[0]));
    assert(hex_seq_val(s2) == hex_seq_val(s1) * 16 + hex_digit_val(s[1]));
    assert(hex_seq_val(s3) == hex_seq_val(s2) * 16 + hex_digit_val(s[2]));
    assert(hex_seq_val(s) == hex_seq_val(s3) * 16 + hex_digit_val(s[3]));
    assert(hex_seq_val(s) == ((d3 * 16 + d2) * 16 + d1) * 16 + d0);
    assert((((p / 4096) * 16 + (p / 256) % 16) * 16 + (p / 16) % 16) * 16 + p % 16 == p)
        by (bit_vector);
    assert(hex_seq_val(s) == p as nat);
}

} // verus!
