//! Lower-case hexadecimal text for the encrypted keys kept on disk.
use vstd::prelude::*;
use vstd::utf8::{encode_utf8, is_ascii_chars, is_continuation_byte};
use crate::text::{is_whitespace, trim};

verus! {

broadcast use vstd::string::group_string_axioms;

/// The lower-case hexadecimal digit of a value below 16.
pub open spec fn hex_digit(n: int) -> char {
    if n < 10 {
        (48 + n) as char
    } else {
        (87 + n) as char
    }
}

/// Two lower-case hexadecimal digits per byte, high half first.
pub open spec fn spec_hex_encode(bytes: Seq<u8>) -> Seq<char> {
    Seq::new(
        2 * bytes.len(),
        |i: int|
            if i % 2 == 0 {
                hex_digit((bytes[i / 2] / 16) as int)
            } else {
                hex_digit((bytes[i / 2] % 16) as int)
            },
    )
}

fn hex_digit_exec(n: u8) -> (r: char)
    requires
        n < 16,
    ensures
        r == hex_digit(n as int),
{
    if n < 10 {
        (48u8 + n) as char
    } else {
        (87u8 + n) as char
    }
}

/// Writes bytes as lower-case hexadecimal text, two digits per byte.
pub fn hex_encode(bytes: &[u8]) -> (r: String)
    ensures
        r@ == spec_hex_encode(bytes@),
{
    let mut out = String::new();
    let mut i: usize = 0;
    while i < bytes.len()
        invariant
            i <= bytes.len(),
            out@ == spec_hex_encode(bytes@.take(i as int)),
        decreases bytes.len() - i,
    {
        let byte = bytes[i];
        assert((byte >> 4) == byte / 16 && (byte & 0x0f) == byte % 16) by (bit_vector);
        crate::text::push_char(&mut out, hex_digit_exec(byte >> 4));
        crate::text::push_char(&mut out, hex_digit_exec(byte & 0x0f));
        assert(spec_hex_encode(bytes@.take(i + 1)) =~= spec_hex_encode(bytes@.take(i as int)).push(
            hex_digit((byte / 16) as int),
        ).push(hex_digit((byte % 16) as int)));
        i = i + 1;
    }
    assert(bytes@.take(bytes.len() as int) == bytes@);
    out
}

/// Why hexadecimal text cannot be read back.
#[derive(Clone, Copy, Debug, PartialEq, Eq, Structural)]
pub enum HexError {
    /// The text (trimmed) has an odd number of bytes.
    OddLength,
    /// A pair of bytes is not a hexadecimal number.
    InvalidDigit,
}

impl HexError {
    /// The message shown for the error.
    pub fn message(&self) -> (r: String)
        ensures
            r@ == (match *self {
                HexError::OddLength => "invalid encrypted api key"@,
                HexError::InvalidDigit => "invalid digit found in string"@,
            }),
    {
        match self {
            HexError::OddLength => "invalid encrypted api key".to_string(),
            HexError::InvalidDigit => "invalid digit found in string".to_string(),
        }
    }
}

/// The value of one hexadecimal digit byte, in either case.
pub open spec fn hex_value(b: u8) -> Option<u8> {
    if 0x30 <= b <= 0x39 {
        Some((b - 0x30) as u8)
    } else if 0x61 <= b <= 0x66 {
        Some((b - 0x57) as u8)
    } else if 0x41 <= b <= 0x46 {
        Some((b - 0x37) as u8)
    } else {
        None
    }
}

/// A two-byte number in base 16 as `u8::from_str_radix` reads it: two digits,
/// or a `+` sign and one digit.
pub open spec fn hex_pair(b0: u8, b1: u8) -> Option<u8> {
    if b0 == 0x2b {
        hex_value(b1)
    } else {
        match (hex_value(b0), hex_value(b1)) {
            (Some(h), Some(l)) => Some((16 * h + l) as u8),
            _ => None,
        }
    }
}

/// The bytes that consecutive pairs stand for, or `None` at the first pair
/// that is not a number.
pub open spec fn decode_hex_pairs(b: Seq<u8>) -> Option<Seq<u8>>
    decreases b.len(),
{
    if b.len() < 2 {
        Some(Seq::<u8>::empty())
    } else {
        match hex_pair(b[0], b[1]) {
            None => None,
            Some(v) => match decode_hex_pairs(b.subrange(2, b.len() as int)) {
                Some(rest) => Some(seq![v] + rest),
                None => None,
            },
        }
    }
}

/// Whether reading the pairs in order reaches a pair that ends inside a
/// multi-byte character (where slicing the text would panic) before a pair
/// that is not a number.
pub open spec fn hex_pairs_cut_char(b: Seq<u8>) -> bool
    decreases b.len(),
{
    if b.len() < 2 {
        false
    } else if b.len() > 2 && is_continuation_byte(b[2]) {
        true
    } else if hex_pair(b[0], b[1]) is None {
        false
    } else {
        hex_pairs_cut_char(b.subrange(2, b.len() as int))
    }
}

/// The bytes of trimmed text, as UTF-8.
pub open spec fn trimmed_bytes(s: Seq<char>) -> Seq<u8> {
    encode_utf8(trim(s))
}

/// Reads hexadecimal text back into bytes: the text is trimmed, must have an
/// even number of bytes, and each pair must be a base-16 number.
pub open spec fn spec_hex_decode(s: Seq<char>) -> Result<Seq<u8>, HexError> {
    let b = trimmed_bytes(s);
    if b.len() % 2 != 0 {
        Err(HexError::OddLength)
    } else {
        match decode_hex_pairs(b) {
            Some(r) => Ok(r),
            None => Err(HexError::InvalidDigit),
        }
    }
}

/// The inputs on which reading hexadecimal text does not panic.
pub open spec fn hex_decode_defined(s: Seq<char>) -> bool {
    trimmed_bytes(s).len() % 2 != 0 || !hex_pairs_cut_char(trimmed_bytes(s))
}

fn hex_value_exec(b: u8) -> (r: Option<u8>)
    ensures
        r == hex_value(b),
{
    if 0x30 <= b && b <= 0x39 {
        Some(b - 0x30)
    } else if 0x61 <= b && b <= 0x66 {
        Some(b - 0x57)
    } else if 0x41 <= b && b <= 0x46 {
        Some(b - 0x37)
    } else {
        None
    }
}

fn hex_pair_exec(b0: u8, b1: u8) -> (r: Option<u8>)
    ensures
        r == hex_pair(b0, b1),
{
    if b0 == 0x2b {
        hex_value_exec(b1)
    } else {
        match (hex_value_exec(b0), hex_value_exec(b1)) {
            (Some(h), Some(l)) => Some(16 * h + l),
            _ => None,
        }
    }
}

/// Prepends `p` to a decoding result.
pub open spec fn prepend(p: Seq<u8>, r: Option<Seq<u8>>) -> Option<Seq<u8>> {
    match r {
        Some(rest) => Some(p + rest),
        None => None,
    }
}

/// Whether reading hexadecimal text is defined (see `hex_decode_defined`):
/// false exactly where slicing the text pair by pair would panic.
pub fn hex_decode_is_defined(value: &str) -> (r: bool)
    ensures
        r == hex_decode_defined(value@),
{
    let trimmed = crate::text::trim_str(value);
    let b = trimmed.as_str().as_bytes();
    let n = b.len();
    if n % 2 != 0 {
        return true;
    }
    let mut i: usize = 0;
    assert(b@.subrange(0, n as int) == b@);
    while i < n
        invariant
            b@ == trimmed_bytes(value@),
            n == b@.len(),
            n % 2 == 0,
            i % 2 == 0,
            i <= n,
            hex_pairs_cut_char(b@) == hex_pairs_cut_char(b@.subrange(i as int, n as int)),
        decreases n - i,
    {
        let ghost rest = b@.subrange(i as int, n as int);
        assert(rest.subrange(2, rest.len() as int) == b@.subrange(i + 2, n as int));
        assert(rest[0] == b@[i as int] && rest[1] == b@[i + 1]);
        if i + 2 < n {
            assert(rest[2] == b@[i + 2]);
            let c = b[i + 2];
            if 0x80 <= c && c <= 0xbf {
                return false;
            }
        }
        if hex_pair_exec(b[i], b[i + 1]).is_none() {
            return true;
        }
        i = i + 2;
    }
    assert(b@.subrange(n as int, n as int).len() == 0);
    true
}

/// Reads hexadecimal text back into bytes (see `spec_hex_decode`).
pub fn hex_decode(value: &str) -> (r: Result<Vec<u8>, HexError>)
    requires
        hex_decode_defined(value@),
    ensures
        match r {
            Ok(v) => spec_hex_decode(value@) == Ok::<Seq<u8>, HexError>(v@),
            Err(e) => spec_hex_decode(value@) == Err::<Seq<u8>, HexError>(e),
        },
{
    let trimmed = crate::text::trim_str(value);
    let b = trimmed.as_str().as_bytes();
    let n = b.len();
    if n % 2 != 0 {
        return Err(HexError::OddLength);
    }
    let mut out: Vec<u8> = Vec::new();
    let mut i: usize = 0;
    assert(b@.subrange(0, n as int) == b@);
    while i < n
        invariant
            b@ == trimmed_bytes(value@),
            n == b@.len(),
            n % 2 == 0,
            i % 2 == 0,
            i <= n,
            decode_hex_pairs(b@) == prepend(out@, decode_hex_pairs(b@.subrange(i as int, n as int))),
            !hex_pairs_cut_char(b@.subrange(i as int, n as int)),
        decreases n - i,
    {
        let ghost rest = b@.subrange(i as int, n as int);
        assert(rest.subrange(2, rest.len() as int) == b@.subrange(i + 2, n as int));
        assert(rest[0] == b@[i as int] && rest[1] == b@[i + 1]);
        match hex_pair_exec(b[i], b[i + 1]) {
            None => {
                return Err(HexError::InvalidDigit);
            },
            Some(v) => {
                proof {
                    let tail = decode_hex_pairs(b@.subrange(i + 2, n as int));
                    match tail {
                        Some(t) => {
                            assert(out@.push(v) + t == out@ + (seq![v] + t));
                        },
                        None => {},
                    }
                }
                out.push(v);
                i = i + 2;
            },
        }
    }
    assert(b@.subrange(n as int, n as int) == Seq::<u8>::empty());
    assert(out@ + Seq::<u8>::empty() == out@);
    Ok(out)
}


/// The byte of a lower-case hexadecimal digit.
pub open spec fn hex_ascii(n: int) -> u8 {
    if n < 10 {
        (48 + n) as u8
    } else {
        (87 + n) as u8
    }
}

/// The UTF-8 bytes of `spec_hex_encode(bytes)`.
pub open spec fn hex_bytes(bytes: Seq<u8>) -> Seq<u8> {
    Seq::new(
        2 * bytes.len(),
        |i: int|
            if i % 2 == 0 {
                hex_ascii((bytes[i / 2] / 16) as int)
            } else {
                hex_ascii((bytes[i / 2] % 16) as int)
            },
    )
}

proof fn lemma_hex_bytes_decode(bytes: Seq<u8>)
    ensures
        decode_hex_pairs(hex_bytes(bytes)) == Some(bytes),
        !hex_pairs_cut_char(hex_bytes(bytes)),
    decreases bytes.len(),
{
    let h = hex_bytes(bytes);
    if bytes.len() > 0 {
        let rest = bytes.subrange(1, bytes.len() as int);
        lemma_hex_bytes_decode(rest);
        assert(h.subrange(2, h.len() as int) =~= hex_bytes(rest));
        let b = bytes[0];
        assert(h[0] == hex_ascii((b / 16) as int));
        assert(h[1] == hex_ascii((b % 16) as int));
        assert(hex_pair(h[0], h[1]) == Some(b));
        if h.len() > 2 {
            assert(h[2] == hex_ascii((bytes[1] / 16) as int));
            assert(!is_continuation_byte(h[2]));
        }
        assert(seq![b] + rest =~= bytes);
    } else {
        assert(bytes =~= Seq::<u8>::empty());
    }
}

/// Hexadecimal text written by `hex_encode` reads back as the same bytes.
pub proof fn lemma_hex_roundtrip(bytes: Seq<u8>)
    ensures
        hex_decode_defined(spec_hex_encode(bytes)),
        spec_hex_decode(spec_hex_encode(bytes)) == Ok::<Seq<u8>, HexError>(bytes),
{
    let e = spec_hex_encode(bytes);
    assert forall|i: int| 0 <= i < e.len() implies !is_whitespace(#[trigger] e[i]) && '\0' <= e[i]
        <= '\u{7f}' && e[i] as u8 == hex_bytes(bytes)[i] by {}
    if e.len() > 0 {
        crate::text::lemma_trim_no_ws(e);
    } else {
        assert(trim(e) =~= e);
    }
    assert(is_ascii_chars(e));
    vstd::utf8::is_ascii_chars_encode_utf8(e);
    assert(encode_utf8(e) =~= hex_bytes(bytes));
    lemma_hex_bytes_decode(bytes);
}


/// A lower-case hexadecimal digit, as `hex_encode` writes them.
pub open spec fn is_lower_hex_digit(c: char) -> bool {
    ('0' <= c <= '9') || ('a' <= c <= 'f')
}

proof fn lemma_lower_hex_bytes_decode(bs: Seq<u8>)
    requires
        bs.len() % 2 == 0,
        forall|i: int|
            0 <= i < bs.len() ==> (0x30 <= #[trigger] bs[i] <= 0x39 || 0x61 <= bs[i] <= 0x66),
    ensures
        decode_hex_pairs(bs) matches Some(d) && hex_bytes(d) == bs,
        !hex_pairs_cut_char(bs),
    decreases bs.len(),
{
    if bs.len() >= 2 {
        let rest = bs.subrange(2, bs.len() as int);
        assert forall|i: int| 0 <= i < rest.len() implies (0x30 <= #[trigger] rest[i] <= 0x39
            || 0x61 <= rest[i] <= 0x66) by {
            assert(rest[i] == bs[i + 2]);
        }
        lemma_lower_hex_bytes_decode(rest);
        let b0 = bs[0];
        let b1 = bs[1];
        let h = hex_value(b0).unwrap();
        let l = hex_value(b1).unwrap();
        let v = (16 * h + l) as u8;
        assert(hex_pair(b0, b1) == Some(v));
        assert(v / 16 == h && v % 16 == l);
        assert(hex_ascii(h as int) == b0);
        assert(hex_ascii(l as int) == b1);
        let drest = decode_hex_pairs(rest).unwrap();
        let d = seq![v] + drest;
        assert(decode_hex_pairs(bs) == Some(d));
        assert forall|i: int| 0 <= i < bs.len() implies #[trigger] hex_bytes(d)[i] == bs[i] by {
            if i >= 2 {
                assert(d[i / 2] == drest[(i - 2) / 2]);
                assert(hex_bytes(drest)[i - 2] == rest[i - 2]);
            }
        }
        assert(hex_bytes(d) =~= bs);
        if bs.len() > 2 {
            assert(bs[2] == rest[0]);
        }
    } else {
        assert(hex_bytes(Seq::<u8>::empty()) =~= bs);
    }
}

/// Lower-case hexadecimal text of even length reads back as bytes whose
/// hexadecimal text is that text again.
pub proof fn lemma_hex_decode_encode(s: Seq<char>)
    requires
        s.len() % 2 == 0,
        forall|i: int| 0 <= i < s.len() ==> is_lower_hex_digit(#[trigger] s[i]),
    ensures
        hex_decode_defined(s),
        spec_hex_decode(s) matches Ok(b) && spec_hex_encode(b) == s,
{
    assert forall|i: int| 0 <= i < s.len() implies !is_whitespace(#[trigger] s[i]) && '\0' <= s[i]
        <= '\u{7f}' by {}
    if s.len() > 0 {
        crate::text::lemma_trim_no_ws(s);
    } else {
        assert(trim(s) =~= s);
    }
    assert(is_ascii_chars(s));
    vstd::utf8::is_ascii_chars_encode_utf8(s);
    let bs = encode_utf8(s);
    assert(trimmed_bytes(s) == bs);
    assert forall|i: int| 0 <= i < bs.len() implies (0x30 <= #[trigger] bs[i] <= 0x39 || 0x61
        <= bs[i] <= 0x66) by {
        assert(s[i] as u8 == bs[i]);
    }
    lemma_lower_hex_bytes_decode(bs);
    let d = decode_hex_pairs(bs).unwrap();
    let e = spec_hex_encode(d);
    assert forall|i: int| 0 <= i < s.len() implies #[trigger] e[i] == s[i] by {
        assert(hex_bytes(d)[i] == bs[i]);
        assert(s[i] as u8 == bs[i]);
    }
    assert(e =~= s);
}

} // verus!
