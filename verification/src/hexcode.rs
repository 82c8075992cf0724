use crate::parse_error::ParseHashError;
use crate::text::{decimal, decimal_text};
use vstd::prelude::*;
use vstd::utf8::{encode_utf8, is_ascii_chars, is_ascii_chars_encode_utf8};

verus! {

/// The lowercase hexadecimal digit for a value below sixteen.
pub open spec fn hex_digit(v: int) -> char {
    if v == 0 {
        '0'
    } else if v == 1 {
        '1'
    } else if v == 2 {
        '2'
    } else if v == 3 {
        '3'
    } else if v == 4 {
        '4'
    } else if v == 5 {
        '5'
    } else if v == 6 {
        '6'
    } else if v == 7 {
        '7'
    } else if v == 8 {
        '8'
    } else if v == 9 {
        '9'
    } else if v == 10 {
        'a'
    } else if v == 11 {
        'b'
    } else if v == 12 {
        'c'
    } else if v == 13 {
        'd'
    } else if v == 14 {
        'e'
    } else {
        'f'
    }
}

/// The value of a hexadecimal digit of either case; `None` for any other character.
pub open spec fn hex_value(c: char) -> Option<int> {
    if '0' <= c <= '9' {
        Some(c as int - '0' as int)
    } else if 'a' <= c <= 'f' {
        Some(c as int - 'a' as int + 10)
    } else if 'A' <= c <= 'F' {
        Some(c as int - 'A' as int + 10)
    } else {
        None
    }
}

/// Whether `c` is one of `0`-`9`, `a`-`f`.
pub open spec fn is_lower_hex_char(c: char) -> bool {
    '0' <= c <= '9' || 'a' <= c <= 'f'
}

/// Whether every character of `s` is one of `0`-`9`, `a`-`f`.
pub open spec fn is_lower_hex(s: Seq<char>) -> bool {
    forall|i: int| 0 <= i < s.len() ==> is_lower_hex_char(#[trigger] s[i])
}

/// Two lowercase digits for each byte, the high half first.
pub open spec fn hex_text(bytes: Seq<u8>) -> Seq<char> {
    Seq::new(
        2 * bytes.len(),
        |i: int|
            if i % 2 == 0 {
                hex_digit(bytes[i / 2] as int / 16)
            } else {
                hex_digit(bytes[i / 2] as int % 16)
            },
    )
}

/// Whether `s` is an even number of hexadecimal digits.
pub open spec fn is_hex_text(s: Seq<char>) -> bool {
    &&& s.len() % 2 == 0
    &&& forall|i: int| 0 <= i < s.len() ==> (#[trigger] hex_value(s[i])) is Some
}

/// The bytes that an even number of hexadecimal digits stand for.
pub open spec fn hex_bytes(s: Seq<char>) -> Seq<u8> {
    Seq::new(
        s.len() / 2,
        |i: int| (16 * hex_value(s[2 * i]).unwrap() + hex_value(s[2 * i + 1]).unwrap()) as u8,
    )
}

/// Hexadecimal text is read back as the bytes it was written from.
pub proof fn lemma_hex_round_trip(bytes: Seq<u8>)
    ensures
        hex_text(bytes).len() == 2 * bytes.len(),
        is_lower_hex(hex_text(bytes)),
        is_hex_text(hex_text(bytes)),
        hex_bytes(hex_text(bytes)) == bytes,
{
    let t = hex_text(bytes);
    assert forall|i: int| 0 <= i < t.len() implies is_lower_hex_char(#[trigger] t[i]) && hex_value(
        t[i],
    ) is Some by {
        let b = bytes[i / 2] as int;
        assert(0 <= b / 16 < 16 && 0 <= b % 16 < 16);
    }
    assert forall|i: int| 0 <= i < bytes.len() implies hex_bytes(t)[i] == bytes[i] by {
        let b = bytes[i] as int;
        assert(t[2 * i] == hex_digit(b / 16));
        assert(t[2 * i + 1] == hex_digit(b % 16));
        assert(0 <= b / 16 < 16 && 0 <= b % 16 < 16);
        assert(hex_value(hex_digit(b / 16)) == Some(b / 16));
        assert(hex_value(hex_digit(b % 16)) == Some(b % 16));
    }
    assert(hex_bytes(t) =~= bytes);
}

/// Calls `hex::encode`, which writes each byte as two lowercase hexadecimal
/// digits, the high half first.
#[verifier::external_body]
pub(crate) fn encode(bytes: &[u8]) -> (text: String)
    ensures
        text@ == hex_text(bytes@),
{
    ::hex::encode(bytes)
}

/// Calls `hex::decode`, which accepts an even number of hexadecimal digits of
/// either case and gives one byte for each pair, the high half first; any
/// other text is an error there, `None` here.
#[verifier::external_body]
pub(crate) fn decode(text: &str) -> (bytes: Option<Vec<u8>>)
    ensures
        bytes is Some <==> is_hex_text(text@),
        bytes matches Some(b) ==> b@ == hex_bytes(text@),
{
    ::hex::decode(text).ok()
}

/// Lowercase hexadecimal text is ASCII, so it has one byte for each character.
pub proof fn lemma_lower_hex_is_ascii(s: Seq<char>)
    requires
        is_lower_hex(s),
    ensures
        is_ascii_chars(s),
        encode_utf8(s).len() == s.len(),
        is_hex_text(s) <==> s.len() % 2 == 0,
{
    assert forall|i: int| 0 <= i < s.len() implies '\0' <= #[trigger] s[i] <= '\u{7f}' by {
        assert(is_lower_hex_char(s[i]));
    }
    is_ascii_chars_encode_utf8(s);
    assert forall|i: int| 0 <= i < s.len() implies (#[trigger] hex_value(s[i])) is Some by {
        assert(is_lower_hex_char(s[i]));
    }
}

/// Whether every character of `s` is one of `0`-`9`, `a`-`f`.
pub fn all_lower_hex(s: &str) -> (all: bool)
    ensures
        all == is_lower_hex(s@),
{
    let n = s.unicode_len();
    let mut i: usize = 0;
    while i < n
        invariant
            n == s@.len(),
            i <= n,
            forall|j: int| 0 <= j < i ==> is_lower_hex_char(#[trigger] s@[j]),
        decreases n - i,
    {
        let c = s.get_char(i);
        if !(('0' <= c && c <= '9') || ('a' <= c && c <= 'f')) {
            assert(!is_lower_hex_char(s@[i as int]));
            return false;
        }
        i += 1;
    }
    true
}

/// The bytes of a hash of `width` bytes written as text: exactly two
/// characters for each byte, each one of `0`-`9`, `a`-`f`.
pub open spec fn bytes_of_text(s: Seq<char>, width: nat) -> Option<Seq<u8>> {
    if s.len() == 2 * width && is_lower_hex(s) {
        Some(hex_bytes(s))
    } else {
        None
    }
}

/// Why a text is no hash of `width` bytes; meaningful where `bytes_of_text`
/// is `None`. The length that it names is the text's length in UTF-8.
pub open spec fn text_refusal(s: Seq<char>, width: nat) -> Seq<char> {
    if encode_utf8(s).len() != 2 * width {
        "length "@ + decimal(encode_utf8(s).len()) + " is not "@ + decimal(2 * width)
    } else {
        "input not in [0-9a-f]"@
    }
}

/// Why a blob is no hash of `width` bytes; meaningful where its length is
/// not `width`.
pub open spec fn blob_refusal(blob: Seq<u8>, width: nat) -> Seq<char> {
    "blob length "@ + decimal(blob.len()) + " is not "@ + decimal(width)
}

/// Reads the bytes of a hash of `width` bytes from lowercase hexadecimal
/// text. `description` names the kind of hash in the error.
pub fn parse_fixed(description: &'static str, s: &str, width: usize) -> (parsed: Result<
    Vec<u8>,
    ParseHashError,
>)
    requires
        width <= 0x1000,
    ensures
        match bytes_of_text(s@, width as nat) {
            Some(b) => parsed matches Ok(v) && v@ == b && v@.len() == width,
            None => parsed matches Err(e) && e.spec_description() == description@
                && e.spec_input() == s@ && e.spec_error_string() == text_refusal(
                s@,
                width as nat,
            ),
        },
{
    let byte_len = s.as_bytes().len();
    if byte_len != 2 * width {
        proof {
            if is_lower_hex(s@) {
                lemma_lower_hex_is_ascii(s@);
            }
        }
        let mut err = "length ".to_owned();
        err.append(decimal_text(byte_len as u64).as_str());
        err.append(" is not ");
        err.append(decimal_text((2 * width) as u64).as_str());
        return Err(ParseHashError::new(description, s, err));
    }
    if !all_lower_hex(s) {
        return Err(ParseHashError::new(description, s, "input not in [0-9a-f]".to_owned()));
    }
    proof {
        lemma_lower_hex_is_ascii(s@);
    }
    let decoded = decode(s);
    Ok(decoded.unwrap())
}

/// Checks that a stored blob has the `width` of the hash that it should hold.
/// `description` names the kind of hash in the error.
pub fn check_blob_width(description: &'static str, blob: &[u8], width: usize) -> (checked: Result<
    (),
    ParseHashError,
>)
    ensures
        blob@.len() == width ==> checked is Ok,
        blob@.len() != width ==> (checked matches Err(e) && e.spec_description() == description@
            && e.spec_input() == hex_text(blob@) && e.spec_error_string() == blob_refusal(
            blob@,
            width as nat,
        )),
{
    if blob.len() != width {
        let mut err = "blob length ".to_owned();
        err.append(decimal_text(blob.len() as u64).as_str());
        err.append(" is not ");
        err.append(decimal_text(width as u64).as_str());
        return Err(ParseHashError::from_blob(description, blob, err));
    }
    Ok(())
}

} // verus!
