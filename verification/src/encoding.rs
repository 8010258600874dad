//! Hex text: what counts as well formed, what it stands for, and the two
//! calls into the `hex` crate that convert between text and bytes.

use vstd::prelude::*;

verus! {

/// The sixteen lower-case hex digits, by value.
pub open spec fn hex_alphabet() -> Seq<char> {
    seq!['0', '1', '2', '3', '4', '5', '6', '7', '8', '9', 'a', 'b', 'c', 'd', 'e', 'f']
}

/// `c` is one of `0-9`, `a-f`, `A-F`.
pub open spec fn is_hex_digit(c: char) -> bool {
    ('0' <= c && c <= '9') || ('a' <= c && c <= 'f') || ('A' <= c && c <= 'F')
}

/// The value, 0 to 15, of a hex digit of either case.
pub open spec fn hex_digit_value(c: char) -> int {
    if '0' <= c && c <= '9' {
        c as int - '0' as int
    } else if 'a' <= c && c <= 'f' {
        c as int - 'a' as int + 10
    } else {
        c as int - 'A' as int + 10
    }
}

/// An even number of hex digits and nothing else.
pub open spec fn is_hex(s: Seq<char>) -> bool {
    &&& s.len() % 2 == 0
    &&& forall|i: int| 0 <= i < s.len() ==> is_hex_digit(#[trigger] s[i])
}

/// The bytes that well-formed hex text stands for, two digits to a byte,
/// high digit first.
pub open spec fn hex_decoded(s: Seq<char>) -> Seq<u8> {
    Seq::new(
        s.len() / 2,
        |i: int| (16 * hex_digit_value(s[2 * i]) + hex_digit_value(s[2 * i + 1])) as u8,
    )
}

/// The lower-case hex text of `bytes`.
pub open spec fn hex_encoded(bytes: Seq<u8>) -> Seq<char> {
    Seq::new(
        2 * bytes.len(),
        |i: int|
            if i % 2 == 0 {
                hex_alphabet()[bytes[i / 2] as int / 16]
            } else {
                hex_alphabet()[bytes[i / 2] as int % 16]
            },
    )
}

/// The error of `hex::decode`, carried through unread.
#[verifier::external_type_specification]
#[verifier::external_body]
pub struct ExFromHexError(hex::FromHexError);

/// `hex::encode`: every byte becomes its two lower-case digits, high digit
/// first. Trusted, not proved.
#[verifier::external_body]
pub(crate) fn hex_encode(bytes: &[u8]) -> (text: String)
    ensures
        text@ == hex_encoded(bytes@),
{
    hex::encode(bytes)
}

/// `hex::decode`: succeeds exactly on an even number of hex digits of
/// either case, and then yields one byte for each pair, high digit first.
/// A character outside ASCII is refused like any other non-digit.
/// Trusted, not proved.
#[verifier::external_body]
pub(crate) fn hex_decode(text: &str) -> (r: Result<Vec<u8>, hex::FromHexError>)
    ensures
        r is Ok <==> is_hex(text@),
        r matches Ok(bytes) ==> bytes@ == hex_decoded(text@),
{
    hex::decode(text)
}

/// Decoding inverts encoding.
pub proof fn lemma_hex_round_trip(bytes: Seq<u8>)
    ensures
        is_hex(hex_encoded(bytes)),
        hex_decoded(hex_encoded(bytes)) == bytes,
{
    let text = hex_encoded(bytes);
    assert forall|i: int| 0 <= i < text.len() implies is_hex_digit(#[trigger] text[i]) by {
        let b = bytes[i / 2] as int;
        assert(0 <= b / 16 < 16 && 0 <= b % 16 < 16);
        lemma_alphabet_digit(b / 16);
        lemma_alphabet_digit(b % 16);
    }
    assert(text.len() / 2 == bytes.len());
    assert forall|i: int| 0 <= i < bytes.len() implies hex_decoded(text)[i] == bytes[i] by {
        let b = bytes[i] as int;
        assert(0 <= b / 16 < 16 && 0 <= b % 16 < 16);
        lemma_alphabet_digit(b / 16);
        lemma_alphabet_digit(b % 16);
        assert((2 * i) / 2 == i && (2 * i) % 2 == 0);
        assert((2 * i + 1) / 2 == i && (2 * i + 1) % 2 == 1);
        assert(text[2 * i] == hex_alphabet()[b / 16]);
        assert(text[2 * i + 1] == hex_alphabet()[b % 16]);
        assert(16 * (b / 16) + b % 16 == b);
    }
    assert(hex_decoded(text) =~= bytes);
}

/// Each entry of the alphabet is a hex digit of its own index.
pub proof fn lemma_alphabet_digit(n: int)
    requires
        0 <= n < 16,
    ensures
        is_hex_digit(hex_alphabet()[n]),
        hex_digit_value(hex_alphabet()[n]) == n,
{
    let a = hex_alphabet();
    assert(a[0] == '0' && a[1] == '1' && a[2] == '2' && a[3] == '3');
    assert(a[4] == '4' && a[5] == '5' && a[6] == '6' && a[7] == '7');
    assert(a[8] == '8' && a[9] == '9' && a[10] == 'a' && a[11] == 'b');
    assert(a[12] == 'c' && a[13] == 'd' && a[14] == 'e' && a[15] == 'f');
}

} // verus!
