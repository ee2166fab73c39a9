//! Lower-case hexadecimal text, the form in which binary values travel in cookies.

use vstd::prelude::*;

verus! {

/// The ASCII digit that stands for a nibble.
pub open spec fn digit_of(nibble: int) -> u8 {
    if nibble < 10 {
        (48 + nibble) as u8
    } else {
        (87 + nibble) as u8
    }
}

/// Whether a byte is one of `0`-`9` or `a`-`f`. Upper-case digits are not accepted,
/// so that every value has exactly one text.
pub open spec fn is_digit(c: u8) -> bool {
    (48 <= c <= 57) || (97 <= c <= 102)
}

/// The nibble that a digit stands for.
pub open spec fn value_of(c: u8) -> int {
    if c <= 57 {
        c - 48
    } else {
        c - 87
    }
}

/// The text of a byte string: two digits per byte, the high nibble first.
pub open spec fn encode_spec(bytes: Seq<u8>) -> Seq<u8> {
    Seq::new(
        2 * bytes.len(),
        |i: int|
            if i % 2 == 0 {
                digit_of(bytes[i / 2] as int / 16)
            } else {
                digit_of(bytes[i / 2] as int % 16)
            },
    )
}

/// Whether a text is the encoding of some byte string.
pub open spec fn is_hex(text: Seq<u8>) -> bool {
    text.len() % 2 == 0 && forall|i: int| 0 <= i < text.len() ==> is_digit(#[trigger] text[i])
}

/// The byte string that a text stands for.
pub open spec fn decode_spec(text: Seq<u8>) -> Seq<u8> {
    Seq::new(
        text.len() / 2,
        |i: int| (value_of(text[2 * i]) * 16 + value_of(text[2 * i + 1])) as u8,
    )
}

/// Decoding undoes encoding.
pub proof fn lemma_decode_encode(bytes: Seq<u8>)
    ensures
        is_hex(encode_spec(bytes)),
        decode_spec(encode_spec(bytes)) == bytes,
{
    let text = encode_spec(bytes);
    assert forall|i: int| 0 <= i < text.len() implies is_digit(#[trigger] text[i]) by {
        let b = bytes[i / 2] as int;
        assert(0 <= b / 16 < 16 && 0 <= b % 16 < 16);
    }
    assert forall|i: int| 0 <= i < bytes.len() implies decode_spec(text)[i] == bytes[i] by {
        let b = bytes[i] as int;
        assert((2 * i) / 2 == i && (2 * i + 1) / 2 == i);
        assert((2 * i) % 2 == 0 && (2 * i + 1) % 2 == 1);
        assert(text[2 * i] == digit_of(b / 16));
        assert(text[2 * i + 1] == digit_of(b % 16));
        assert(0 <= b / 16 < 16 && 0 <= b % 16 < 16);
        assert(b == (b / 16) * 16 + b % 16);
    }
    assert(decode_spec(text) =~= bytes);
}

/// Two texts of one length that differ in a single digit stand for byte strings
/// that differ in the byte of that digit, and in no other.
pub proof fn lemma_decode_one_digit(a: Seq<u8>, b: Seq<u8>, at: int)
    requires
        is_hex(a),
        is_hex(b),
        a.len() == b.len(),
        0 <= at < a.len(),
        a[at] != b[at],
        forall|i: int| 0 <= i < a.len() && i != at ==> a[i] == b[i],
    ensures
        decode_spec(a).len() == decode_spec(b).len(),
        decode_spec(a)[at / 2] != decode_spec(b)[at / 2],
        forall|k: int|
            0 <= k < decode_spec(a).len() && k != at / 2 ==> decode_spec(a)[k] == decode_spec(b)[k],
{
    let k = at / 2;
    assert(is_digit(a[2 * k]) && is_digit(a[2 * k + 1]));
    assert(is_digit(b[2 * k]) && is_digit(b[2 * k + 1]));
    assert(is_digit(a[at]) && is_digit(b[at]));
    if at % 2 == 0 {
        assert(at == 2 * k);
        assert(a[2 * k + 1] == b[2 * k + 1]);
    } else {
        assert(at == 2 * k + 1);
        assert(a[2 * k] == b[2 * k]);
    }
    assert forall|j: int| 0 <= j < decode_spec(a).len() && j != k implies decode_spec(a)[j]
        == decode_spec(b)[j] by {
        assert(a[2 * j] == b[2 * j]);
        assert(a[2 * j + 1] == b[2 * j + 1]);
    }
}

/// The digit of a nibble.
fn digit(nibble: u8) -> (c: u8)
    requires
        nibble < 16,
    ensures
        c == digit_of(nibble as int),
{
    if nibble < 10 {
        48 + nibble
    } else {
        87 + nibble
    }
}

/// Writes a byte string as text.
pub fn encode(bytes: &[u8]) -> (text: Vec<u8>)
    ensures
        text@ == encode_spec(bytes@),
{
    let mut text: Vec<u8> = Vec::new();
    let mut i: usize = 0;
    while i < bytes.len()
        invariant
            i <= bytes.len(),
            text@.len() == 2 * i,
            forall|j: int| 0 <= j < text@.len() ==> text@[j] == encode_spec(bytes@)[j],
        decreases bytes.len() - i,
    {
        let b: u8 = bytes[i];
        text.push(digit(b / 16));
        text.push(digit(b % 16));
        proof {
            assert((2 * i) / 2 == i && (2 * i + 1) / 2 == i);
            assert((2 * i) % 2 == 0 && (2 * i + 1) % 2 == 1);
        }
        i += 1;
    }
    assert(text@ =~= encode_spec(bytes@));
    text
}

/// Reads a text back into the byte string it stands for; `None` where the text is
/// of odd length or holds a byte that is no lower-case hexadecimal digit.
pub fn decode(text: &[u8]) -> (bytes: Option<Vec<u8>>)
    ensures
        bytes.is_some() == is_hex(text@),
        bytes.is_some() ==> bytes.unwrap()@ == decode_spec(text@),
{
    if text.len() % 2 != 0 {
        return None;
    }
    let mut bytes: Vec<u8> = Vec::new();
    let mut i: usize = 0;
    while i < text.len()
        invariant
            text.len() % 2 == 0,
            i % 2 == 0,
            i <= text.len(),
            bytes@.len() == i / 2,
            forall|j: int| 0 <= j < i ==> is_digit(#[trigger] text@[j]),
            forall|j: int| 0 <= j < bytes@.len() ==> bytes@[j] == decode_spec(text@)[j],
        decreases text.len() - i,
    {
        let hi: u8 = text[i];
        let lo: u8 = text[i + 1];
        if !(digit_ok(hi) && digit_ok(lo)) {
            return None;
        }
        let ghost k: int = i as int / 2;
        assert(2 * k == i);
        bytes.push(value(hi) * 16 + value(lo));
        i += 2;
    }
    assert(bytes@ =~= decode_spec(text@));
    Some(bytes)
}

/// Whether a byte is a digit of this alphabet.
fn digit_ok(c: u8) -> (ok: bool)
    ensures
        ok == is_digit(c),
{
    (48 <= c && c <= 57) || (97 <= c && c <= 102)
}

/// The nibble of a digit.
fn value(c: u8) -> (nibble: u8)
    requires
        is_digit(c),
    ensures
        nibble == value_of(c),
        nibble < 16,
{
    if c <= 57 {
        c - 48
    } else {
        c - 87
    }
}

} // verus!
