use vstd::prelude::*;

use crate::text::{chars_of, push_char};

verus! {

/// The sixteen digits of the envelope's text form, lowest first.
pub open spec fn hex_digits() -> Seq<char> {
    seq!['0', '1', '2', '3', '4', '5', '6', '7', '8', '9', 'a', 'b', 'c', 'd', 'e', 'f']
}

/// The value of one text digit, if it is one of `hex_digits()`.
pub open spec fn hex_value(c: char) -> Option<u8> {
    if 48 <= c as u32 <= 57 {
        Some((c as u32 - 48) as u8)
    } else if 97 <= c as u32 <= 102 {
        Some((c as u32 - 87) as u8)
    } else {
        None
    }
}

/// The text form of a byte string: two lowercase digits per byte, high
/// nibble first.
pub open spec fn hex_text(b: Seq<u8>) -> Seq<char> {
    Seq::new(
        2 * b.len(),
        |i: int|
            if i % 2 == 0 {
                hex_digits()[(b[i / 2] / 16) as int]
            } else {
                hex_digits()[(b[i / 2] % 16) as int]
            },
    )
}

/// Whether every character of `t` is a digit of the text form.
pub open spec fn all_hex(t: Seq<char>) -> bool {
    forall|i: int| 0 <= i < t.len() ==> (#[trigger] hex_value(t[i])) is Some
}

/// The bytes that a text form stands for, or `None` if it is not one.
pub open spec fn hex_decode(t: Seq<char>) -> Option<Seq<u8>> {
    if t.len() % 2 == 0 && all_hex(t) {
        Some(
            Seq::new(
                t.len() / 2,
                |i: int| (hex_value(t[2 * i])->0 * 16 + hex_value(t[2 * i + 1])->0) as u8,
            ),
        )
    } else {
        None
    }
}

proof fn lemma_digit_value(v: u8)
    requires
        v < 16,
    ensures
        hex_value(hex_digits()[v as int]) == Some(v),
{
    assert(hex_digits()[0] == '0' && hex_digits()[1] == '1' && hex_digits()[2] == '2'
        && hex_digits()[3] == '3' && hex_digits()[4] == '4' && hex_digits()[5] == '5'
        && hex_digits()[6] == '6' && hex_digits()[7] == '7' && hex_digits()[8] == '8'
        && hex_digits()[9] == '9' && hex_digits()[10] == 'a' && hex_digits()[11] == 'b'
        && hex_digits()[12] == 'c' && hex_digits()[13] == 'd' && hex_digits()[14] == 'e'
        && hex_digits()[15] == 'f');
}

/// Decoding the text form of any byte string gives back that byte string.
pub proof fn lemma_hex_round_trip(b: Seq<u8>)
    ensures
        hex_decode(hex_text(b)) == Some(b),
{
    let t = hex_text(b);
    assert forall|i: int| 0 <= i < t.len() implies (#[trigger] hex_value(t[i])) is Some by {
        let x = b[i / 2];
        lemma_digit_value(x / 16);
        lemma_digit_value(x % 16);
    }
    let d = hex_decode(t)->0;
    assert forall|i: int| 0 <= i < b.len() implies d[i] == b[i] by {
        let x = b[i];
        assert((2 * i) / 2 == i && (2 * i) % 2 == 0 && (2 * i + 1) / 2 == i && (2 * i + 1) % 2
            == 1);
        lemma_digit_value(x / 16);
        lemma_digit_value(x % 16);
        assert((x / 16) * 16 + x % 16 == x);
    }
    assert(d =~= b);
}


fn digit_char(v: u8) -> (c: char)
    requires
        v < 16,
    ensures
        c == hex_digits()[v as int],
{
    match v {
        0 => '0',
        1 => '1',
        2 => '2',
        3 => '3',
        4 => '4',
        5 => '5',
        6 => '6',
        7 => '7',
        8 => '8',
        9 => '9',
        10 => 'a',
        11 => 'b',
        12 => 'c',
        13 => 'd',
        14 => 'e',
        _ => 'f',
    }
}

fn digit_value(c: char) -> (r: Option<u8>)
    ensures
        r == hex_value(c),
{
    let x = c as u32;
    if 48 <= x && x <= 57 {
        Some((x - 48) as u8)
    } else if 97 <= x && x <= 102 {
        Some((x - 87) as u8)
    } else {
        None
    }
}

/// Writes a byte string in the envelope's text form.
pub fn encode_envelope(bytes: &Vec<u8>) -> (r: String)
    ensures
        r@ == hex_text(bytes@),
{
    let mut out = String::new();
    let mut i: usize = 0;
    while i < bytes.len()
        invariant
            i <= bytes@.len(),
            out@ == hex_text(bytes@.take(i as int)),
        decreases bytes.len() - i,
    {
        let b = bytes[i];
        push_char(&mut out, digit_char(b / 16));
        push_char(&mut out, digit_char(b % 16));
        assert(out@ =~= hex_text(bytes@.take(i + 1)));
        i = i + 1;
    }
    assert(bytes@.take(bytes.len() as int) =~= bytes@);
    out
}

/// Reads the envelope's text form back into bytes; `None` for text that is
/// not of that form.
pub fn decode_envelope(text: &str) -> (r: Option<Vec<u8>>)
    ensures
        match r {
            Some(b) => hex_decode(text@) == Some(b@),
            None => hex_decode(text@) is None,
        },
{
    let t = chars_of(text);
    if t.len() % 2 != 0 {
        return None;
    }
    let n = t.len() / 2;
    let mut out: Vec<u8> = Vec::new();
    let mut i: usize = 0;
    while i < n
        invariant
            t@ == text@,
            t@.len() == 2 * n,
            i <= n,
            out@.len() == i,
            forall|j: int| 0 <= j < 2 * i ==> (#[trigger] hex_value(t@[j])) is Some,
            forall|j: int|
                0 <= j < i ==> out@[j] == (hex_value(t@[2 * j])->0 * 16 + hex_value(
                    t@[2 * j + 1],
                )->0) as u8,
        decreases n - i,
    {
        let hi = digit_value(t[2 * i]);
        let lo = digit_value(t[2 * i + 1]);
        match (hi, lo) {
            (Some(h), Some(l)) => {
                out.push(h * 16 + l);
            },
            _ => {
                assert(!all_hex(text@));
                return None;
            },
        }
        i = i + 1;
    }
    assert(all_hex(text@));
    assert(out@ =~= hex_decode(text@)->0);
    Some(out)
}

} // verus!
