//! Lower-case hexadecimal text of byte strings.

use vstd::prelude::*;

verus! {

/// The digit that stands for `n`, for `n` below sixteen.
pub open spec fn digit_char(n: int) -> char {
    if n == 0 {
        '0'
    } else if n == 1 {
        '1'
    } else if n == 2 {
        '2'
    } else if n == 3 {
        '3'
    } else if n == 4 {
        '4'
    } else if n == 5 {
        '5'
    } else if n == 6 {
        '6'
    } else if n == 7 {
        '7'
    } else if n == 8 {
        '8'
    } else if n == 9 {
        '9'
    } else if n == 10 {
        'a'
    } else if n == 11 {
        'b'
    } else if n == 12 {
        'c'
    } else if n == 13 {
        'd'
    } else if n == 14 {
        'e'
    } else {
        'f'
    }
}

/// The number that the digit `c` stands for; `None` where `c` is no
/// lower-case hexadecimal digit.
pub open spec fn digit_value(c: char) -> Option<u8> {
    if c == '0' {
        Some(0u8)
    } else if c == '1' {
        Some(1u8)
    } else if c == '2' {
        Some(2u8)
    } else if c == '3' {
        Some(3u8)
    } else if c == '4' {
        Some(4u8)
    } else if c == '5' {
        Some(5u8)
    } else if c == '6' {
        Some(6u8)
    } else if c == '7' {
        Some(7u8)
    } else if c == '8' {
        Some(8u8)
    } else if c == '9' {
        Some(9u8)
    } else if c == 'a' {
        Some(10u8)
    } else if c == 'b' {
        Some(11u8)
    } else if c == 'c' {
        Some(12u8)
    } else if c == 'd' {
        Some(13u8)
    } else if c == 'e' {
        Some(14u8)
    } else if c == 'f' {
        Some(15u8)
    } else {
        None
    }
}

/// The text of `bytes`: two digits for each byte, the high half first.
pub open spec fn hex_text(bytes: Seq<u8>) -> Seq<char> {
    Seq::new(
        2 * bytes.len(),
        |i: int|
            if i % 2 == 0 {
                digit_char(bytes[i / 2] as int / 16)
            } else {
                digit_char(bytes[i / 2] as int % 16)
            },
    )
}

/// The digit for a number stands for that number.
pub proof fn lemma_value_of_digit(n: int)
    requires
        0 <= n < 16,
    ensures
        digit_value(digit_char(n)) == Some(n as u8),
{
}

/// A character that stands for a number is the digit for that number.
pub proof fn lemma_digit_of_value(c: char)
    ensures
        digit_value(c) matches Some(n) ==> n < 16 && digit_char(n as int) == c,
{
}

/// Two byte strings with the same text are the same.
pub proof fn lemma_hex_text_injective(a: Seq<u8>, b: Seq<u8>)
    requires
        hex_text(a) == hex_text(b),
    ensures
        a == b,
{
    assert(hex_text(a).len() == 2 * a.len());
    assert(hex_text(b).len() == 2 * b.len());
    assert forall|i: int| 0 <= i < a.len() implies a[i] == b[i] by {
        let hi = hex_text(a)[2 * i];
        let lo = hex_text(a)[2 * i + 1];
        assert(hi == hex_text(b)[2 * i]);
        assert(lo == hex_text(b)[2 * i + 1]);
        assert((2 * i) / 2 == i && (2 * i) % 2 == 0);
        assert((2 * i + 1) / 2 == i && (2 * i + 1) % 2 == 1);
        lemma_value_of_digit(a[i] as int / 16);
        lemma_value_of_digit(b[i] as int / 16);
        lemma_value_of_digit(a[i] as int % 16);
        lemma_value_of_digit(b[i] as int % 16);
    }
    assert(a =~= b);
}

/// The digit for `n`.
pub(crate) fn digit(n: u8) -> (c: char)
    requires
        n < 16,
    ensures
        c == digit_char(n as int),
{
    match n {
        0 => '0',
        1 => '1',
        2 => '2',
        3 => '3',
        4 => '4',
        5 => '5',
        6 => '6',
        7 => '7',
        8 => '8',
        9 => '9',
        10 => 'a',
        11 => 'b',
        12 => 'c',
        13 => 'd',
        14 => 'e',
        _ => 'f',
    }
}

/// The value of the digit `c`.
pub fn value(c: char) -> (r: Option<u8>)
    ensures
        r == digit_value(c),
{
    match c {
        '0' => Some(0),
        '1' => Some(1),
        '2' => Some(2),
        '3' => Some(3),
        '4' => Some(4),
        '5' => Some(5),
        '6' => Some(6),
        '7' => Some(7),
        '8' => Some(8),
        '9' => Some(9),
        'a' => Some(10),
        'b' => Some(11),
        'c' => Some(12),
        'd' => Some(13),
        'e' => Some(14),
        'f' => Some(15),
        _ => None,
    }
}

/// Appends the text of `bytes` to `out`.
pub fn push_hex(out: &mut Vec<char>, bytes: &[u8])
    ensures
        final(out)@ == old(out)@ + hex_text(bytes@),
{
    let ghost start = out@;
    let mut i: usize = 0;
    while i < bytes.len()
        invariant
            i <= bytes.len(),
            out@ == start + hex_text(bytes@.take(i as int)),
        decreases bytes.len() - i,
    {
        let b: u8 = bytes[i];
        out.push(digit(b / 16));
        out.push(digit(b % 16));
        proof {
            let before = bytes@.take(i as int);
            let after = bytes@.take(i + 1);
            assert(after =~= before.push(b));
            assert(hex_text(after) =~= hex_text(before).push(digit_char(b as int / 16)).push(
                digit_char(b as int % 16),
            )) by {
                assert forall|k: int| 0 <= k < 2 * i implies hex_text(after)[k] == hex_text(
                    before,
                )[k] by {
                    assert(after[k / 2] == before[k / 2]);
                }
                assert((2 * i) / 2 == i && (2 * i) % 2 == 0);
                assert((2 * i + 1) / 2 == i && (2 * i + 1) % 2 == 1);
            }
            assert(out@ =~= start + hex_text(after));
        }
        i += 1;
    }
    assert(bytes@.take(bytes.len() as int) =~= bytes@);
}

/// The byte string whose text is `chars`, if there is one.
pub fn parse_hex(chars: &[char]) -> (r: Option<Vec<u8>>)
    ensures
        match r {
            Some(bytes) => hex_text(bytes@) == chars@,
            None => forall|bytes: Seq<u8>| hex_text(bytes) != chars@,
        },
{
    let n = chars.len();
    if n % 2 != 0 {
        return None;
    }
    let mut out: Vec<u8> = Vec::new();
    let mut i: usize = 0;
    while i < n / 2
        invariant
            n == chars.len(),
            n % 2 == 0,
            i <= n / 2,
            out.len() == i,
            forall|j: int|
                0 <= j < i ==> chars@[2 * j] == digit_char(#[trigger] out@[j] as int / 16)
                    && chars@[2 * j + 1] == digit_char(out@[j] as int % 16),
        decreases n / 2 - i,
    {
        let hi = value(chars[2 * i]);
        let lo = value(chars[2 * i + 1]);
        match (hi, lo) {
            (Some(h), Some(l)) => {
                proof {
                    lemma_digit_of_value(chars@[2 * i as int]);
                    lemma_digit_of_value(chars@[2 * i + 1]);
                }
                out.push(h * 16 + l);
            },
            _ => {
                assert forall|bytes: Seq<u8>| hex_text(bytes) != chars@ by {
                    if hex_text(bytes) == chars@ {
                        assert((2 * i) / 2 == i && (2 * i) % 2 == 0);
                        assert((2 * i + 1) / 2 == i && (2 * i + 1) % 2 == 1);
                        assert(hex_text(bytes)[2 * i as int] == chars@[2 * i as int]);
                        assert(hex_text(bytes)[2 * i + 1] == chars@[2 * i + 1]);
                        lemma_value_of_digit(bytes[i as int] as int / 16);
                        lemma_value_of_digit(bytes[i as int] as int % 16);
                    }
                }
                return None;
            },
        }
        i += 1;
    }
    proof {
        assert forall|k: int| 0 <= k < n implies hex_text(out@)[k] == chars@[k] by {
            let j = k / 2;
            assert(chars@[2 * j] == digit_char(out@[j] as int / 16));
            if k % 2 == 0 {
                assert(k == 2 * j);
            } else {
                assert(k == 2 * j + 1);
            }
        }
        assert(hex_text(out@) =~= chars@);
    }
    Some(out)
}

} // verus!
