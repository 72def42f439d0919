//! Decimal text of unsigned integers.

use vstd::prelude::*;

use crate::hex::{
    digit, digit_char, digit_value, lemma_digit_of_value, lemma_value_of_digit, value,
};

verus! {

/// The decimal text of `n`: its digits, the highest first, with no sign
/// and no leading zero.
pub open spec fn decimal_text(n: nat) -> Seq<char>
    decreases n,
{
    if n < 10 {
        seq![digit_char(n as int)]
    } else {
        decimal_text(n / 10).push(digit_char((n % 10) as int))
    }
}

/// Whether `c` is one of the ten decimal digits.
spec fn is_decimal_digit(c: char) -> bool {
    digit_value(c) matches Some(d) && d < 10
}

/// The number that the decimal digit `c` stands for.
spec fn digit_number(c: char) -> nat {
    match digit_value(c) {
        Some(d) => d as nat,
        None => 0,
    }
}

/// The number that a string of decimal digits stands for.
spec fn decimal_value(s: Seq<char>) -> nat
    decreases s.len(),
{
    if s.len() == 0 {
        0
    } else {
        decimal_value(s.drop_last()) * 10 + digit_number(s.last())
    }
}

/// What the decimal text of a number looks like, and that it stands for
/// the number.
proof fn lemma_decimal_text(n: nat)
    ensures
        decimal_text(n).len() >= 1,
        forall|i: int| 0 <= i < decimal_text(n).len() ==> is_decimal_digit(decimal_text(n)[i]),
        decimal_value(decimal_text(n)) == n,
        n >= 1 ==> decimal_text(n)[0] != '0',
        n < 10 <==> decimal_text(n).len() == 1,
    decreases n,
{
    let t = decimal_text(n);
    if n < 10 {
        lemma_value_of_digit(n as int);
        assert(t.drop_last() =~= Seq::<char>::empty());
        assert(decimal_value(t.drop_last()) == 0);
    } else {
        let head = decimal_text(n / 10);
        lemma_decimal_text(n / 10);
        lemma_value_of_digit((n % 10) as int);
        assert(t.drop_last() =~= head);
        assert(t.last() == digit_char((n % 10) as int));
        assert(t[0] == head[0]);
        assert forall|i: int| 0 <= i < t.len() implies is_decimal_digit(t[i]) by {
            if i < head.len() {
                assert(t[i] == head[i]);
            }
        }
    }
}

/// A string of digits that starts with a digit other than zero stands for
/// a number that is not zero.
proof fn lemma_value_positive(s: Seq<char>)
    requires
        s.len() >= 1,
        forall|i: int| 0 <= i < s.len() ==> is_decimal_digit(s[i]),
        s[0] != '0',
    ensures
        decimal_value(s) >= 1,
    decreases s.len(),
{
    if s.len() == 1 {
        assert(s.drop_last() =~= Seq::<char>::empty());
        assert(decimal_value(s.drop_last()) == 0);
        assert(is_decimal_digit(s[0]));
    } else {
        lemma_value_positive(s.drop_last());
    }
}

/// A string of digits without a leading zero is the decimal text of the
/// number that it stands for.
proof fn lemma_text_of_value(s: Seq<char>)
    requires
        s.len() >= 1,
        forall|i: int| 0 <= i < s.len() ==> is_decimal_digit(s[i]),
        s.len() > 1 ==> s[0] != '0',
    ensures
        decimal_text(decimal_value(s)) == s,
    decreases s.len(),
{
    let d = digit_number(s.last());
    assert(is_decimal_digit(s.last()));
    lemma_digit_of_value(s.last());
    if s.len() == 1 {
        assert(s.drop_last() =~= Seq::<char>::empty());
        assert(decimal_value(s.drop_last()) == 0);
        assert(decimal_text(d) =~= s);
    } else {
        let head = s.drop_last();
        let v = decimal_value(head);
        assert(head[0] == s[0]);
        lemma_value_positive(head);
        lemma_text_of_value(head);
        assert((v * 10 + d) / 10 == v && (v * 10 + d) % 10 == d);
        assert(decimal_text(v * 10 + d) =~= s);
    }
}

/// The number that a prefix of a string of digits stands for is no more
/// than the number that the whole string stands for.
proof fn lemma_value_of_prefix(s: Seq<char>, i: int)
    requires
        0 <= i <= s.len(),
    ensures
        decimal_value(s.take(i)) <= decimal_value(s),
    decreases s.len(),
{
    if i == s.len() {
        assert(s.take(i) =~= s);
    } else {
        lemma_value_of_prefix(s.drop_last(), i);
        assert(s.drop_last().take(i) =~= s.take(i));
    }
}

/// Two numbers with the same decimal text are the same.
pub proof fn lemma_decimal_injective(n: nat, m: nat)
    requires
        decimal_text(n) == decimal_text(m),
    ensures
        n == m,
{
    lemma_decimal_text(n);
    lemma_decimal_text(m);
}

/// The decimal text of a number is not empty.
pub proof fn lemma_decimal_not_empty(n: nat)
    ensures
        decimal_text(n).len() >= 1,
{
    lemma_decimal_text(n);
}

/// Appends the decimal text of `n` to `out`.
pub fn push_decimal(out: &mut Vec<char>, n: u32)
    ensures
        final(out)@ == old(out)@ + decimal_text(n as nat),
    decreases n,
{
    if n >= 10 {
        push_decimal(out, n / 10);
    }
    let d: u8 = (n % 10) as u8;
    out.push(digit(d));
    proof {
        if n >= 10 {
            assert(final(out)@ =~= old(out)@ + decimal_text(n as nat));
        } else {
            assert(final(out)@ =~= old(out)@ + decimal_text(n as nat));
        }
    }
}

/// The number whose decimal text is `chars`, if there is one that fits.
pub fn parse_decimal(chars: &[char]) -> (r: Option<u32>)
    ensures
        match r {
            Some(n) => decimal_text(n as nat) == chars@,
            None => forall|n: u32| decimal_text(n as nat) != chars@,
        },
{
    let len = chars.len();
    if len == 0 {
        proof {
            assert forall|n: u32| decimal_text(n as nat) != chars@ by {
                lemma_decimal_text(n as nat);
            }
        }
        return None;
    }
    if len > 1 && chars[0] == '0' {
        proof {
            assert forall|n: u32| decimal_text(n as nat) != chars@ by {
                lemma_decimal_text(n as nat);
            }
        }
        return None;
    }
    let mut acc: u64 = 0;
    let mut i: usize = 0;
    while i < len
        invariant
            len == chars.len(),
            i <= len,
            acc <= u32::MAX,
            acc == decimal_value(chars@.take(i as int)),
            forall|j: int| 0 <= j < i ==> is_decimal_digit(chars@[j]),
        decreases len - i,
    {
        let d: u8 = match value(chars[i]) {
            Some(d) => d,
            None => 10,
        };
        if d >= 10 {
            proof {
                assert(!is_decimal_digit(chars@[i as int]));
                assert forall|n: u32| decimal_text(n as nat) != chars@ by {
                    lemma_decimal_text(n as nat);
                }
            }
            return None;
        }
        proof {
            assert(chars@.take(i + 1).drop_last() =~= chars@.take(i as int));
            assert(chars@.take(i + 1).last() == chars@[i as int]);
        }
        acc = acc * 10 + d as u64;
        if acc > 0xffff_ffff {
            proof {
                assert forall|n: u32| decimal_text(n as nat) != chars@ by {
                    lemma_decimal_text(n as nat);
                    lemma_value_of_prefix(chars@, i + 1);
                }
            }
            return None;
        }
        i += 1;
    }
    proof {
        assert(chars@.take(len as int) =~= chars@);
        lemma_text_of_value(chars@);
    }
    Some(acc as u32)
}

} // verus!
