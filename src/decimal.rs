//! Decimal digits of comic numbers: rendering with zero padding and parsing.

use vstd::prelude::*;

verus! {

/// The character of a decimal digit.
pub open spec fn digit_char(d: nat) -> char
    recommends
        d < 10,
{
    (d + '0' as nat) as char
}

/// Whether `c` is an ASCII decimal digit.
pub open spec fn is_digit(c: char) -> bool {
    '0' <= c && c <= '9'
}

/// The value of a decimal digit character.
pub open spec fn digit_value(c: char) -> nat {
    (c as nat - '0' as nat) as nat
}

/// The value of a string of decimal digits, most significant first.
pub open spec fn digits_value(s: Seq<char>) -> nat
    decreases s.len(),
{
    if s.len() == 0 {
        0
    } else {
        digits_value(s.drop_last()) * 10 + digit_value(s.last())
    }
}

/// The shortest decimal rendering of `n`.
pub open spec fn decimal(n: nat) -> Seq<char>
    decreases n,
{
    if n < 10 {
        seq![digit_char(n)]
    } else {
        decimal(n / 10).push(digit_char(n % 10))
    }
}

/// The decimal rendering of `n`, padded with zeros to at least four digits.
pub open spec fn padded4(n: nat) -> Seq<char> {
    let zeros = if n < 10 {
        seq!['0', '0', '0']
    } else if n < 100 {
        seq!['0', '0']
    } else if n < 1000 {
        seq!['0']
    } else {
        Seq::empty()
    };
    zeros + decimal(n)
}

/// The comic number that `s` spells: an optional `+`, then one or more
/// decimal digits whose value is a non-zero 32-bit number.
pub open spec fn number_in(s: Seq<char>) -> Option<u32> {
    let digits = if s.len() > 0 && s[0] == '+' {
        s.drop_first()
    } else {
        s
    };
    match digits_in(digits) {
        Some(n) => if n != 0 {
            Some(n)
        } else {
            None
        },
        None => None,
    }
}

pub proof fn lemma_decimal_digits(n: nat)
    ensures
        decimal(n).len() > 0,
        forall|i: int| 0 <= i < decimal(n).len() ==> is_digit(#[trigger] decimal(n)[i]),
        digits_value(decimal(n)) == n,
        n < 10 ==> decimal(n).len() == 1,
        10 <= n < 100 ==> decimal(n).len() == 2,
        100 <= n < 1000 ==> decimal(n).len() == 3,
    decreases n,
{
    if n < 10 {
        assert(decimal(n).drop_last() =~= Seq::<char>::empty());
        assert(digits_value(Seq::<char>::empty()) == 0);
    } else {
        lemma_decimal_digits(n / 10);
        assert(decimal(n).drop_last() =~= decimal(n / 10));
        if n < 100 {
            assert(n / 10 < 10);
        }
        if n < 1000 {
            assert(n / 10 < 100);
            assert(10 <= n / 10 || n < 100);
        }
    }
}

/// Leading zeros add nothing to the value of a string of digits.
pub proof fn lemma_leading_zeros(z: Seq<char>, s: Seq<char>)
    requires
        forall|i: int| 0 <= i < z.len() ==> #[trigger] z[i] == '0',
    ensures
        digits_value(z + s) == digits_value(s),
    decreases s.len() + z.len(),
{
    if s.len() == 0 {
        assert(z + s =~= z);
        if z.len() > 0 {
            lemma_leading_zeros(z.drop_last(), s);
            assert(z.drop_last() + s =~= z.drop_last());
        }
    } else {
        assert((z + s).drop_last() =~= z + s.drop_last());
        lemma_leading_zeros(z, s.drop_last());
    }
}

pub proof fn lemma_padded4(n: nat)
    requires
        0 < n <= u32::MAX,
    ensures
        forall|i: int| 0 <= i < padded4(n).len() ==> is_digit(#[trigger] padded4(n)[i]),
        number_in(padded4(n)) == Some(n as u32),
{
    lemma_decimal_digits(n);
    let zeros = padded4(n).subrange(0, padded4(n).len() - decimal(n).len());
    assert(padded4(n) =~= zeros + decimal(n));
    lemma_leading_zeros(zeros, decimal(n));
}

/// The number of decimal digits of `n`.
pub fn decimal_len(n: u32) -> (r: usize)
    ensures
        r == decimal(n as nat).len(),
    decreases n,
{
    if n < 10 {
        1
    } else {
        let k = decimal_len(n / 10);
        proof {
            lemma_decimal_digits(n as nat);
            lemma_decimal_len_bound((n / 10) as nat);
        }
        k + 1
    }
}

proof fn lemma_decimal_len_bound(n: nat)
    ensures
        decimal(n).len() <= n + 1,
    decreases n,
{
    if n >= 10 {
        lemma_decimal_len_bound(n / 10);
    }
}

/// Appends the decimal digits of `n`.
pub fn push_decimal(s: &mut String, n: u32)
    ensures
        final(s)@ == old(s)@ + decimal(n as nat),
    decreases n,
{
    if n >= 10 {
        push_decimal(s, n / 10);
    }
    let d = n % 10;
    let text = if d == 0 {
        "0"
    } else if d == 1 {
        "1"
    } else if d == 2 {
        "2"
    } else if d == 3 {
        "3"
    } else if d == 4 {
        "4"
    } else if d == 5 {
        "5"
    } else if d == 6 {
        "6"
    } else if d == 7 {
        "7"
    } else if d == 8 {
        "8"
    } else {
        "9"
    };
    proof {
        reveal_strlit("0");
        reveal_strlit("1");
        reveal_strlit("2");
        reveal_strlit("3");
        reveal_strlit("4");
        reveal_strlit("5");
        reveal_strlit("6");
        reveal_strlit("7");
        reveal_strlit("8");
        reveal_strlit("9");
    }
    assert(text@ =~= seq![digit_char(d as nat)]);
    s.append(text);
    if n >= 10 {
        assert(decimal(n as nat) == decimal((n / 10) as nat).push(digit_char((n % 10) as nat)));
    }
    assert(final(s)@ =~= old(s)@ + decimal(n as nat));
}

/// Appends `n` in decimal, padded with zeros to at least four digits.
pub fn push_padded4(s: &mut String, n: u32)
    ensures
        final(s)@ == old(s)@ + padded4(n as nat),
{
    proof {
        reveal_strlit("000");
        reveal_strlit("00");
        reveal_strlit("0");
    }
    if n < 10 {
        s.append("000");
    } else if n < 100 {
        s.append("00");
    } else if n < 1000 {
        s.append("0");
    }
    push_decimal(s, n);
    assert(final(s)@ =~= old(s)@ + padded4(n as nat));
}

/// The value of one or more decimal digits, if it fits in 32 bits.
pub open spec fn digits_in(s: Seq<char>) -> Option<u32> {
    if s.len() > 0 && (forall|i: int| 0 <= i < s.len() ==> is_digit(#[trigger] s[i]))
        && digits_value(s) <= u32::MAX {
        Some(digits_value(s) as u32)
    } else {
        None
    }
}

/// Reads the comic number spelled by `s[start..end]`.
pub fn parse_number(s: &Vec<char>, start: usize, end: usize) -> (r: Option<u32>)
    requires
        start <= end <= s@.len(),
    ensures
        r == number_in(s@.subrange(start as int, end as int)),
{
    let from = if start < end && s[start] == '+' {
        start + 1
    } else {
        start
    };
    proof {
        if from > start {
            assert(s@.subrange(from as int, end as int) =~= s@.subrange(
                start as int,
                end as int,
            ).drop_first());
        }
    }
    match parse_digits(s, from, end) {
        Some(0) => None,
        other => other,
    }
}

/// Reads the value of the digits `s[start..end]`, if it fits in 32 bits.
pub fn parse_digits(s: &Vec<char>, start: usize, end: usize) -> (r: Option<u32>)
    requires
        start <= end <= s@.len(),
    ensures
        r == digits_in(s@.subrange(start as int, end as int)),
{
    if start == end {
        return None;
    }
    let mut acc: u64 = 0;
    let mut i: usize = start;
    while i < end
        invariant
            start <= i <= end <= s@.len(),
            forall|j: int| start <= j < i ==> is_digit(#[trigger] s@[j]),
            digits_value(s@.subrange(start as int, i as int)) <= u32::MAX ==> acc == digits_value(
                s@.subrange(start as int, i as int),
            ),
            digits_value(s@.subrange(start as int, i as int)) > u32::MAX ==> acc > u32::MAX,
        decreases end - i,
    {
        let c = s[i];
        if !('0' <= c && c <= '9') {
            proof {
                let sub = s@.subrange(start as int, end as int);
                assert(sub[i - start] == c);
            }
            return None;
        }
        let d = (c as u32 - '0' as u32) as u64;
        proof {
            let prev = s@.subrange(start as int, i as int);
            assert(s@.subrange(start as int, i + 1).drop_last() =~= prev);
        }
        if acc <= 0xffff_ffff {
            acc = acc * 10 + d;
        }
        i = i + 1;
    }
    let sub = Ghost(s@.subrange(start as int, end as int));
    assert(forall|j: int| 0 <= j < sub@.len() ==> is_digit(#[trigger] sub@[j])) by {
        assert forall|j: int| 0 <= j < sub@.len() implies is_digit(#[trigger] sub@[j]) by {
            assert(sub@[j] == s@[start + j]);
        }
    }
    if acc > 0xffff_ffff {
        None
    } else {
        Some(acc as u32)
    }
}

} // verus!
