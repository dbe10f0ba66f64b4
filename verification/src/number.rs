//! Decimal numbers in text.

use vstd::prelude::*;

verus! {

/// The decimal digit of a number below ten.
pub open spec fn digit_char(d: int) -> char {
    (0x30 + d) as char
}

/// A number in decimal, without leading zeros.
pub open spec fn decimal(n: nat) -> Seq<char>
    decreases n,
{
    if n < 10 {
        seq![digit_char(n as int)]
    } else {
        decimal(n / 10).push(digit_char((n % 10) as int))
    }
}

pub open spec fn is_digit(c: char) -> bool {
    '0' <= c <= '9'
}

pub open spec fn digit_value(c: char) -> nat {
    (c as u32 - 0x30) as nat
}

pub open spec fn all_digits(s: Seq<char>) -> bool {
    forall|i: int| 0 <= i < s.len() ==> is_digit(#[trigger] s[i])
}

/// The number that a run of decimal digits stands for.
pub open spec fn digits_value(s: Seq<char>) -> nat
    decreases s.len(),
{
    if s.len() == 0 {
        0
    } else {
        10 * digits_value(s.drop_last()) + digit_value(s.last())
    }
}

/// The digits of an unsigned number: all of the text but one leading `+`.
pub open spec fn unsigned_digits(s: Seq<char>) -> Seq<char> {
    if s.len() > 0 && s.first() == '+' {
        s.drop_first()
    } else {
        s
    }
}

/// The port number that a text stands for: an optional `+`, then at least one
/// decimal digit and nothing else, with a value below 65536.
pub open spec fn port_number(s: Seq<char>) -> Option<u16> {
    let digits = unsigned_digits(s);
    if digits.len() > 0 && all_digits(digits) && digits_value(digits) <= u16::MAX {
        Some(digits_value(digits) as u16)
    } else {
        None
    }
}

/// Every decimal is a non-empty run of digits, and its value is the number.
pub proof fn lemma_decimal_reads_back(n: nat)
    ensures
        decimal(n).len() > 0,
        all_digits(decimal(n)),
        digits_value(decimal(n)) == n,
    decreases n,
{
    if n < 10 {
        let s = decimal(n);
        assert(s.drop_last() =~= Seq::<char>::empty());
        assert(digits_value(s.drop_last()) == 0);
    } else {
        lemma_decimal_reads_back(n / 10);
        let s = decimal(n);
        assert(s.drop_last() =~= decimal(n / 10));
        assert forall|i: int| 0 <= i < s.len() implies is_digit(#[trigger] s[i]) by {
            if i < s.len() - 1 {
                assert(s[i] == decimal(n / 10)[i]);
            }
        }
    }
}

/// A port written in decimal is read back as the same port.
pub proof fn law_port_reads_back(port: u16)
    ensures
        port_number(decimal(port as nat)) == Some(port),
{
    lemma_decimal_reads_back(port as nat);
    assert(is_digit(decimal(port as nat)[0]));
}

/// Two numbers with the same decimal are the same number.
pub proof fn law_decimal_is_injective(a: nat, b: nat)
    requires
        decimal(a) == decimal(b),
    ensures
        a == b,
{
    lemma_decimal_reads_back(a);
    lemma_decimal_reads_back(b);
}

/// Appends a number in decimal.
pub fn push_decimal(out: &mut String, n: u64)
    ensures
        final(out)@ == old(out)@ + decimal(n as nat),
    decreases n,
{
    if n >= 10 {
        push_decimal(out, n / 10);
    }
    let d: u8 = (n % 10) as u8;
    out.push((0x30u8 + d) as char);
    proof {
        assert(out@ =~= old(out)@ + decimal(n as nat));
    }
}

/// The port number that a text stands for, if it is one.
pub fn parse_port(s: &[char]) -> (res: Option<u16>)
    ensures
        res == port_number(s@),
{
    let mut i: usize = 0;
    if s.len() > 0 && s[0] == '+' {
        i = 1;
    }
    let ghost start = i as int;
    let ghost digits = unsigned_digits(s@);
    assert(digits =~= s@.skip(start));
    if i == s.len() {
        return None;
    }
    let mut value: u32 = 0;
    let mut fits = true;
    while i < s.len()
        invariant
            start <= i <= s@.len(),
            0 <= start <= 1,
            digits == unsigned_digits(s@),
            digits == s@.skip(start),
            all_digits(digits.take(i - start)),
            fits ==> value == digits_value(digits.take(i - start)) && value <= u16::MAX,
            !fits ==> digits_value(digits.take(i - start)) > u16::MAX,
        decreases s@.len() - i,
    {
        let c = s[i];
        let ghost seen = digits.take(i - start);
        let ghost next = digits.take(i + 1 - start);
        assert(next.drop_last() =~= seen);
        assert(next.last() == c);
        if c < '0' || c > '9' {
            assert(digits[i - start] == c);
            return None;
        }
        assert(all_digits(next)) by {
            assert forall|j: int| 0 <= j < next.len() implies is_digit(#[trigger] next[j]) by {
                if j < next.len() - 1 {
                    assert(next[j] == seen[j]);
                }
            }
        }
        if fits {
            value = value * 10 + (c as u32 - 0x30);
            if value > 0xffff {
                fits = false;
            }
        }
        i = i + 1;
    }
    assert(digits.take(digits.len() as int) =~= digits);
    if fits {
        Some(value as u16)
    } else {
        None
    }
}

/// The first ten decimals are the digits, and a longer decimal is that of the
/// number without its last digit, followed by that digit.
pub proof fn law_decimal_is_positional(n: nat, d: nat)
    requires
        n > 0,
        d < 10,
    ensures
        decimal(0) == seq!['0'],
        decimal(1) == seq!['1'],
        decimal(2) == seq!['2'],
        decimal(3) == seq!['3'],
        decimal(4) == seq!['4'],
        decimal(5) == seq!['5'],
        decimal(6) == seq!['6'],
        decimal(7) == seq!['7'],
        decimal(8) == seq!['8'],
        decimal(9) == seq!['9'],
        decimal(10 * n + d) == decimal(n) + decimal(d),
{
    let m = 10 * n + d;
    assert(m / 10 == n && m % 10 == d);
    assert(decimal(m) =~= decimal(n) + decimal(d));
}

/// A run of zeros.
spec fn zeros(n: nat) -> Seq<char> {
    Seq::new(n, |i: int| '0')
}

proof fn lemma_leading_zeros(n: nat, s: Seq<char>)
    requires
        all_digits(s),
    ensures
        all_digits(zeros(n) + s),
        digits_value(zeros(n) + s) == digits_value(s),
    decreases s.len(), n,
{
    let t = zeros(n) + s;
    assert forall|i: int| 0 <= i < t.len() implies is_digit(#[trigger] t[i]) by {
        if i >= n {
            assert(t[i] == s[i - n]);
        }
    }
    if s.len() > 0 {
        let rest = s.drop_last();
        assert forall|i: int| 0 <= i < rest.len() implies is_digit(#[trigger] rest[i]) by {
            assert(rest[i] == s[i]);
        }
        assert(t.drop_last() =~= zeros(n) + rest);
        lemma_leading_zeros(n, rest);
    } else if n > 0 {
        assert(t.drop_last() =~= zeros((n - 1) as nat) + s);
        assert(t.last() == '0');
        lemma_leading_zeros((n - 1) as nat, s);
    } else {
        assert(t =~= s);
    }
}

proof fn lemma_digits_are_padded_decimal(s: Seq<char>) -> (n: nat)
    requires
        s.len() > 0,
        all_digits(s),
    ensures
        s == zeros(n) + decimal(digits_value(s)),
    decreases s.len(),
{
    let rest = s.drop_last();
    let c = s.last();
    assert(is_digit(s[s.len() - 1]));
    let d = digit_value(c);
    assert(digit_char(d as int) == c);
    if rest.len() == 0 {
        assert(digits_value(rest) == 0);
        assert(s =~= zeros(0) + decimal(d));
        0
    } else {
        assert forall|i: int| 0 <= i < rest.len() implies is_digit(#[trigger] rest[i]) by {
            assert(rest[i] == s[i]);
        }
        let k = lemma_digits_are_padded_decimal(rest);
        let v = digits_value(rest);
        if v == 0 {
            assert(rest =~= zeros(k + 1));
            assert(s =~= zeros(k + 1) + decimal(d));
            k + 1
        } else {
            law_decimal_is_positional(v, d);
            assert(decimal(d) =~= seq![c]);
            assert(s =~= rest + seq![c]);
            assert(rest + seq![c] =~= zeros(k) + (decimal(v) + decimal(d)));
            assert(s =~= zeros(k) + decimal(10 * v + d));
            k
        }
    }
}

/// A text is a port number exactly where it is the decimal of the port, with
/// any number of zeros before it and, before those, perhaps a plus sign.
pub proof fn law_port_numbers_are_padded_decimals(s: Seq<char>, port: u16)
    ensures
        port_number(s) == Some(port) <==> exists|pad: Seq<char>|
            {
                &&& forall|i: int| 0 <= i < pad.len() ==> #[trigger] pad[i] == '0'
                &&& s == #[trigger] (pad + decimal(port as nat)) || s == seq!['+'] + (pad + decimal(
                    port as nat,
                ))
            },
{
    let digits = unsigned_digits(s);
    let written = decimal(port as nat);
    if port_number(s) == Some(port) {
        let n = lemma_digits_are_padded_decimal(digits);
        let pad = zeros(n);
        assert(pad + written == digits);
        if s.first() == '+' {
            assert(s =~= seq!['+'] + digits);
        }
    }
    if exists|pad: Seq<char>|
        {
            &&& forall|i: int| 0 <= i < pad.len() ==> #[trigger] pad[i] == '0'
            &&& s == #[trigger] (pad + written) || s == seq!['+'] + (pad + written)
        } {
        let pad = choose|pad: Seq<char>|
            {
                &&& forall|i: int| 0 <= i < pad.len() ==> #[trigger] pad[i] == '0'
                &&& s == #[trigger] (pad + written) || s == seq!['+'] + (pad + written)
            };
        let padded = pad + written;
        assert(pad =~= zeros(pad.len()));
        lemma_decimal_reads_back(port as nat);
        lemma_leading_zeros(pad.len(), written);
        assert(is_digit(padded[0]));
        if s == padded {
            assert(s.first() == padded[0]);
        } else {
            assert(s.drop_first() =~= padded);
        }
        assert(digits == padded);
    }
}

/// The library reads as a port what is the decimal of one, with zeros and a
/// plus sign before it or without, and nothing else.
pub proof fn law_ports_are_read_as_written(s: &[char], port: u16, res: Option<u16>)
    requires
        call_ensures(parse_port, (s,), res),
    ensures
        res == Some(port) <==> exists|pad: Seq<char>|
            {
                &&& forall|i: int| 0 <= i < pad.len() ==> #[trigger] pad[i] == '0'
                &&& s@ == #[trigger] (pad + decimal(port as nat)) || s@ == seq!['+'] + (pad
                    + decimal(port as nat))
            },
{
    law_port_numbers_are_padded_decimals(s@, port);
}

} // verus!
