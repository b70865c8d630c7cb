//! Decimal numbers in text, both ways.

use vstd::prelude::*;
use vstd::string::StringExecFns;

verus! {

/// The characters of `s`, one by one.
pub fn chars_of(s: &str) -> (v: Vec<char>)
    ensures
        v@ == s@,
{
    let mut v: Vec<char> = Vec::new();
    for c in it: s.chars()
        invariant
            v@ == it.seq().take(it.index() as int),
            it.seq() == s@,
    {
        v.push(c);
    }
    v
}

/// The character that writes the digit `d`.
pub open spec fn digit_char(d: nat) -> char {
    (48 + d) as char
}

/// `n` in decimal, without leading zeros.
pub open spec fn decimal(n: nat) -> Seq<char>
    decreases n,
{
    if n < 10 {
        seq![digit_char(n)]
    } else {
        decimal(n / 10).push(digit_char(n % 10))
    }
}

/// Whether `c` is one of the ten ASCII digits.
pub open spec fn is_digit(c: char) -> bool {
    '0' <= c <= '9'
}

/// The number that a sequence of digits writes; 0 for none.
pub open spec fn digits_value(s: Seq<char>) -> nat
    decreases s.len(),
{
    if s.len() == 0 {
        0
    } else {
        digits_value(s.drop_last()) * 10 + (s.last() as nat - 48) as nat
    }
}

/// The digits of a number: all but a leading `+`.
pub open spec fn unsigned_digits(s: Seq<char>) -> Seq<char> {
    if s.len() > 0 && s[0] == '+' {
        s.skip(1)
    } else {
        s
    }
}

/// What `s` says as a number of at most `max`: an optional `+`, then one digit or
/// more, and nothing else.
pub open spec fn parse_unsigned(s: Seq<char>, max: nat) -> Option<nat> {
    let d = unsigned_digits(s);
    if d.len() > 0 && (forall|i: int| 0 <= i < d.len() ==> is_digit(#[trigger] d[i]))
        && digits_value(d) <= max {
        Some(digits_value(d))
    } else {
        None
    }
}

proof fn lemma_value_grows(s: Seq<char>, i: int)
    requires
        0 <= i <= s.len(),
    ensures
        digits_value(s.take(i)) <= digits_value(s),
    decreases s.len() - i,
{
    if i < s.len() {
        lemma_value_grows(s, i + 1);
        assert(s.take(i + 1).drop_last() == s.take(i));
    } else {
        assert(s.take(i) == s);
    }
}

/// Reads an unsigned number, as `str::parse` does.
pub fn parse_u64(s: &str) -> (r: Option<u64>)
    ensures
        match r {
            Some(n) => parse_unsigned(s@, u64::MAX as nat) == Some(n as nat),
            None => parse_unsigned(s@, u64::MAX as nat) is None,
        },
{
    let chars = chars_of(s);
    let ghost d = unsigned_digits(s@);
    let len: usize = chars.len();
    let first: usize = if len > 0 && chars[0] == '+' {
        1
    } else {
        0
    };
    assert(d == s@.skip(first as int));
    if first == len {
        return None;
    }
    let mut n: u64 = 0;
    let mut i: usize = first;
    while i < len
        invariant
            chars@ == s@,
            len == s@.len(),
            first <= i <= len,
            first < len,
            d == unsigned_digits(s@),
            d == s@.skip(first as int),
            n == digits_value(d.take(i - first)),
            forall|j: int| 0 <= j < i - first ==> is_digit(#[trigger] d[j]),
        decreases len - i,
    {
        let c = chars[i];
        assert(d[i - first] == c);
        assert(d.take(i - first + 1).drop_last() == d.take(i - first));
        if !('0' <= c && c <= '9') {
            return None;
        }
        let digit: u64 = c as u64 - 48;
        proof {
            lemma_value_grows(d, i - first + 1);
        }
        let next: Option<u64> = match n.checked_mul(10) {
            Some(m) => m.checked_add(digit),
            None => None,
        };
        match next {
            Some(m) => {
                n = m;
            },
            None => {
                return None;
            },
        }
        i += 1;
    }
    assert(d.take(len - first) == d);
    Some(n)
}

/// Reads an unsigned number of the machine's word size, as `str::parse` does.
pub fn parse_usize(s: &str) -> (r: Option<usize>)
    ensures
        match r {
            Some(n) => parse_unsigned(s@, usize::MAX as nat) == Some(n as nat),
            None => parse_unsigned(s@, usize::MAX as nat) is None,
        },
{
    match parse_u64(s) {
        Some(n) if n <= usize::MAX as u64 => Some(n as usize),
        _ => None,
    }
}

/// The digit `d` as text.
fn digit_str(d: u64) -> (s: &'static str)
    requires
        d < 10,
    ensures
        s@ == seq![digit_char(d as nat)],
{
    proof {
        reveal_strlit("0");
        reveal_strlit("1");
        reveal_strlit("2");
        reveal_strlit("3");
        reveal_strlit("4");
        reveal_strlit("5");
        reveal_strlit("6");
        reveal_strlit("7");
        reveal_strlit("8");
        reveal_strlit("9");
    }
    match d {
        0 => "0",
        1 => "1",
        2 => "2",
        3 => "3",
        4 => "4",
        5 => "5",
        6 => "6",
        7 => "7",
        8 => "8",
        _ => "9",
    }
}

/// Appends `n` in decimal.
pub fn push_decimal(out: &mut String, n: u64)
    ensures
        final(out)@ == old(out)@ + decimal(n as nat),
    decreases n,
{
    if n >= 10 {
        push_decimal(out, n / 10);
    }
    out.append(digit_str(n % 10));
    assert(out@ == old(out)@ + decimal(n as nat));
}

proof fn lemma_decimal_digits(n: nat)
    ensures
        decimal(n).len() > 0,
        forall|i: int| 0 <= i < decimal(n).len() ==> is_digit(#[trigger] decimal(n)[i]),
        digits_value(decimal(n)) == n,
    decreases n,
{
    if n < 10 {
        assert(decimal(n).drop_last() == Seq::<char>::empty());
        assert(digits_value(Seq::<char>::empty()) == 0);
    } else {
        lemma_decimal_digits(n / 10);
        assert(decimal(n).drop_last() == decimal(n / 10));
        assert forall|i: int| 0 <= i < decimal(n).len() implies is_digit(
            #[trigger] decimal(n)[i],
        ) by {
            if i < decimal(n).len() - 1 {
                assert(decimal(n)[i] == decimal(n / 10)[i]);
            }
        }
    }
}

/// Reading a number that was written in decimal gives the number back.
pub proof fn law_decimal_round_trip(n: nat, max: nat)
    requires
        n <= max,
    ensures
        parse_unsigned(decimal(n), max) == Some(n),
{
    lemma_decimal_digits(n);
    assert(is_digit(decimal(n)[0]));
    assert(unsigned_digits(decimal(n)) == decimal(n));
}

/// A number is read digit by digit: a further digit makes it ten times as large and adds the
/// digit. A number above the bound is none, and neither is a text with anything else in it.
pub proof fn law_digit_by_digit(s: Seq<char>, c: char, max: nat)
    requires
        s.len() > 0,
        s != seq!['+'],
    ensures
        ({
            let before = parse_unsigned(s, max);
            let value = (before->0 * 10 + (c as int - 48)) as nat;
            &&& before is Some && '0' <= c <= '9' && value <= max ==> parse_unsigned(
                s.push(c),
                max,
            ) == Some(value)
            &&& before is Some && '0' <= c <= '9' && value > max ==> parse_unsigned(
                s.push(c),
                max,
            ) is None
            &&& !('0' <= c <= '9') ==> parse_unsigned(s.push(c), max) is None
            &&& before is None ==> parse_unsigned(s.push(c), max) is None
        }),
{
    let t = s.push(c);
    let d = unsigned_digits(s);
    let e = unsigned_digits(t);
    assert(t[0] == s[0]);
    assert(e =~= d.push(c));
    assert(d.len() > 0) by {
        if d.len() == 0 {
            assert(s =~= seq!['+']);
        }
    }
    assert(e.drop_last() =~= d);
    assert(e.last() == c);
    assert forall|i: int| 0 <= i < d.len() implies #[trigger] d[i] == e[i] by {}
    assert(is_digit(e[d.len() as int]) == ('0' <= c <= '9'));
}

/// A single digit is its own number, a plus sign in front changes nothing, and a text without
/// digits is no number.
pub proof fn law_smallest_numbers(c: char, s: Seq<char>, max: nat)
    requires
        max >= 9,
    ensures
        '0' <= c <= '9' ==> parse_unsigned(seq![c], max) == Some((c as int - 48) as nat),
        c != '+' && !('0' <= c <= '9') ==> parse_unsigned(seq![c], max) is None,
        s.len() > 0 && s[0] != '+' ==> parse_unsigned(seq!['+'] + s, max) == parse_unsigned(s, max),
        parse_unsigned(Seq::empty(), max) is None,
        parse_unsigned(seq!['+'], max) is None,
{
    let one = seq![c];
    assert(one.drop_last() =~= Seq::<char>::empty());
    assert(digits_value(Seq::<char>::empty()) == 0);
    if c != '+' {
        assert(unsigned_digits(one) =~= one);
        assert(is_digit(one[0]) == ('0' <= c <= '9'));
    }
    assert((seq!['+'] + s).skip(1) =~= s);
    assert(seq!['+'].skip(1) =~= Seq::<char>::empty());
}

/// Numbers in decimal are made of digits, without a leading zero but for zero itself, and
/// different numbers look different.
pub proof fn law_decimal_is_canonical(n: nat, m: nat)
    ensures
        decimal(n).len() > 0,
        forall|i: int| 0 <= i < decimal(n).len() ==> '0' <= #[trigger] decimal(n)[i] <= '9',
        n > 0 ==> decimal(n)[0] != '0',
        n == 0 ==> decimal(n) == seq!['0'],
        decimal(n) == decimal(m) ==> n == m,
    decreases n,
{
    lemma_decimal_digits(n);
    lemma_decimal_digits(m);
    assert forall|i: int| 0 <= i < decimal(n).len() implies '0' <= #[trigger] decimal(n)[i]
        <= '9' by {
        assert(is_digit(decimal(n)[i]));
    }
    if n >= 10 {
        law_decimal_is_canonical(n / 10, n / 10);
    }
}

} // verus!
