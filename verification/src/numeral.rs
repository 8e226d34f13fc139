use vstd::prelude::*;
use crate::text::push_char;

verus! {

/// An ASCII decimal digit.
pub open spec fn is_digit(c: char) -> bool {
    '0' <= c && c <= '9'
}

/// The value of a decimal digit.
pub open spec fn digit_value(c: char) -> nat {
    (c as int - '0' as int) as nat
}

/// The character of a decimal digit `d < 10`.
pub open spec fn digit_char(d: nat) -> char {
    (d + '0' as int) as char
}

/// Every character of `s` is a decimal digit.
pub open spec fn all_digits(s: Seq<char>) -> bool {
    forall|i: int| 0 <= i < s.len() ==> is_digit(#[trigger] s[i])
}

/// The number that the digits of `s` denote, most significant first.
pub open spec fn digits_value(s: Seq<char>) -> nat
    decreases s.len(),
{
    if s.len() == 0 {
        0
    } else {
        digits_value(s.drop_last()) * 10 + digit_value(s.last())
    }
}

/// A non-empty run of decimal digits.
pub open spec fn is_digit_run(s: Seq<char>) -> bool {
    s.len() > 0 && all_digits(s)
}

/// The number that `s` denotes when it is a run of digits no larger than
/// `bound`.
pub open spec fn bounded_value(s: Seq<char>, bound: nat) -> Option<nat> {
    if is_digit_run(s) && digits_value(s) <= bound {
        Some(digits_value(s))
    } else {
        None
    }
}

/// `s` without a leading `c`, if it has one.
pub open spec fn strip_sign(s: Seq<char>, c: char) -> Seq<char> {
    if s.len() > 0 && s[0] == c {
        s.drop_first()
    } else {
        s
    }
}

/// What `u16::from_str` gives: an optional `+`, then at least one digit, with a
/// value in range.
pub open spec fn u16_of_text(s: Seq<char>) -> Option<u16> {
    match bounded_value(strip_sign(s, '+'), 65535) {
        Some(v) => Some(v as u16),
        None => None,
    }
}

/// What `i32::from_str` gives: an optional `+` or `-`, then at least one
/// digit, with a value in range.
pub open spec fn i32_of_text(s: Seq<char>) -> Option<i32> {
    if s.len() > 0 && s[0] == '-' {
        match bounded_value(s.drop_first(), 2147483648) {
            Some(v) => Some((-v) as i32),
            None => None,
        }
    } else {
        match bounded_value(strip_sign(s, '+'), 2147483647) {
            Some(v) => Some(v as i32),
            None => None,
        }
    }
}

/// The decimal text of a natural number, without leading zeros.
pub open spec fn nat_text(n: nat) -> Seq<char>
    decreases n,
{
    if n < 10 {
        seq![digit_char(n)]
    } else {
        nat_text(n / 10).push(digit_char(n % 10))
    }
}

/// The decimal text of an integer, with a leading `-` when it is negative, as
/// the `Display` of std's integers writes it.
pub open spec fn int_text(n: int) -> Seq<char> {
    if n < 0 {
        seq!['-'] + nat_text((-n) as nat)
    } else {
        nat_text(n as nat)
    }
}

proof fn lemma_digits_value_prefix(s: Seq<char>, j: int)
    requires
        0 <= j <= s.len(),
    ensures
        digits_value(s.take(j)) <= digits_value(s),
    decreases s.len() - j,
{
    if j < s.len() {
        lemma_digits_value_prefix(s, j + 1);
        assert(s.take(j + 1).drop_last() =~= s.take(j));
    } else {
        assert(s.take(j) =~= s);
    }
}

/// The value of the digits `v[start..]`, when they are a run of digits
/// no larger than `bound`.
fn digit_run_value(v: &Vec<char>, start: usize, bound: u32) -> (res: Option<u32>)
    requires
        start <= v.len(),
        bound <= 2147483648,
    ensures
        res == (match bounded_value(v@.skip(start as int), bound as nat) {
            Some(x) => Some(x as u32),
            None => None::<u32>,
        }),
{
    let ghost body = v@.skip(start as int);
    if start == v.len() {
        return None;
    }
    let mut acc: u32 = 0;
    let mut i: usize = start;
    while i < v.len()
        invariant
            start <= i <= v.len(),
            body == v@.skip(start as int),
            acc <= bound <= 2147483648,
            all_digits(body.take(i - start)),
            acc as nat == digits_value(body.take(i - start)),
        decreases v.len() - i,
    {
        let c = v[i];
        proof {
            assert(body.take(i - start + 1).drop_last() =~= body.take(i - start));
            assert(body[i - start] == c);
        }
        if c < '0' || c > '9' {
            assert(!all_digits(body));
            return None;
        }
        let d = (c as u32) - ('0' as u32);
        let next: u64 = (acc as u64) * 10 + (d as u64);
        if next > bound as u64 {
            proof {
                lemma_digits_value_prefix(body, i - start + 1);
            }
            return None;
        }
        acc = next as u32;
        i = i + 1;
        proof {
            assert(all_digits(body.take(i - start))) by {
                assert forall|k: int| 0 <= k < body.take(i - start).len() implies is_digit(
                    #[trigger] body.take(i - start)[k],
                ) by {
                    if k < i - 1 - start {
                        assert(body.take(i - start)[k] == body.take(i - 1 - start)[k]);
                    }
                }
            }
        }
    }
    assert(body.take(v.len() - start) =~= body);
    Some(acc)
}

/// Reads a `u16` as `u16::from_str` of std does: `None` exactly where it
/// returns an error.
pub fn parse_u16(v: &Vec<char>) -> (res: Option<u16>)
    ensures
        res == u16_of_text(v@),
{
    let start: usize = if v.len() > 0 && v[0] == '+' { 1 } else { 0 };
    proof {
        assert(v@.skip(start as int) =~= strip_sign(v@, '+'));
    }
    match digit_run_value(v, start, 65535) {
        Some(x) => Some(x as u16),
        None => None,
    }
}

/// Reads an `i32` as `i32::from_str` of std does: `None` exactly where it
/// returns an error.
pub fn parse_i32(v: &Vec<char>) -> (res: Option<i32>)
    ensures
        res == i32_of_text(v@),
{
    if v.len() > 0 && v[0] == '-' {
        proof {
            assert(v@.skip(1) =~= v@.drop_first());
        }
        match digit_run_value(v, 1, 2147483648) {
            Some(x) => {
                if x == 2147483648 {
                    Some(i32::MIN)
                } else {
                    Some(-(x as i32))
                }
            },
            None => None,
        }
    } else {
        let start: usize = if v.len() > 0 && v[0] == '+' { 1 } else { 0 };
        proof {
            assert(v@.skip(start as int) =~= strip_sign(v@, '+'));
        }
        match digit_run_value(v, start, 2147483647) {
            Some(x) => Some(x as i32),
            None => None,
        }
    }
}


/// Appends the decimal text of `n` to `s`.
fn push_nat_text(s: &mut String, n: u32)
    ensures
        final(s)@ == old(s)@ + nat_text(n as nat),
    decreases n,
{
    let ghost start = s@;
    if n >= 10 {
        push_nat_text(s, n / 10);
    }
    let d: u32 = n % 10;
    let c: char = ((d as u8) + 48u8) as char;
    push_char(s, c);
    assert(s@ =~= start + nat_text(n as nat));
}

/// The decimal text of a `u16`, as its `to_string` writes it.
pub fn u16_text(n: u16) -> (s: String)
    ensures
        s@ == nat_text(n as nat),
{
    let mut s = String::new();
    push_nat_text(&mut s, n as u32);
    assert(s@ =~= nat_text(n as nat));
    s
}

/// The decimal text of an `i32`, as its `to_string` writes it.
pub fn i32_text(n: i32) -> (s: String)
    ensures
        s@ == int_text(n as int),
{
    let mut s = String::new();
    if n < 0 {
        push_char(&mut s, '-');
        let m: u32 = if n == i32::MIN { 2147483648u32 } else { (-n) as u32 };
        push_nat_text(&mut s, m);
    } else {
        push_nat_text(&mut s, n as u32);
    }
    assert(s@ =~= int_text(n as int));
    s
}

/// The decimal text of a number is a run of digits that denotes it.
pub proof fn lemma_nat_text_denotes(n: nat)
    ensures
        is_digit_run(nat_text(n)),
        digits_value(nat_text(n)) == n,
    decreases n,
{
    assert(digit_value(digit_char(n % 10)) == n % 10);
    if n >= 10 {
        lemma_nat_text_denotes(n / 10);
        let t = nat_text(n);
        assert(t.drop_last() =~= nat_text(n / 10));
        assert(t.last() == digit_char(n % 10));
        assert(n == (n / 10) * 10 + n % 10);
        assert(digits_value(t) == digits_value(t.drop_last()) * 10 + digit_value(t.last()));
        assert forall|i: int| 0 <= i < t.len() implies is_digit(#[trigger] t[i]) by {
            if i < t.len() - 1 {
                assert(t[i] == nat_text(n / 10)[i]);
            }
        }
    } else {
        let t = nat_text(n);
        assert(t.drop_last() =~= Seq::<char>::empty());
        assert(digits_value(t) == digits_value(t.drop_last()) * 10 + digit_value(t.last()));
    }
}

/// The decimal text of an integer is the run of digits that denotes its
/// magnitude, after a `-` exactly when it is negative.
pub proof fn law_int_text_denotes(n: int)
    ensures
        n >= 0 ==> is_digit_run(int_text(n)) && digits_value(int_text(n)) == n && int_text(n) == nat_text(
            n as nat,
        ),
        n < 0 ==> int_text(n).len() > 1 && int_text(n)[0] == '-' && is_digit_run(int_text(n).drop_first())
            && digits_value(int_text(n).drop_first()) == -n,
{
    if n >= 0 {
        lemma_nat_text_denotes(n as nat);
    } else {
        lemma_nat_text_denotes((-n) as nat);
        assert(int_text(n).drop_first() =~= nat_text((-n) as nat));
    }
}

/// A run of digits, alone or after a sign, reads as the number it denotes
/// (negated after `-`) when that number is in range, and is refused when it is
/// not.
pub proof fn law_digit_run_reads(s: Seq<char>)
    requires
        is_digit_run(s),
    ensures
        digits_value(s) <= 65535 ==> u16_of_text(s) == Some(digits_value(s) as u16),
        digits_value(s) > 65535 ==> u16_of_text(s) is None,
        digits_value(s) <= 65535 ==> u16_of_text(seq!['+'] + s) == Some(digits_value(s) as u16),
        digits_value(s) <= 2147483647 ==> i32_of_text(s) == Some(digits_value(s) as i32),
        digits_value(s) > 2147483647 ==> i32_of_text(s) is None,
        digits_value(s) <= 2147483647 ==> i32_of_text(seq!['+'] + s) == Some(digits_value(s) as i32),
        digits_value(s) <= 2147483648 ==> i32_of_text(seq!['-'] + s) == Some((-digits_value(s)) as i32),
        digits_value(s) > 2147483648 ==> i32_of_text(seq!['-'] + s) is None,
{
    assert(is_digit(s[0]));
    assert((seq!['+'] + s).drop_first() =~= s);
    assert((seq!['-'] + s).drop_first() =~= s);
}

/// Reading back the decimal text of any `u16` gives that number.
pub proof fn law_u16_text_round_trip(n: u16)
    ensures
        u16_of_text(nat_text(n as nat)) == Some(n),
{
    lemma_nat_text_denotes(n as nat);
    assert(nat_text(n as nat)[0] != '+');
    assert(strip_sign(nat_text(n as nat), '+') == nat_text(n as nat));
}

/// Reading back the decimal text of any `i32` gives that number.
pub proof fn law_i32_text_round_trip(n: i32)
    ensures
        i32_of_text(int_text(n as int)) == Some(n),
{
    if n < 0 {
        let m = (-n) as nat;
        lemma_nat_text_denotes(m);
        assert(int_text(n as int).drop_first() =~= nat_text(m));
    } else {
        lemma_nat_text_denotes(n as nat);
        assert(nat_text(n as nat)[0] != '+');
        assert(nat_text(n as nat)[0] != '-');
    }
}

} // verus!
