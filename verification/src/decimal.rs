//! Decimal text of unsigned integers, both ways.

use vstd::prelude::*;
use vstd::string::*;
use vstd::arithmetic::power::pow;

verus! {

/// The character of one decimal digit.
pub open spec fn digit_char(d: nat) -> char {
    (d + 48) as char
}

/// A character among `'0'..='9'`.
pub open spec fn is_digit(c: char) -> bool {
    '0' <= c && c <= '9'
}

/// The value of a digit character.
pub open spec fn digit_value(c: char) -> nat {
    (c as nat - 48) as nat
}

/// The shortest decimal text of `n` (no sign, no leading zeros).
pub open spec fn decimal(n: nat) -> Seq<char>
    decreases n,
{
    if n < 10 {
        seq![digit_char(n)]
    } else {
        decimal(n / 10).push(digit_char(n % 10))
    }
}

/// The number that a run of digit characters denotes.
pub open spec fn digits_value(s: Seq<char>) -> nat
    decreases s.len(),
{
    if s.len() == 0 {
        0
    } else {
        digits_value(s.drop_last()) * 10 + digit_value(s.last())
    }
}

/// Every character of `s` is a digit.
pub open spec fn all_digits(s: Seq<char>) -> bool {
    forall|i: int| 0 <= i < s.len() ==> is_digit(#[trigger] s[i])
}

/// The text after an optional leading `'+'`.
pub open spec fn unsigned_body(s: Seq<char>) -> Seq<char> {
    if s.len() > 0 && s[0] == '+' {
        s.drop_first()
    } else {
        s
    }
}

/// What parsing `s` as a `u16` gives: an optional `'+'`, then at least one
/// digit and nothing else, of a value that fits in 16 bits.
pub open spec fn u16_from_text(s: Seq<char>) -> Option<u16> {
    let body = unsigned_body(s);
    if body.len() > 0 && all_digits(body) && digits_value(body) <= u16::MAX {
        Some(digits_value(body) as u16)
    } else {
        None
    }
}

fn digit_str(d: u64) -> (s: &'static str)
    requires
        d < 10,
    ensures
        s@ == seq![digit_char(d as nat)],
{
    if d == 0 {
        proof { reveal_strlit("0"); }
        "0"
    } else if d == 1 {
        proof { reveal_strlit("1"); }
        "1"
    } else if d == 2 {
        proof { reveal_strlit("2"); }
        "2"
    } else if d == 3 {
        proof { reveal_strlit("3"); }
        "3"
    } else if d == 4 {
        proof { reveal_strlit("4"); }
        "4"
    } else if d == 5 {
        proof { reveal_strlit("5"); }
        "5"
    } else if d == 6 {
        proof { reveal_strlit("6"); }
        "6"
    } else if d == 7 {
        proof { reveal_strlit("7"); }
        "7"
    } else if d == 8 {
        proof { reveal_strlit("8"); }
        "8"
    } else {
        proof { reveal_strlit("9"); }
        "9"
    }
}

/// The decimal text of `n`, as `n.to_string()` writes it.
pub fn decimal_string(n: u64) -> (s: String)
    ensures
        s@ == decimal(n as nat),
    decreases n,
{
    if n < 10 {
        String::from_str(digit_str(n))
    } else {
        let mut s = decimal_string(n / 10);
        s.append(digit_str(n % 10));
        s
    }
}

/// Parses `s` as `str::parse::<u16>` does.
pub fn parse_u16(s: &str) -> (r: Option<u16>)
    ensures
        r == u16_from_text(s@),
{
    let len = s.unicode_len();
    let mut start: usize = 0;
    if len > 0 && s.get_char(0) == '+' {
        start = 1;
    }
    let ghost body = unsigned_body(s@);
    assert(body =~= s@.subrange(start as int, len as int));
    if start >= len {
        return None;
    }
    let mut value: u32 = 0;
    let mut i: usize = start;
    while i < len
        invariant
            len == s@.len(),
            start <= i <= len,
            body =~= s@.subrange(start as int, len as int),
            body == unsigned_body(s@),
            all_digits(s@.subrange(start as int, i as int)),
            value == digits_value(s@.subrange(start as int, i as int)),
            value <= u16::MAX,
        decreases len - i,
    {
        let c = s.get_char(i);
        let ghost prefix = s@.subrange(start as int, i as int);
        let ghost next = s@.subrange(start as int, i + 1);
        assert(next.drop_last() =~= prefix);
        assert(next.last() == c);
        if !('0' <= c && c <= '9') {
            assert(!is_digit(body[i - start]));
            return None;
        }
        let digit: u32 = (c as u32) - 48;
        let candidate: u32 = value * 10 + digit;
        if candidate > 65535 {
            proof {
                assert(body.subrange(0, (i + 1 - start) as int) =~= next);
                lemma_digits_value_prefix_grows(body, (i + 1 - start) as int);
            }
            return None;
        }
        value = candidate;
        i = i + 1;
    }
    assert(s@.subrange(start as int, len as int) =~= body);
    Some(value as u16)
}

/// A digit string is at least as large as any of its prefixes.
pub proof fn lemma_digits_value_prefix_grows(s: Seq<char>, k: int)
    requires
        0 <= k <= s.len(),
    ensures
        digits_value(s.subrange(0, k)) <= digits_value(s),
    decreases s.len() - k,
{
    if k < s.len() {
        lemma_digits_value_prefix_grows(s, k + 1);
        let t = s.subrange(0, k + 1);
        assert(t.drop_last() =~= s.subrange(0, k));
    } else {
        assert(s.subrange(0, k) =~= s);
    }
}

/// A digit character denotes its digit.
pub proof fn lemma_digit_char_value(d: nat)
    requires
        d < 10,
    ensures
        is_digit(digit_char(d)),
        digit_value(digit_char(d)) == d,
{
    assert(((d + 48) as char) as nat == d + 48);
}

/// Facts about the decimal text: it is non-empty, all digits, and denotes `n`.
pub proof fn lemma_decimal_digits(n: nat)
    ensures
        decimal(n).len() > 0,
        all_digits(decimal(n)),
        digits_value(decimal(n)) == n,
    decreases n,
{
    lemma_digit_char_value(n % 10);
    if n < 10 {
        let s = decimal(n);
        assert(s.drop_last() =~= Seq::<char>::empty());
        assert(digits_value(s.drop_last()) == 0);
        assert(s.last() == digit_char(n));
    } else {
        lemma_decimal_digits(n / 10);
        let s = decimal(n);
        assert(s.drop_last() =~= decimal(n / 10));
        assert(s.last() == digit_char(n % 10));
        assert(n == (n / 10) * 10 + n % 10) by (nonlinear_arith);
        assert forall|i: int| 0 <= i < s.len() implies is_digit(#[trigger] s[i]) by {
            if i < s.len() - 1 {
                assert(s[i] == decimal(n / 10)[i]);
            }
        }
    }
}

/// Reading back the decimal text of a 16-bit number gives that number.
pub proof fn lemma_parse_u16_of_decimal(n: u16)
    ensures
        u16_from_text(decimal(n as nat)) == Some(n),
{
    lemma_decimal_digits(n as nat);
    let s = decimal(n as nat);
    assert(is_digit(s[0]));
    assert(unsigned_body(s) == s);
}


/// The decimal text of `n` is its base-10 digits, most significant first:
/// with `L` characters, `n` is below `10^L`, has no leading zero (it is at
/// least `10^(L-1)` when `L > 1`), and character `i` is the digit
/// `(n / 10^(L-1-i)) % 10`.
pub proof fn law_decimal_positional(n: nat)
    ensures
        decimal(n).len() >= 1,
        n < pow(10, decimal(n).len()),
        decimal(n).len() > 1 ==> pow(10, (decimal(n).len() - 1) as nat) <= n,
        forall|i: int|
            0 <= i < decimal(n).len() ==> #[trigger] decimal(n)[i] as int == 48 + (n as int
                / pow(10, (decimal(n).len() - 1 - i) as nat)) % 10,
    decreases n,
{
    let s = decimal(n);
    lemma_digit_char_value(n % 10);
    assert(pow(10, 0) == 1) by {
        reveal_with_fuel(pow, 1);
    }
    if n < 10 {
        assert(pow(10, 1) == 10) by {
            reveal_with_fuel(pow, 2);
        }
        assert(s[0] == digit_char(n));
    } else {
        let m = n / 10;
        let t = decimal(m);
        law_decimal_positional(m);
        let lt = t.len();
        assert(s == t.push(digit_char(n % 10)));
        assert(s.len() == lt + 1);
        let pl = pow(10, lt);
        assert(pow(10, (lt + 1) as nat) == 10 * pl) by {
            reveal_with_fuel(pow, 1);
        }
        assert(n == 10 * m + n % 10) by (nonlinear_arith)
            requires
                m == n / 10,
        ;
        assert(n < 10 * pl) by (nonlinear_arith)
            requires
                n == 10 * m + n % 10,
                n % 10 < 10,
                m < pl,
        ;
        if lt > 1 {
            let pk = pow(10, (lt - 1) as nat);
            assert(pl == 10 * pk) by {
                reveal_with_fuel(pow, 1);
                assert((lt - 1) as nat + 1 == lt);
            }
            assert(10 * pk <= n) by (nonlinear_arith)
                requires
                    pk <= m,
                    n == 10 * m + n % 10,
                    n % 10 >= 0,
            ;
        } else {
            assert(pl == 10) by {
                reveal_with_fuel(pow, 2);
            }
        }
        assert forall|i: int| 0 <= i < s.len() implies #[trigger] s[i] as int == 48 + (n as int
            / pow(10, (s.len() - 1 - i) as nat)) % 10 by {
            if i < lt {
                let k = (lt - 1 - i) as nat;
                assert(s[i] == t[i]);
                assert(t[i] as int == 48 + (m as int / pow(10, k)) % 10);
                vstd::arithmetic::power::lemma_pow_positive(10, k);
                vstd::arithmetic::div_mod::lemma_div_denominator(n as int, 10, pow(10, k));
                assert(pow(10, k + 1) == 10 * pow(10, k)) by {
                    reveal_with_fuel(pow, 1);
                }
                assert((s.len() - 1 - i) as nat == k + 1);
            } else {
                assert(s[i] == digit_char(n % 10));
                assert((s.len() - 1 - i) as nat == 0);
            }
        }
    }
}

/// Reading digits: the empty text reads as zero, and appending a digit
/// character `c` to a text multiplies its value by ten and adds the digit.
pub proof fn law_digits_value_push(s: Seq<char>, c: char)
    ensures
        digits_value(Seq::<char>::empty()) == 0,
        '0' <= c <= '9' ==> digits_value(s.push(c)) == digits_value(s) * 10 + (c as int - 48),
{
    assert(s.push(c).drop_last() =~= s);
}


/// Reading a `u16`: an empty text, a lone `+`, a sign `-`, or any character
/// that is no digit (past an optional leading `+`) is refused; a run of
/// digits, after an optional `+`, reads as its value when that fits in 16
/// bits and is refused otherwise.
pub proof fn law_u16_from_text(s: Seq<char>, d: Seq<char>)
    ensures
        u16_from_text(Seq::<char>::empty()) is None,
        u16_from_text(seq!['+']) is None,
        s.len() > 0 && s[0] == '-' ==> u16_from_text(s) is None,
        (exists|i: int| 0 <= i < s.len() && !('0' <= #[trigger] s[i] <= '9') && !(i == 0 && s[i]
            == '+')) ==> u16_from_text(s) is None,
        d.len() > 0 && (forall|i: int| 0 <= i < d.len() ==> '0' <= #[trigger] d[i] <= '9') ==> {
            &&& digits_value(d) <= u16::MAX ==> u16_from_text(d) == Some(digits_value(d) as u16)
                && u16_from_text(seq!['+'] + d) == Some(digits_value(d) as u16)
            &&& digits_value(d) > u16::MAX ==> u16_from_text(d) is None && u16_from_text(
                seq!['+'] + d,
            ) is None
        },
{
    assert(seq!['+'].drop_first() =~= Seq::<char>::empty());
    assert((seq!['+'] + d).drop_first() =~= d);
    if exists|i: int| 0 <= i < s.len() && !('0' <= #[trigger] s[i] <= '9') && !(i == 0 && s[i]
        == '+') {
        let i = choose|i: int| 0 <= i < s.len() && !('0' <= #[trigger] s[i] <= '9') && !(i == 0
            && s[i] == '+');
        let b = unsigned_body(s);
        if s.len() > 0 && s[0] == '+' {
            assert(b[i - 1] == s[i]);
        } else {
            assert(b[i] == s[i]);
        }
    }
    if d.len() > 0 && (forall|i: int| 0 <= i < d.len() ==> '0' <= #[trigger] d[i] <= '9') {
        assert((seq!['+'] + d)[0] == '+');
        assert('0' <= d[0] <= '9');
        assert(unsigned_body(d) == d);
        assert(unsigned_body(seq!['+'] + d) =~= d);
        assert(all_digits(d));
    }
}

} // verus!
