//! Decimal rendering of integers, the only text formatting the bot's rules need.

use vstd::prelude::*;
use vstd::string::{StrSliceExecFns, StringExecFns};

verus! {

/// The character that writes the decimal digit `d`.
pub open spec fn digit_char(d: int) -> char {
    if d == 0 {
        '0'
    } else if d == 1 {
        '1'
    } else if d == 2 {
        '2'
    } else if d == 3 {
        '3'
    } else if d == 4 {
        '4'
    } else if d == 5 {
        '5'
    } else if d == 6 {
        '6'
    } else if d == 7 {
        '7'
    } else if d == 8 {
        '8'
    } else {
        '9'
    }
}

/// Decimal digits of a natural number, most significant first, without padding.
pub open spec fn decimal_nat(n: nat) -> Seq<char>
    decreases n,
{
    if n < 10 {
        seq![digit_char(n as int)]
    } else {
        decimal_nat(n / 10).push(digit_char((n % 10) as int))
    }
}

/// Decimal text of an integer: a minus sign for negative values, then the digits.
pub open spec fn decimal(n: int) -> Seq<char> {
    if n < 0 {
        seq!['-'] + decimal_nat((-n) as nat)
    } else {
        decimal_nat(n as nat)
    }
}

/// Decimal text of an integer in a field at least two characters wide, filled
/// with a zero on the left; the sign counts towards the width.
pub open spec fn padded2(n: int) -> Seq<char> {
    if 0 <= n < 10 {
        seq!['0'] + decimal(n)
    } else {
        decimal(n)
    }
}

fn digit_text(d: u64) -> (r: &'static str)
    requires
        d < 10,
    ensures
        r@ == seq![digit_char(d as int)],
{
    proof {
        reveal_strlit("0");
        reveal_strlit("1");
        reveal_strlit("2");
        reveal_strlit("3");
        reveal_strlit("4");
        reveal_strlit("5");
        reveal_strlit("6");
        reveal_strlit("7");
        reveal_strlit("8");
        reveal_strlit("9");
    }
    let r = if d == 0 {
        "0"
    } else if d == 1 {
        "1"
    } else if d == 2 {
        "2"
    } else if d == 3 {
        "3"
    } else if d == 4 {
        "4"
    } else if d == 5 {
        "5"
    } else if d == 6 {
        "6"
    } else if d == 7 {
        "7"
    } else if d == 8 {
        "8"
    } else {
        "9"
    };
    assert(r@ =~= seq![digit_char(d as int)]);
    r
}

/// Renders an unsigned number in decimal.
pub fn decimal_u128(n: u128) -> (out: String)
    ensures
        out@ == decimal(n as int),
{
    let mut out = String::from_str(digit_text((n % 10) as u64));
    let mut rest: u128 = n / 10;
    proof {
        if rest > 0 {
            assert(decimal_nat(n as nat) =~= decimal_nat(rest as nat) + out@);
        }
    }
    while rest > 0
        invariant
            decimal_nat(n as nat) == if rest == 0 {
                out@
            } else {
                decimal_nat(rest as nat) + out@
            },
        decreases rest,
    {
        let head = String::from_str(digit_text((rest % 10) as u64));
        let ghost before = out@;
        out = head.concat(out.as_str());
        proof {
            let next = rest / 10;
            if next == 0 {
                assert(decimal_nat(rest as nat) =~= head@);
            } else {
                assert(decimal_nat(rest as nat) + before =~= decimal_nat(next as nat) + (head@
                    + before));
            }
        }
        rest = rest / 10;
    }
    out
}

/// Renders a signed number in decimal.
pub fn decimal_i128(n: i128) -> (out: String)
    ensures
        out@ == decimal(n as int),
{
    if n < 0 {
        let magnitude: u128 = (-(n + 1)) as u128 + 1;
        proof {
            reveal_strlit("-");
            assert("-"@ =~= seq!['-']);
        }
        String::from_str("-").concat(decimal_u128(magnitude).as_str())
    } else {
        decimal_u128(n as u128)
    }
}

/// Renders an unsigned number in decimal.
pub fn decimal_u64(n: u64) -> (out: String)
    ensures
        out@ == decimal(n as int),
{
    decimal_u128(n as u128)
}

/// Renders a signed number in decimal.
pub fn decimal_i64(n: i64) -> (out: String)
    ensures
        out@ == decimal(n as int),
{
    decimal_i128(n as i128)
}

/// Renders a signed number zero-filled to two characters.
pub fn padded2_i64(n: i64) -> (out: String)
    ensures
        out@ == padded2(n as int),
{
    if 0 <= n && n < 10 {
        proof {
            reveal_strlit("0");
            assert("0"@ =~= seq!['0']);
        }
        String::from_str("0").concat(decimal_i64(n).as_str())
    } else {
        decimal_i64(n)
    }
}

/// True for the ten decimal digits.
pub open spec fn is_digit(c: char) -> bool {
    '0' <= c <= '9'
}

/// The number that a run of digits writes, most significant digit first.
/// A character that is no digit counts as zero.
pub open spec fn digits_value(s: Seq<char>) -> nat
    decreases s.len(),
{
    if s.len() == 0 {
        0
    } else {
        digits_value(s.drop_last()) * 10 + if is_digit(s.last()) {
            (s.last() as int - '0' as int) as nat
        } else {
            0
        }
    }
}

/// True when every character is a decimal digit.
pub open spec fn all_digits(s: Seq<char>) -> bool {
    forall|i: int| 0 <= i < s.len() ==> is_digit(#[trigger] s[i])
}

/// The text without its plus sign, if it begins with one.
pub open spec fn unsigned_body(s: Seq<char>) -> Seq<char> {
    if s.len() > 0 && s[0] == '+' {
        s.subrange(1, s.len() as int)
    } else {
        s
    }
}

/// The unsigned 64-bit number that a text writes: an optional plus sign and
/// then one or more decimal digits and nothing else, naming a number that
/// fits. Any other text writes none.
pub open spec fn parsed_u64(s: Seq<char>) -> Option<u64> {
    let body = unsigned_body(s);
    if body.len() == 0 || !all_digits(body) || digits_value(body) > u64::MAX {
        None
    } else {
        Some(digits_value(body) as u64)
    }
}

/// True for the characters that end a word: space, tab, line feed, form feed
/// and carriage return.
pub open spec fn is_space(c: char) -> bool {
    c == ' ' || c == '\t' || c == '\n' || c == '\x0c' || c == '\r'
}

/// True when the first word of `s` ends before position `k`: no character
/// before `k` is a space, and `k` is the end of the text or holds a space.
pub open spec fn is_token_end(s: Seq<char>, k: int) -> bool {
    &&& 0 <= k <= s.len()
    &&& forall|i: int| 0 <= i < k ==> !is_space(#[trigger] s[i])
    &&& k < s.len() ==> is_space(s[k])
}

/// Where the first word of `s` ends.
pub open spec fn token_end(s: Seq<char>) -> int {
    choose|k: int| is_token_end(s, k)
}

/// The first word of `s`: everything before the first space, which is
/// nothing at all when `s` begins with a space.
pub open spec fn leading_token(s: Seq<char>) -> Seq<char> {
    s.subrange(0, token_end(s))
}

/// There is one place where the first word ends.
pub proof fn lemma_token_end_unique(s: Seq<char>, k: int)
    requires
        is_token_end(s, k),
    ensures
        token_end(s) == k,
{
    let t = token_end(s);
    assert(is_token_end(s, t));
    if t < k {
        assert(!is_space(s[t]));
    } else if k < t {
        assert(!is_space(s[k]));
    }
}

/// A run of digits is worth at least as much as any of its beginnings.
pub proof fn lemma_digits_value_prefix(s: Seq<char>, k: int)
    requires
        0 <= k <= s.len(),
    ensures
        digits_value(s.subrange(0, k)) <= digits_value(s),
    decreases s.len(),
{
    if k == s.len() {
        assert(s.subrange(0, k) =~= s);
    } else {
        assert(s.drop_last().subrange(0, k) =~= s.subrange(0, k));
        lemma_digits_value_prefix(s.drop_last(), k);
    }
}

/// The digits that [`decimal_nat`] writes for `n` are digits, and worth `n`.
pub proof fn lemma_decimal_nat_value(n: nat)
    ensures
        all_digits(decimal_nat(n)),
        digits_value(decimal_nat(n)) == n,
        decimal_nat(n).len() >= 1,
        decimal_nat(n)[0] != '+',
    decreases n,
{
    if n < 10 {
        let s = decimal_nat(n);
        assert(s.drop_last() =~= Seq::<char>::empty());
        assert(digits_value(s.drop_last()) == 0);
    } else {
        lemma_decimal_nat_value(n / 10);
        let s = decimal_nat(n);
        assert(s.drop_last() =~= decimal_nat(n / 10));
        assert(s[0] == decimal_nat(n / 10)[0]);
    }
}

/// What [`decimal_u64`] writes, [`parse_u64`] reads back.
pub proof fn lemma_parse_decimal(n: u64)
    ensures
        parsed_u64(decimal(n as int)) == Some(n),
{
    lemma_decimal_nat_value(n as nat);
}

/// Whether `c` ends a word.
pub fn ends_word(c: char) -> (yes: bool)
    ensures
        yes == is_space(c),
{
    c == ' ' || c == '\t' || c == '\n' || c == '\x0c' || c == '\r'
}

/// Reads an unsigned number: see [`parsed_u64`].
pub fn parse_u64(s: &str) -> (number: Option<u64>)
    ensures
        number == parsed_u64(s@),
{
    let n = s.unicode_len();
    let start: usize = if n > 0 && s.get_char(0) == '+' {
        1
    } else {
        0
    };
    let ghost body = unsigned_body(s@);
    if start == n {
        return None;
    }
    let mut acc: u64 = 0;
    let mut i: usize = start;
    proof {
        assert(body.subrange(0, 0) =~= Seq::<char>::empty());
    }
    while i < n
        invariant
            start <= i <= n,
            n == s@.len(),
            start <= 1,
            body == unsigned_body(s@),
            body.len() == n - start,
            forall|k: int| 0 <= k < body.len() ==> body[k] == s@[k + start],
            all_digits(body.subrange(0, i - start)),
            acc == digits_value(body.subrange(0, i - start)),
        decreases n - i,
    {
        let c = s.get_char(i);
        let ghost j = i - start;
        if !(c >= '0' && c <= '9') {
            proof {
                assert(body[j] == c);
            }
            return None;
        }
        let d: u64 = (c as u8 - 48) as u64;
        proof {
            let next = body.subrange(0, j + 1);
            assert(next.drop_last() =~= body.subrange(0, j));
            assert(next.last() == c);
            assert(digits_value(next) == acc * 10 + d);
            lemma_digits_value_prefix(body, j + 1);
            assert forall|k: int| 0 <= k < next.len() implies is_digit(#[trigger] next[k]) by {
                if k < j {
                    assert(body.subrange(0, j)[k] == next[k]);
                }
            }
        }
        let shifted = match acc.checked_mul(10) {
            Some(v) => v,
            None => {
                return None;
            },
        };
        acc = match shifted.checked_add(d) {
            Some(v) => v,
            None => {
                return None;
            },
        };
        i += 1;
    }
    proof {
        assert(body.subrange(0, n - start) =~= body);
    }
    Some(acc)
}

/// Reads the number that the first word of `s` writes, if it writes one.
pub fn leading_number(s: &str) -> (number: Option<u64>)
    ensures
        number == parsed_u64(leading_token(s@)),
{
    let n = s.unicode_len();
    let mut k: usize = 0;
    while k < n && !ends_word(s.get_char(k))
        invariant
            k <= n,
            n == s@.len(),
            forall|i: int| 0 <= i < k ==> !is_space(#[trigger] s@[i]),
        decreases n - k,
    {
        k += 1;
    }
    proof {
        lemma_token_end_unique(s@, k as int);
    }
    parse_u64(s.substring_char(0, k))
}

} // verus!
