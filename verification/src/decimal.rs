//! Decimal notation of integers: writing and reading.

use vstd::prelude::*;
use vstd::string::StringExecFns;
use vstd::string::StrSliceExecFns;

verus! {

/// The character of a decimal digit.
pub open spec fn digit_char(d: int) -> char {
    if d == 0 {
        '0'
    } else if d == 1 {
        '1'
    } else if d == 2 {
        '2'
    } else if d == 3 {
        '3'
    } else if d == 4 {
        '4'
    } else if d == 5 {
        '5'
    } else if d == 6 {
        '6'
    } else if d == 7 {
        '7'
    } else if d == 8 {
        '8'
    } else {
        '9'
    }
}

/// Whether a character is a decimal digit.
pub open spec fn is_digit(c: char) -> bool {
    c == '0' || c == '1' || c == '2' || c == '3' || c == '4' || c == '5' || c == '6' || c == '7'
        || c == '8' || c == '9'
}

/// The value of a decimal digit; 0 for any other character.
pub open spec fn digit_value(c: char) -> nat {
    if c == '1' {
        1
    } else if c == '2' {
        2
    } else if c == '3' {
        3
    } else if c == '4' {
        4
    } else if c == '5' {
        5
    } else if c == '6' {
        6
    } else if c == '7' {
        7
    } else if c == '8' {
        8
    } else if c == '9' {
        9
    } else {
        0
    }
}

/// The digits of a natural number, most significant first, without leading
/// zeros; `0` is written as one digit.
pub open spec fn digits(n: nat) -> Seq<char>
    decreases n,
{
    if n < 10 {
        seq![digit_char(n as int)]
    } else {
        digits(n / 10).push(digit_char((n % 10) as int))
    }
}

/// The sign that is written before the digits.
pub open spec fn sign_text(negative: bool) -> Seq<char> {
    if negative {
        seq!['-']
    } else {
        Seq::empty()
    }
}

/// The decimal notation of an integer: a minus sign if it is negative, then
/// the digits of its magnitude.
pub open spec fn decimal(v: int) -> Seq<char> {
    if v < 0 {
        sign_text(true) + digits((-v) as nat)
    } else {
        digits(v as nat)
    }
}

/// Whether every character is a decimal digit.
pub open spec fn all_digits(s: Seq<char>) -> bool {
    forall|i: int| 0 <= i < s.len() ==> is_digit(#[trigger] s[i])
}

/// The number that a sequence of digits denotes.
pub open spec fn number_of(s: Seq<char>) -> nat
    decreases s.len(),
{
    if s.len() == 0 {
        0
    } else {
        number_of(s.drop_last()) * 10 + digit_value(s.last())
    }
}

/// The natural number that a text denotes: digits alone, or digits after a
/// plus sign.
pub open spec fn unsigned_value(s: Seq<char>) -> Option<int> {
    if s.len() > 0 && s[0] == '+' {
        if s.len() > 1 && all_digits(s.skip(1)) {
            Some(number_of(s.skip(1)) as int)
        } else {
            None
        }
    } else if s.len() > 0 && all_digits(s) {
        Some(number_of(s) as int)
    } else {
        None
    }
}

/// The integer that a text denotes: as `unsigned_value`, or the negative of
/// the digits after a minus sign.
pub open spec fn decimal_value(s: Seq<char>) -> Option<int> {
    if s.len() > 0 && s[0] == '-' {
        if s.len() > 1 && all_digits(s.skip(1)) {
            Some(-(number_of(s.skip(1)) as int))
        } else {
            None
        }
    } else {
        unsigned_value(s)
    }
}

/// The value, where there is one and it lies between the two bounds.
pub open spec fn within(v: Option<int>, low: int, high: int) -> Option<int> {
    match v {
        Some(x) => if low <= x <= high {
            Some(x)
        } else {
            None
        },
        None => None,
    }
}

fn digit_str(d: u64) -> (r: &'static str)
    requires
        d < 10,
    ensures
        r@ == seq![digit_char(d as int)],
{
    proof {
        reveal_strlit("0");
        reveal_strlit("1");
        reveal_strlit("2");
        reveal_strlit("3");
        reveal_strlit("4");
        reveal_strlit("5");
        reveal_strlit("6");
        reveal_strlit("7");
        reveal_strlit("8");
        reveal_strlit("9");
    }
    let r = if d == 0 {
        "0"
    } else if d == 1 {
        "1"
    } else if d == 2 {
        "2"
    } else if d == 3 {
        "3"
    } else if d == 4 {
        "4"
    } else if d == 5 {
        "5"
    } else if d == 6 {
        "6"
    } else if d == 7 {
        "7"
    } else if d == 8 {
        "8"
    } else {
        "9"
    };
    assert(r@ =~= seq![digit_char(d as int)]);
    r
}

/// Writes a sign and a magnitude in decimal notation.
pub fn write_decimal(negative: bool, magnitude: u64) -> (r: String)
    ensures
        r@ == sign_text(negative) + digits(magnitude as nat),
{
    let mut low: Vec<u64> = Vec::new();
    let mut n: u64 = magnitude;
    let ghost mut tail: Seq<char> = Seq::empty();
    while n >= 10
        invariant
            digits(magnitude as nat) == digits(n as nat) + tail,
            tail.len() == low@.len(),
            forall|j: int| 0 <= j < low@.len() ==> low@[j] < 10,
            forall|j: int|
                0 <= j < low@.len() ==> tail[j] == digit_char(low@[low@.len() - 1 - j] as int),
        decreases n,
    {
        let d: u64 = n % 10;
        proof {
            let c = digit_char(d as int);
            assert(digits(n as nat) == digits((n / 10) as nat).push(c));
            assert(digits((n / 10) as nat).push(c) + tail =~= digits((n / 10) as nat) + (seq![c]
                + tail));
            tail = seq![c] + tail;
        }
        low.push(d);
        n = n / 10;
    }
    let mut r = String::new();
    if negative {
        proof {
            reveal_strlit("-");
            assert("-"@ =~= sign_text(true));
        }
        r.append("-");
    }
    r.append(digit_str(n));
    assert(r@ =~= sign_text(negative) + digits(n as nat));
    let mut k: usize = low.len();
    while k > 0
        invariant
            0 <= k <= low@.len(),
            tail.len() == low@.len(),
            forall|j: int| 0 <= j < low@.len() ==> low@[j] < 10,
            forall|j: int|
                0 <= j < low@.len() ==> tail[j] == digit_char(low@[low@.len() - 1 - j] as int),
            r@ == sign_text(negative) + digits(n as nat) + tail.take(low@.len() - k),
        decreases k,
    {
        k -= 1;
        let ghost before = r@;
        r.append(digit_str(low[k]));
        proof {
            let t = low@.len() - 1 - k;
            assert(tail[t] == digit_char(low@[k as int] as int));
            assert(tail.take(t + 1) =~= tail.take(t).push(tail[t]));
            assert(r@ =~= sign_text(negative) + digits(n as nat) + tail.take(t + 1));
        }
    }
    proof {
        assert(tail.take(low@.len() as int) =~= tail);
        assert(r@ =~= sign_text(negative) + (digits(n as nat) + tail));
    }
    r
}

fn digit_of(c: char) -> (r: Option<u64>)
    ensures
        is_digit(c) ==> r == Some(digit_value(c) as u64),
        !is_digit(c) ==> r is None,
{
    if c == '0' {
        Some(0)
    } else if c == '1' {
        Some(1)
    } else if c == '2' {
        Some(2)
    } else if c == '3' {
        Some(3)
    } else if c == '4' {
        Some(4)
    } else if c == '5' {
        Some(5)
    } else if c == '6' {
        Some(6)
    } else if c == '7' {
        Some(7)
    } else if c == '8' {
        Some(8)
    } else if c == '9' {
        Some(9)
    } else {
        None
    }
}

/// The number denoted by a prefix is at most the number denoted by the
/// whole.
pub proof fn number_of_prefix(s: Seq<char>, k: int)
    requires
        0 <= k <= s.len(),
    ensures
        number_of(s.take(k)) <= number_of(s),
    decreases s.len() - k,
{
    if k < s.len() {
        number_of_prefix(s, k + 1);
        assert(s.take(k + 1).drop_last() =~= s.take(k));
    } else {
        assert(s.take(k) =~= s);
    }
}

/// The number denoted by the characters of `s` from `from` on, where there
/// is at least one, all are digits and the number is at most `limit`.
pub open spec fn digits_from(s: Seq<char>, from: int, limit: int) -> Option<int> {
    if from < s.len() && all_digits(s.skip(from)) && number_of(s.skip(from)) <= limit {
        Some(number_of(s.skip(from)) as int)
    } else {
        None
    }
}

fn read_digits(s: &str, from: usize, limit: u64) -> (r: Option<u64>)
    requires
        from <= s@.len(),
    ensures
        match digits_from(s@, from as int, limit as int) {
            Some(n) => r == Some(n as u64),
            None => r is None,
        },
{
    let len = s.unicode_len();
    if from >= len {
        return None;
    }
    let ghost d = s@.skip(from as int);
    let mut acc: u64 = 0;
    let mut i: usize = from;
    while i < len
        invariant
            from <= i <= len,
            len == s@.len(),
            d == s@.skip(from as int),
            all_digits(d.take(i - from)),
            acc == number_of(d.take(i - from)),
            acc <= limit,
        decreases len - i,
    {
        let c = s.get_char(i);
        proof {
            assert(d[i - from] == c);
            assert(d.take(i - from + 1).drop_last() =~= d.take(i - from));
            assert(d.take(i - from + 1).last() == c);
        }
        match digit_of(c) {
            None => {
                return None;
            },
            Some(v) => {
                let next: u128 = (acc as u128) * 10 + (v as u128);
                if next > limit as u128 {
                    proof {
                        number_of_prefix(d, i - from + 1);
                    }
                    return None;
                }
                acc = next as u64;
                proof {
                    assert forall|j: int| 0 <= j < d.take(i - from + 1).len() implies is_digit(
                        #[trigger] d.take(i - from + 1)[j],
                    ) by {
                        if j < i - from {
                            assert(d.take(i - from)[j] == d[j]);
                        }
                    }
                }
            },
        }
        i += 1;
    }
    proof {
        assert(d.take(i - from) =~= d);
    }
    Some(acc)
}

/// Reads a natural number of at most `limit`: digits, with or without a
/// plus sign before them.
pub fn read_unsigned(s: &str, limit: u64) -> (r: Option<u64>)
    ensures
        match within(unsigned_value(s@), 0, limit as int) {
            Some(n) => r == Some(n as u64),
            None => r is None,
        },
{
    let len = s.unicode_len();
    if len > 0 && s.get_char(0) == '+' {
        read_digits(s, 1, limit)
    } else {
        proof {
            assert(s@.skip(0) =~= s@);
        }
        read_digits(s, 0, limit)
    }
}

/// Reads an integer between `low` and `high`: digits, with or without a
/// sign before them.
pub fn read_signed(s: &str, low: i64, high: i64) -> (r: Option<i64>)
    requires
        low <= 0 <= high,
    ensures
        match within(decimal_value(s@), low as int, high as int) {
            Some(v) => r == Some(v as i64),
            None => r is None,
        },
{
    let len = s.unicode_len();
    if len > 0 && s.get_char(0) == '-' {
        let depth: u64 = (0 - (low as i128)) as u64;
        match read_digits(s, 1, depth) {
            Some(m) => {
                let v: i128 = 0 - (m as i128);
                Some(v as i64)
            },
            None => None,
        }
    } else {
        match read_unsigned(s, high as u64) {
            Some(m) => Some(m as i64),
            None => None,
        }
    }
}

/// The digits of a number are digits, at least one, and denote the number.
pub proof fn digits_denote(n: nat)
    ensures
        digits(n).len() > 0,
        all_digits(digits(n)),
        number_of(digits(n)) == n,
    decreases n,
{
    let s = digits(n);
    if n < 10 {
        assert(s.drop_last() =~= Seq::<char>::empty());
        assert(number_of(s.drop_last()) == 0);
    } else {
        digits_denote(n / 10);
        assert(s.drop_last() =~= digits(n / 10));
        assert(s.last() == digit_char((n % 10) as int));
        assert forall|i: int| 0 <= i < s.len() implies is_digit(#[trigger] s[i]) by {
            if i < s.len() - 1 {
                assert(s[i] == digits(n / 10)[i]);
            }
        }
    }
}

/// Reading the decimal notation of an integer gives the integer back.
pub proof fn decimal_round_trip(v: int)
    ensures
        decimal_value(decimal(v)) == Some(v),
        v >= 0 ==> unsigned_value(decimal(v)) == Some(v),
{
    let s = decimal(v);
    if v < 0 {
        let d = digits((-v) as nat);
        digits_denote((-v) as nat);
        assert(s[0] == '-');
        assert(s.skip(1) =~= d);
    } else {
        digits_denote(v as nat);
        assert(is_digit(s[0]));
    }
}

} // verus!
