//! Decimal text for integers, both ways: the digits that `{}` prints for an
//! integer, and the `i32` that `str::parse::<i32>` reads back from ASCII bytes.

use vstd::prelude::*;

verus! {

/// The character of the decimal digit `d` (for `d < 10`).
pub open spec fn digit_char(d: nat) -> char {
    (d + 48) as char
}

/// The decimal digits of `n`, most significant first, without leading zeros
/// (`0` is the single digit `'0'`).
pub open spec fn nat_digits(n: nat) -> Seq<char>
    decreases n,
{
    if n < 10 {
        seq![digit_char(n)]
    } else {
        nat_digits(n / 10).push(digit_char(n % 10))
    }
}

/// How `{}` writes the integer `n`: a `'-'` before the digits of `|n|` when `n`
/// is negative.
pub open spec fn int_decimal(n: int) -> Seq<char> {
    if n < 0 {
        seq!['-'] + nat_digits((-n) as nat)
    } else {
        nat_digits(n as nat)
    }
}

/// An ASCII decimal digit byte.
pub open spec fn is_digit_byte(b: u8) -> bool {
    48 <= b <= 57
}

/// Every byte of `s` is an ASCII decimal digit.
pub open spec fn all_digit_bytes(s: Seq<u8>) -> bool {
    forall|i: int| 0 <= i < s.len() ==> is_digit_byte(#[trigger] s[i])
}

/// The value of a run of decimal digit bytes, most significant first.
pub open spec fn digits_value(s: Seq<u8>) -> nat
    decreases s.len(),
{
    if s.len() == 0 {
        0
    } else {
        (digits_value(s.drop_last()) * 10 + (s.last() - 48)) as nat
    }
}

/// The bytes after an optional leading `'+'` or `'-'`.
pub open spec fn unsigned_part(s: Seq<u8>) -> Seq<u8> {
    if s.len() > 0 && (s[0] == 43 || s[0] == 45) {
        s.skip(1)
    } else {
        s
    }
}

/// The value that `s` spells: the digits after the sign, negated after a `'-'`.
pub open spec fn signed_value(s: Seq<u8>) -> int {
    if s.len() > 0 && s[0] == 45 {
        -digits_value(unsigned_part(s))
    } else {
        digits_value(unsigned_part(s)) as int
    }
}

/// What `str::parse::<i32>` gives for the bytes `s`: an optional sign, then at
/// least one decimal digit and nothing else, with a value that fits in `i32`.
pub open spec fn parse_i32_spec(s: Seq<u8>) -> Option<i32> {
    let body = unsigned_part(s);
    if body.len() > 0 && all_digit_bytes(body) && i32::MIN <= signed_value(s) <= i32::MAX {
        Some(signed_value(s) as i32)
    } else {
        None
    }
}

/// The bytes of an ASCII character sequence.
pub open spec fn ascii_bytes(s: Seq<char>) -> Seq<u8> {
    s.map_values(|c: char| c as u8)
}

/// A one-character literal for the digit `d`.
fn digit_str(d: u64) -> (s: &'static str)
    requires
        d < 10,
    ensures
        s@ == seq![digit_char(d as nat)],
{
    match d {
        0 => {
            proof {
                reveal_strlit("0");
            }
            "0"
        },
        1 => {
            proof {
                reveal_strlit("1");
            }
            "1"
        },
        2 => {
            proof {
                reveal_strlit("2");
            }
            "2"
        },
        3 => {
            proof {
                reveal_strlit("3");
            }
            "3"
        },
        4 => {
            proof {
                reveal_strlit("4");
            }
            "4"
        },
        5 => {
            proof {
                reveal_strlit("5");
            }
            "5"
        },
        6 => {
            proof {
                reveal_strlit("6");
            }
            "6"
        },
        7 => {
            proof {
                reveal_strlit("7");
            }
            "7"
        },
        8 => {
            proof {
                reveal_strlit("8");
            }
            "8"
        },
        _ => {
            proof {
                reveal_strlit("9");
            }
            "9"
        },
    }
}

/// Appends the decimal digits of `n` to `s`.
pub fn push_decimal_u64(s: &mut String, n: u64)
    ensures
        final(s)@ == old(s)@ + nat_digits(n as nat),
    decreases n,
{
    if n >= 10 {
        push_decimal_u64(s, n / 10);
    }
    let ghost mid = s@;
    s.append(digit_str(n % 10));
    assert(s@ == old(s)@ + nat_digits(n as nat)) by {
        if n >= 10 {
            assert(mid == old(s)@ + nat_digits((n / 10) as nat));
            assert(old(s)@ + nat_digits(n as nat) =~= mid + seq![digit_char((n % 10) as nat)]);
        }
    }
}

/// Appends `n` as `{}` writes it to `s`.
pub fn push_decimal_i32(s: &mut String, n: i32)
    ensures
        final(s)@ == old(s)@ + int_decimal(n as int),
{
    if n < 0 {
        proof {
            reveal_strlit("-");
        }
        s.append("-");
        let magnitude: u64 = (0i64 - n as i64) as u64;
        push_decimal_u64(s, magnitude);
        assert(s@ =~= old(s)@ + int_decimal(n as int));
    } else {
        push_decimal_u64(s, n as u64);
    }
}

/// The text `prefix` followed by `n` as `{}` writes it.
pub fn prefixed_i32(prefix: &str, n: i32) -> (s: String)
    ensures
        s@ == prefix@ + int_decimal(n as int),
{
    let mut s = String::new();
    s.append(prefix);
    push_decimal_i32(&mut s, n);
    assert(s@ =~= prefix@ + int_decimal(n as int));
    s
}

/// The text of `n` as `{}` writes it.
pub fn i32_to_string(n: i32) -> (s: String)
    ensures
        s@ == int_decimal(n as int),
{
    let mut s = String::new();
    push_decimal_i32(&mut s, n);
    assert(s@ =~= int_decimal(n as int));
    s
}

/// The text of `n` as `{}` writes it.
pub fn u64_to_string(n: u64) -> (s: String)
    ensures
        s@ == nat_digits(n as nat),
{
    let mut s = String::new();
    push_decimal_u64(&mut s, n);
    assert(s@ =~= nat_digits(n as nat));
    s
}


/// One past the largest magnitude an `i32` can have: every larger value reads
/// as this bound while digits are accumulated.
pub open spec fn saturated(v: nat) -> nat {
    if v >= 2147483649 {
        2147483649
    } else {
        v
    }
}

proof fn lemma_digits_value_push(s: Seq<u8>, b: u8)
    requires
        is_digit_byte(b),
    ensures
        digits_value(s.push(b)) == digits_value(s) * 10 + (b - 48),
{
    assert(s.push(b).drop_last() =~= s);
}

/// Reads an `i32` from ASCII bytes exactly as `str::parse::<i32>` does on the
/// same text: `None` for an empty body, a stray byte or an out-of-range value.
pub fn parse_i32(bytes: &[u8]) -> (r: Option<i32>)
    ensures
        r == parse_i32_spec(bytes@),
{
    let n = bytes.len();
    let mut start: usize = 0;
    let mut negative = false;
    if n > 0 && (bytes[0] == 43 || bytes[0] == 45) {
        start = 1;
        negative = bytes[0] == 45;
    }
    let ghost body = unsigned_part(bytes@);
    assert(body =~= bytes@.subrange(start as int, n as int));
    if start >= n {
        return None;
    }
    let mut acc: u64 = 0;
    let mut i: usize = start;
    while i < n
        invariant
            start <= i <= n,
            n == bytes@.len(),
            body == bytes@.subrange(start as int, n as int),
            body == unsigned_part(bytes@),
            all_digit_bytes(bytes@.subrange(start as int, i as int)),
            acc == saturated(digits_value(bytes@.subrange(start as int, i as int))),
        decreases n - i,
    {
        let b = bytes[i];
        if b < 48 || b > 57 {
            assert(body[i - start] == b);
            assert(!all_digit_bytes(body));
            return None;
        }
        proof {
            let prefix = bytes@.subrange(start as int, i as int);
            assert(bytes@.subrange(start as int, i + 1) =~= prefix.push(b));
            lemma_digits_value_push(prefix, b);
        }
        if acc < 2147483649 {
            acc = acc * 10 + (b - 48) as u64;
            if acc > 2147483649 {
                acc = 2147483649;
            }
        }
        i = i + 1;
    }
    assert(bytes@.subrange(start as int, n as int) =~= body);
    if negative {
        if acc <= 2147483648 {
            Some((0i64 - acc as i64) as i32)
        } else {
            None
        }
    } else {
        if acc <= 2147483647 {
            Some(acc as i32)
        } else {
            None
        }
    }
}

proof fn lemma_nat_digits_bytes(n: nat)
    ensures
        ascii_bytes(nat_digits(n)).len() > 0,
        all_digit_bytes(ascii_bytes(nat_digits(n))),
        digits_value(ascii_bytes(nat_digits(n))) == n,
    decreases n,
{
    let s = ascii_bytes(nat_digits(n));
    if n < 10 {
        assert(s =~= Seq::<u8>::empty().push((n + 48) as u8));
        lemma_digits_value_push(Seq::<u8>::empty(), (n + 48) as u8);
    } else {
        lemma_nat_digits_bytes(n / 10);
        let t = ascii_bytes(nat_digits(n / 10));
        assert(s =~= t.push((n % 10 + 48) as u8));
        lemma_digits_value_push(t, (n % 10 + 48) as u8);
    }
}

/// Reading back what `{}` writes for an `i32` gives the same `i32`.
pub proof fn lemma_parse_decimal_roundtrip(n: i32)
    ensures
        parse_i32_spec(ascii_bytes(int_decimal(n as int))) == Some(n),
{
    let s = ascii_bytes(int_decimal(n as int));
    if n < 0 {
        let m = (-n) as nat;
        lemma_nat_digits_bytes(m);
        assert(s =~= seq![45u8] + ascii_bytes(nat_digits(m)));
        assert(unsigned_part(s) =~= ascii_bytes(nat_digits(m)));
    } else {
        lemma_nat_digits_bytes(n as nat);
        let t = ascii_bytes(nat_digits(n as nat));
        assert(is_digit_byte(t[0]));
        assert(unsigned_part(s) =~= t);
    }
}

/// Distinct `i32` values are written as distinct texts.
pub proof fn lemma_int_decimal_injective(a: i32, b: i32)
    requires
        int_decimal(a as int) == int_decimal(b as int),
    ensures
        a == b,
{
    lemma_parse_decimal_roundtrip(a);
    lemma_parse_decimal_roundtrip(b);
}

} // verus!
