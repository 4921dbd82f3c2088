//! Decimal parsing and formatting of signed 32-bit integers, verified
//! against an exact arithmetic specification.

use vstd::prelude::*;
use vstd::string::{StrSliceExecFns, StringExecFns};

verus! {

/// Whether `c` is an ASCII decimal digit.
pub open spec fn is_dec_digit(c: char) -> bool {
    48 <= (c as u32) <= 57
}

/// The value of one decimal digit.
pub open spec fn digit_val(c: char) -> int {
    (c as u32) - 48
}

/// Whether every character of `s` is a decimal digit.
pub open spec fn all_digits(s: Seq<char>) -> bool {
    forall|i: int| 0 <= i < s.len() ==> is_dec_digit(#[trigger] s[i])
}

/// The value of a digit string, most significant digit first.
pub open spec fn digits_val(s: Seq<char>) -> int
    decreases s.len(),
{
    if s.len() == 0 {
        0
    } else {
        digits_val(s.drop_last()) * 10 + digit_val(s.last())
    }
}

/// What parsing `s` as an `i32` yields: an optional `+` or `-` sign
/// followed by one or more decimal digits and nothing else, with the value
/// within the range of `i32`; `None` otherwise.
pub open spec fn parse_i32_spec(s: Seq<char>) -> Option<int> {
    let signed = s.len() > 0 && ((s[0] == '-') || (s[0] == '+'));
    let digits = if signed {
        s.skip(1)
    } else {
        s
    };
    if digits.len() == 0 || !all_digits(digits) {
        None
    } else {
        let magnitude = digits_val(digits);
        let value = if s.len() > 0 && s[0] == '-' {
            -magnitude
        } else {
            magnitude
        };
        if i32::MIN as int <= value <= i32::MAX as int {
            Some(value)
        } else {
            None
        }
    }
}

proof fn lemma_digits_val_nonneg(s: Seq<char>)
    requires
        all_digits(s),
    ensures
        digits_val(s) >= 0,
    decreases s.len(),
{
    if s.len() > 0 {
        assert(all_digits(s.drop_last())) by {
            assert(forall|i: int|
                0 <= i < s.len() - 1 ==> is_dec_digit(#[trigger] s.drop_last()[i]) == is_dec_digit(
                    s[i],
                ));
        }
        lemma_digits_val_nonneg(s.drop_last());
    }
}

/// Parses a string as an `i32`, exactly as `parse_i32_spec` reads it:
/// `Some` on an optionally signed run of decimal digits whose value fits in
/// an `i32`, `None` on anything else — the empty string, a stray character,
/// a bare sign, or a value out of range.
pub fn parse_i32(s: &String) -> (r: Option<i32>)
    ensures
        match r {
            Some(n) => parse_i32_spec(s@) == Some(n as int),
            None => parse_i32_spec(s@) is None,
        },
{
    let st = s.as_str();
    let len = st.unicode_len();
    if len == 0 {
        return None;
    }
    let first = st.get_char(0);
    let negative = first == '-';
    let signed = negative || first == '+';
    let start: usize = if signed {
        1
    } else {
        0
    };
    let ghost digits = if signed {
        s@.skip(1)
    } else {
        s@
    };
    proof {
        assert(digits =~= s@.subrange(start as int, len as int));
    }
    if start == len {
        // A bare sign has no digits.
        proof {
            assert(digits.len() == 0);
        }
        return None;
    }
    let mut i: usize = start;
    let mut acc: i64 = 0;
    while i < len
        invariant
            start <= i <= len,
            len == s@.len(),
            st@ == s@,
            signed == (s@.len() > 0 && ((s@[0] == '-') || (s@[0] == '+'))),
            start == (if signed { 1int } else { 0int }),
            digits == s@.subrange(start as int, len as int),
            all_digits(s@.subrange(start as int, i as int)),
            0 <= acc <= 21474836489i64,
            ({
                let sofar = digits_val(s@.subrange(start as int, i as int));
                if sofar <= 2147483648int {
                    acc == sofar
                } else {
                    acc > 2147483648i64
                }
            }),
        decreases len - i,
    {
        let ghost prefix = s@.subrange(start as int, i as int);
        let c = st.get_char(i);
        let cu: u32 = c as u32;
        if cu < 48 || cu > 57 {
            // A stray character: the digit run is broken.
            proof {
                assert(digits[i as int - start as int] == s@[i as int]);
                assert(!all_digits(digits));
            }
            return None;
        }
        let d: i64 = (cu - 48) as i64;
        proof {
            let longer = s@.subrange(start as int, i as int + 1);
            assert(longer.drop_last() =~= prefix);
            assert(longer.last() == s@[i as int]);
            assert(all_digits(longer)) by {
                assert(forall|k: int|
                    0 <= k < prefix.len() ==> #[trigger] longer[k] == prefix[k]);
            }
            lemma_digits_val_nonneg(prefix);
            // Appending a digit cannot shrink the value below the cap.
            assert(digits_val(longer) == digits_val(prefix) * 10 + digit_val(s@[i as int]));
        }
        if acc > 2147483648i64 {
            // Saturated: the magnitude is already out of range and further
            // digits keep it there.
        } else {
            acc = acc * 10 + d;
        }
        i = i + 1;
    }
    proof {
        assert(s@.subrange(start as int, len as int) =~= digits);
        lemma_digits_val_nonneg(digits);
    }
    if negative {
        if acc > 2147483648i64 {
            None
        } else if acc == 2147483648i64 {
            Some(i32::MIN)
        } else {
            Some(0i32 - (acc as i32))
        }
    } else {
        if acc > 2147483647i64 {
            None
        } else {
            Some(acc as i32)
        }
    }
}

// ---------------------------------------------------------------------------
// Formatting.
// ---------------------------------------------------------------------------

/// The character of one decimal digit.
pub open spec fn dec_digit_char(d: int) -> char {
    if d == 0 {
        '0'
    } else if d == 1 {
        '1'
    } else if d == 2 {
        '2'
    } else if d == 3 {
        '3'
    } else if d == 4 {
        '4'
    } else if d == 5 {
        '5'
    } else if d == 6 {
        '6'
    } else if d == 7 {
        '7'
    } else if d == 8 {
        '8'
    } else {
        '9'
    }
}

/// The decimal representation of a non-negative value, most significant
/// digit first, without leading zeros (a single `0` for zero).
pub open spec fn nat_dec_rep(n: int) -> Seq<char>
    decreases n,
{
    if n < 10 {
        seq![dec_digit_char(n)]
    } else {
        nat_dec_rep(n / 10).push(dec_digit_char(n % 10))
    }
}

/// The decimal representation of a signed value: a `-` before the
/// magnitude's digits for a negative value.
pub open spec fn i32_dec_rep(n: int) -> Seq<char> {
    if n < 0 {
        seq!['-'] + nat_dec_rep(-n)
    } else {
        nat_dec_rep(n)
    }
}

/// Appends one decimal digit character.
fn push_digit(s: &mut String, d: u64)
    requires
        d < 10,
    ensures
        final(s)@ == old(s)@.push(dec_digit_char(d as int)),
{
    let ghost before = s@;
    match d {
        0 => s.append("0"),
        1 => s.append("1"),
        2 => s.append("2"),
        3 => s.append("3"),
        4 => s.append("4"),
        5 => s.append("5"),
        6 => s.append("6"),
        7 => s.append("7"),
        8 => s.append("8"),
        _ => s.append("9"),
    }
    proof {
        reveal_strlit("0");
        reveal_strlit("1");
        reveal_strlit("2");
        reveal_strlit("3");
        reveal_strlit("4");
        reveal_strlit("5");
        reveal_strlit("6");
        reveal_strlit("7");
        reveal_strlit("8");
        reveal_strlit("9");
        assert(s@ =~= before.push(dec_digit_char(d as int)));
    }
}

/// Appends the decimal digits of a non-negative value.
fn push_nat_dec(s: &mut String, n: u64)
    ensures
        final(s)@ == old(s)@ + nat_dec_rep(n as int),
    decreases n,
{
    let ghost before = s@;
    if n < 10 {
        push_digit(s, n);
        proof {
            assert(s@ =~= before + nat_dec_rep(n as int));
        }
    } else {
        push_nat_dec(s, n / 10);
        push_digit(s, n % 10);
        proof {
            assert(s@ =~= before + nat_dec_rep(n as int));
        }
    }
}

/// Formats a signed 32-bit value in decimal, exactly as `i32_dec_rep`
/// writes it: the value's digits without leading zeros, behind a `-` when
/// it is negative.
pub fn i32_to_decimal(n: i32) -> (r: String)
    ensures
        r@ == i32_dec_rep(n as int),
{
    let mut s = String::new();
    let magnitude: u64 = if n < 0 {
        s.append("-");
        proof {
            reveal_strlit("-");
            assert(s@ =~= seq!['-']);
        }
        ((-(n as i64)) as u64)
    } else {
        (n as u64)
    };
    push_nat_dec(&mut s, magnitude);
    proof {
        if n < 0 {
            assert(s@ =~= i32_dec_rep(n as int));
        }
    }
    s
}

} // verus!
