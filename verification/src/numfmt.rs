//! Decimal formatting and defensive decimal parsing.
//!
//! Formatting is used for player counts, ports and iteration numbers in the
//! rendered and logged text.  Parsing is used for the numeric fields of the
//! Bedrock reply, which arrive as text: a field that does not parse yields
//! zero rather than an error.

use vstd::prelude::*;
use vstd::string::*;

verus! {

pub open spec fn is_dec_digit(c: char) -> bool {
    '0' <= c && c <= '9'
}

pub open spec fn digit_val(c: char) -> nat {
    (c as int - '0' as int) as nat
}

pub open spec fn char_of_digit(d: nat) -> char {
    if d == 0 {
        '0'
    } else if d == 1 {
        '1'
    } else if d == 2 {
        '2'
    } else if d == 3 {
        '3'
    } else if d == 4 {
        '4'
    } else if d == 5 {
        '5'
    } else if d == 6 {
        '6'
    } else if d == 7 {
        '7'
    } else if d == 8 {
        '8'
    } else {
        '9'
    }
}

pub open spec fn all_dec_digits(s: Seq<char>) -> bool {
    forall|i: int| 0 <= i < s.len() ==> is_dec_digit(#[trigger] s[i])
}

/// The value of a string of decimal digits, most significant first.
pub open spec fn dec_val(s: Seq<char>) -> nat
    decreases s.len(),
{
    if s.len() == 0 {
        0
    } else {
        dec_val(s.drop_last()) * 10 + digit_val(s.last())
    }
}

/// The canonical decimal rendering of a natural number.
pub open spec fn dec_str(n: nat) -> Seq<char>
    decreases n,
{
    if n < 10 {
        seq![char_of_digit(n)]
    } else {
        dec_str(n / 10).push(char_of_digit(n % 10))
    }
}

/// The canonical decimal rendering of an integer, with a leading minus sign
/// when negative.
pub open spec fn dec_str_i64(v: int) -> Seq<char> {
    if v < 0 {
        seq!['-'] + dec_str((-v) as nat)
    } else {
        dec_str(v as nat)
    }
}

/// What `i64` decimal parsing accepts: an optional sign, then at least one
/// digit, with the value in range.
pub open spec fn parse_i64(s: Seq<char>) -> Option<int> {
    if s.len() == 0 {
        None
    } else {
        let neg = s[0] == '-';
        let mag = if s[0] == '-' || s[0] == '+' {
            s.drop_first()
        } else {
            s
        };
        if mag.len() > 0 && all_dec_digits(mag) {
            let v: int = if neg {
                -(dec_val(mag) as int)
            } else {
                dec_val(mag) as int
            };
            if i64::MIN <= v <= i64::MAX {
                Some(v)
            } else {
                None
            }
        } else {
            None
        }
    }
}

/// Defensive parse: the parsed value, or zero where parsing fails.
pub open spec fn parse_i64_or_zero(s: Seq<char>) -> int {
    match parse_i64(s) {
        Some(v) => v,
        None => 0,
    }
}

/// A one-character string for a decimal digit.
fn digit_str(d: u64) -> (r: &'static str)
    requires
        d < 10,
    ensures
        r@ == seq![char_of_digit(d as nat)],
{
    proof {
        reveal_strlit("0");
        reveal_strlit("1");
        reveal_strlit("2");
        reveal_strlit("3");
        reveal_strlit("4");
        reveal_strlit("5");
        reveal_strlit("6");
        reveal_strlit("7");
        reveal_strlit("8");
        reveal_strlit("9");
    }
    let r = if d == 0 {
        "0"
    } else if d == 1 {
        "1"
    } else if d == 2 {
        "2"
    } else if d == 3 {
        "3"
    } else if d == 4 {
        "4"
    } else if d == 5 {
        "5"
    } else if d == 6 {
        "6"
    } else if d == 7 {
        "7"
    } else if d == 8 {
        "8"
    } else {
        "9"
    };
    proof {
        assert(r@ =~= seq![char_of_digit(d as nat)]);
    }
    r
}

/// Render a `u64` in decimal.
pub fn u64_to_dec(n: u64) -> (s: String)
    ensures
        s@ == dec_str(n as nat),
    decreases n,
{
    if n < 10 {
        String::from_str(digit_str(n))
    } else {
        let mut s = u64_to_dec(n / 10);
        s.append(digit_str(n % 10));
        s
    }
}

/// Render an `i64` in decimal, with a leading minus sign when negative.
pub fn i64_to_dec(v: i64) -> (s: String)
    ensures
        s@ == dec_str_i64(v as int),
{
    if v >= 0 {
        u64_to_dec(v as u64)
    } else {
        let m: u64 = ((-(v + 1)) as u64) + 1;
        assert(m as int == -(v as int));
        let mut s = String::from_str("-");
        let digits = u64_to_dec(m);
        s.append(digits.as_str());
        proof {
            reveal_strlit("-");
            assert("-"@ =~= seq!['-']);
        }
        s
    }
}

/// Parse a decimal `i64` from text, yielding zero where the text is not a
/// well-formed in-range number.
pub fn parse_or_zero(s: &str) -> (r: i64)
    ensures
        r as int == parse_i64_or_zero(s@),
{
    let n = s.unicode_len();
    if n == 0 {
        return 0;
    }
    let c0 = s.get_char(0);
    let neg = c0 == '-';
    let start: usize = if c0 == '-' || c0 == '+' {
        1
    } else {
        0
    };
    if start == n {
        return 0;
    }
    let ghost mag = if start == 1 {
        s@.drop_first()
    } else {
        s@
    };
    proof {
        assert(mag =~= s@.subrange(start as int, n as int));
    }
    let mut acc: u64 = 0;
    let mut over = false;
    let mut i: usize = start;
    while i < n
        invariant
            start <= i <= n,
            n == s@.len(),
            start < n,
            start == 0 || start == 1,
            (start == 1) <==> (s@[0] == '-' || s@[0] == '+'),
            neg <==> s@[0] == '-',
            mag == s@.subrange(start as int, n as int),
            mag == (if start == 1 {
                s@.drop_first()
            } else {
                s@
            }),
            forall|j: int| start <= j < i ==> is_dec_digit(#[trigger] s@[j]),
            !over ==> acc as nat == dec_val(s@.subrange(start as int, i as int)),
            over ==> dec_val(s@.subrange(start as int, i as int)) > u64::MAX,
        decreases n - i,
    {
        let c = s.get_char(i);
        if !('0' <= c && c <= '9') {
            proof {
                assert(mag[i as int - start as int] == s@[i as int]);
                assert(!is_dec_digit(mag[i as int - start as int]));
                assert(!all_dec_digits(mag));
                if start == 1 {
                    assert(s@[0] == '-' || s@[0] == '+');
                    assert(s@.drop_first() =~= mag);
                    assert(!all_dec_digits(s@.drop_first()));
                } else {
                    assert(!(s@[0] == '-' || s@[0] == '+'));
                    assert(!all_dec_digits(s@));
                }
                assert(parse_i64(s@) is None);
            }
            return 0;
        }
        let d: u64 = (c as u32 as u64) - ('0' as u32 as u64);
        assert(d as nat == digit_val(c));
        let ghost pre = s@.subrange(start as int, i as int);
        let ghost ext = s@.subrange(start as int, i as int + 1);
        proof {
            assert(ext.drop_last() =~= pre);
            assert(ext.last() == s@[i as int]);
            assert(dec_val(ext) == dec_val(pre) * 10 + digit_val(s@[i as int]));
        }
        if !over {
            match acc.checked_mul(10) {
                Some(t) => {
                    match t.checked_add(d) {
                        Some(t2) => {
                            acc = t2;
                        },
                        None => {
                            over = true;
                        },
                    }
                },
                None => {
                    over = true;
                },
            }
        }
        i += 1;
    }
    proof {
        assert(s@.subrange(start as int, n as int) =~= mag);
        assert(all_dec_digits(mag));
    }
    if over {
        proof {
            assert(dec_val(mag) > u64::MAX);
            assert(parse_i64(s@) is None);
        }
        return 0;
    }
    assert(acc as nat == dec_val(mag));
    if !neg {
        if acc <= 0x7fff_ffff_ffff_ffffu64 {
            acc as i64
        } else {
            0
        }
    } else {
        if acc < 0x8000_0000_0000_0000u64 {
            -(acc as i64)
        } else if acc == 0x8000_0000_0000_0000u64 {
            i64::MIN
        } else {
            0
        }
    }
}

} // verus!
