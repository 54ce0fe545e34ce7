//! Decimal id strings: record identifiers travel as text, so the library
//! pins down exactly which strings denote an id and how an id is rendered.

use vstd::prelude::*;
use vstd::string::*;

verus! {

/// The character is one of the ten ASCII decimal digits.
pub open spec fn is_dec_digit(c: char) -> bool {
    ('0' as u32) <= (c as u32) && (c as u32) <= ('9' as u32)
}

/// The numeric value of a decimal digit character.
pub open spec fn dec_digit_val(c: char) -> int {
    (c as u32) - ('0' as u32)
}

/// Every character of the sequence is a decimal digit.
pub open spec fn all_dec_digits(s: Seq<char>) -> bool {
    forall|i: int| 0 <= i < s.len() ==> is_dec_digit(#[trigger] s[i])
}

/// The value of a digit string read in base ten.
pub open spec fn dec_val(s: Seq<char>) -> int
    decreases s.len(),
{
    if s.len() == 0 {
        0
    } else {
        dec_val(s.drop_last()) * 10 + dec_digit_val(s.last())
    }
}

/// Which strings denote a record id, and which id each denotes: an optional
/// leading minus sign followed by one or more decimal digits, whose value
/// fits in a 32-bit signed integer. Anything else denotes no id.
pub open spec fn spec_parse_id(s: Seq<char>) -> Option<i32> {
    if s.len() > 0 && s[0] == '-' {
        let mag = s.subrange(1, s.len() as int);
        if mag.len() > 0 && all_dec_digits(mag) && dec_val(mag) <= 2147483648 {
            Some((-dec_val(mag)) as i32)
        } else {
            None
        }
    } else {
        if s.len() > 0 && all_dec_digits(s) && dec_val(s) <= 2147483647 {
            Some(dec_val(s) as i32)
        } else {
            None
        }
    }
}

/// The digit character for a value below ten.
pub open spec fn dec_digit_char(d: int) -> char {
    if d == 0 {
        '0'
    } else if d == 1 {
        '1'
    } else if d == 2 {
        '2'
    } else if d == 3 {
        '3'
    } else if d == 4 {
        '4'
    } else if d == 5 {
        '5'
    } else if d == 6 {
        '6'
    } else if d == 7 {
        '7'
    } else if d == 8 {
        '8'
    } else {
        '9'
    }
}

/// The canonical decimal rendering of a natural number: no sign, no leading
/// zeros (except for zero itself).
pub open spec fn spec_dec_string(n: nat) -> Seq<char>
    decreases n,
{
    if n < 10 {
        seq![dec_digit_char(n as int)]
    } else {
        spec_dec_string(n / 10).push(dec_digit_char((n % 10) as int))
    }
}

/// A digit string never has a negative value.
proof fn lemma_dec_val_nonneg(s: Seq<char>)
    requires
        all_dec_digits(s),
    ensures
        dec_val(s) >= 0,
    decreases s.len(),
{
    if s.len() > 0 {
        let t = s.drop_last();
        assert(all_dec_digits(t)) by {
            assert(forall|i: int| 0 <= i < t.len() ==> t[i] == s[i]);
        }
        lemma_dec_val_nonneg(t);
    }
}

/// Reading more digits never shrinks the value: the value of a prefix is a
/// lower bound for the value of the whole digit string.
proof fn lemma_dec_val_prefix_le(s: Seq<char>, i: int)
    requires
        0 <= i <= s.len(),
        all_dec_digits(s),
    ensures
        dec_val(s.subrange(0, i)) <= dec_val(s),
    decreases s.len(),
{
    if i == s.len() {
        assert(s.subrange(0, i) =~= s);
    } else {
        let t = s.drop_last();
        assert(all_dec_digits(t)) by {
            assert(forall|j: int| 0 <= j < t.len() ==> t[j] == s[j]);
        }
        assert(s.subrange(0, i) =~= t.subrange(0, i));
        lemma_dec_val_prefix_le(t, i);
        lemma_dec_val_nonneg(t);
    }
}

/// Turns a string into the record id it denotes, or `None` where it denotes
/// no id (empty, a stray character, or a value outside the 32-bit range).
pub fn parse_id(s: &str) -> (r: Option<i32>)
    ensures
        r == spec_parse_id(s@),
{
    let n = s.unicode_len();
    if n == 0 {
        return None;
    }
    let negative = s.get_char(0) == '-';
    let start: usize = if negative {
        1
    } else {
        0
    };
    if start == n {
        return None;
    }
    let bound: u64 = if negative {
        2147483648
    } else {
        2147483647
    };
    let ghost digits: Seq<char> = if negative {
        s@.subrange(1, s@.len() as int)
    } else {
        s@
    };
    let mut acc: u64 = 0;
    let mut i: usize = start;
    while i < n
        invariant
            start <= i <= n,
            n == s@.len(),
            start == (if negative { 1int } else { 0int }),
            bound == (if negative { 2147483648u64 } else { 2147483647u64 }),
            negative ==> s@[0] == '-',
            !negative ==> !(s@.len() > 0 && s@[0] == '-'),
            start < n,
            digits == (if negative {
                s@.subrange(1, s@.len() as int)
            } else {
                s@
            }),
            all_dec_digits(digits.subrange(0, i - start)),
            acc == dec_val(digits.subrange(0, i - start)),
            acc <= bound,
        decreases n - i,
    {
        let c = s.get_char(i);
        let v = c as u32;
        if v < 48 || v > 57 {
            proof {
                assert(digits[i - start] == c);
                assert(!is_dec_digit(c));
                assert(!all_dec_digits(digits));
            }
            return None;
        }
        let d = (v - 48) as u64;
        proof {
            let k = i - start;
            assert(digits.subrange(0, k + 1).drop_last() =~= digits.subrange(0, k));
            assert(digits.subrange(0, k + 1).last() == digits[k]);
            assert(digits[k] == c);
            assert(dec_digit_val(c) == d);
        }
        acc = acc * 10 + d;
        if acc > bound {
            proof {
                if all_dec_digits(digits) {
                    lemma_dec_val_prefix_le(digits, i + 1 - start);
                }
            }
            return None;
        }
        i += 1;
    }
    proof {
        assert(digits.subrange(0, n - start) =~= digits);
    }
    if negative {
        let signed: i64 = -(acc as i64);
        Some(signed as i32)
    } else {
        Some(acc as i32)
    }
}

/// The single-character string for a decimal digit.
fn dec_digit_str(d: u64) -> (r: &'static str)
    requires
        d < 10,
    ensures
        r@ =~= seq![dec_digit_char(d as int)],
{
    proof {
        reveal_strlit("0");
        reveal_strlit("1");
        reveal_strlit("2");
        reveal_strlit("3");
        reveal_strlit("4");
        reveal_strlit("5");
        reveal_strlit("6");
        reveal_strlit("7");
        reveal_strlit("8");
        reveal_strlit("9");
    }
    if d == 0 {
        "0"
    } else if d == 1 {
        "1"
    } else if d == 2 {
        "2"
    } else if d == 3 {
        "3"
    } else if d == 4 {
        "4"
    } else if d == 5 {
        "5"
    } else if d == 6 {
        "6"
    } else if d == 7 {
        "7"
    } else if d == 8 {
        "8"
    } else {
        "9"
    }
}

/// Renders a number as its canonical decimal string.
pub fn u64_to_dec(n: u64) -> (s: String)
    ensures
        s@ == spec_dec_string(n as nat),
    decreases n,
{
    if n < 10 {
        let s = dec_digit_str(n).to_owned();
        s
    } else {
        proof {
            assert(n / 10 < n) by (nonlinear_arith)
                requires
                    n >= 10,
            ;
        }
        let mut s = u64_to_dec(n / 10);
        s.append(dec_digit_str(n % 10));
        proof {
            assert(spec_dec_string((n / 10) as nat) + seq![dec_digit_char((n % 10) as int)]
                =~= spec_dec_string((n / 10) as nat).push(dec_digit_char((n % 10) as int)));
        }
        s
    }
}

/// The canonical decimal rendering of a signed number: a minus sign ahead
/// of the magnitude where it is negative.
pub open spec fn spec_dec_i64(n: int) -> Seq<char> {
    if n < 0 {
        seq!['-'] + spec_dec_string((-n) as nat)
    } else {
        spec_dec_string(n as nat)
    }
}

/// Renders a signed number as its canonical decimal string.
pub fn i64_to_dec(n: i64) -> (s: String)
    ensures
        s@ == spec_dec_i64(n as int),
        s@.len() >= 1,
{
    if n >= 0 {
        let s = u64_to_dec(n as u64);
        proof {
            lemma_dec_string_digits((n as u64) as nat);
        }
        s
    } else {
        let mag: u64 = if n == i64::MIN {
            9223372036854775808u64
        } else {
            (-n) as u64
        };
        proof {
            assert(mag as int == -(n as int));
        }
        let digit_part = u64_to_dec(mag);
        let mut s = String::from_str("-");
        s.append(digit_part.as_str());
        proof {
            reveal_strlit("-");
            assert("-"@ =~= seq!['-']);
            lemma_dec_string_digits(mag as nat);
            assert(s@ =~= seq!['-'] + spec_dec_string((-(n as int)) as nat));
        }
        s
    }
}

/// The canonical rendering really is a digit string, and reading it back
/// gives the number it was made from.
pub proof fn lemma_dec_string_digits(n: nat)
    ensures
        spec_dec_string(n).len() >= 1,
        all_dec_digits(spec_dec_string(n)),
        dec_val(spec_dec_string(n)) == n,
    decreases n,
{
    if n < 10 {
        let s = spec_dec_string(n);
        assert(s.drop_last() =~= Seq::<char>::empty());
        assert(is_dec_digit(dec_digit_char(n as int)));
        assert(dec_digit_val(dec_digit_char(n as int)) == n);
        assert(s.last() == dec_digit_char(n as int));
        assert(dec_val(s) == dec_val(s.drop_last()) * 10 + dec_digit_val(s.last()));
        assert(dec_val(s.drop_last()) == 0);
    } else {
        lemma_dec_string_digits(n / 10);
        let s = spec_dec_string(n);
        let t = spec_dec_string(n / 10);
        assert(s == t.push(dec_digit_char((n % 10) as int)));
        assert(s.drop_last() =~= t);
        assert(is_dec_digit(dec_digit_char((n % 10) as int)));
        assert(dec_digit_val(dec_digit_char((n % 10) as int)) == n % 10);
        assert(all_dec_digits(s)) by {
            assert(forall|i: int| 0 <= i < t.len() ==> s[i] == t[i]);
            assert(s[s.len() - 1] == dec_digit_char((n % 10) as int));
        }
        assert(s.last() == dec_digit_char((n % 10) as int));
        assert(dec_val(s) == dec_val(s.drop_last()) * 10 + dec_digit_val(s.last()));
        assert(dec_val(s) == dec_val(t) * 10 + (n % 10));
        assert(dec_val(t) == n / 10);
        assert((n / 10) * 10 + n % 10 == n) by (nonlinear_arith);
    }
}

/// Round trip: parsing the canonical rendering of an id gives that id back.
pub proof fn lemma_parse_dec_roundtrip(n: nat)
    requires
        n <= 2147483647,
    ensures
        spec_parse_id(spec_dec_string(n)) == Some(n as i32),
{
    lemma_dec_string_digits(n);
    let s = spec_dec_string(n);
    assert(is_dec_digit(s[0]));
    assert(s[0] != '-');
}

} // verus!
