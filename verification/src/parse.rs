//! Parsing of textual number pairs: a string of the shape
//! `"<left><sep><right>"` is split at the first occurrence of the
//! separator, and each half is read as a decimal integer. Any deviation
//! (no separator, an empty half, stray characters, a value out of range)
//! yields no value rather than an error.
use vstd::prelude::*;
use vstd::string::StrSliceExecFns;
use vstd::string::StringExecFns;

verus! {

/// `i` is the position of the first occurrence of `sep` in `s`.
pub open spec fn is_first_sep(s: Seq<char>, sep: char, i: int) -> bool {
    &&& 0 <= i < s.len()
    &&& s[i] == sep
    &&& forall|j: int| 0 <= j < i ==> s[j] != sep
}

/// The two halves of `s` around the first occurrence of `sep`, or nothing
/// when `sep` does not occur. The separator itself belongs to neither half.
pub open spec fn spec_split(s: Seq<char>, sep: char) -> Option<(Seq<char>, Seq<char>)> {
    if exists|i: int| is_first_sep(s, sep, i) {
        let i = choose|i: int| is_first_sep(s, sep, i);
        Some((s.take(i), s.skip(i + 1)))
    } else {
        None
    }
}

/// A string has at most one first occurrence of a separator.
proof fn lemma_first_sep_unique(s: Seq<char>, sep: char, i: int, j: int)
    requires
        is_first_sep(s, sep, i),
        is_first_sep(s, sep, j),
    ensures
        i == j,
{
    if i < j {
        assert(s[i] != sep);
    } else if j < i {
        assert(s[j] != sep);
    }
}

/// `c` is an ASCII decimal digit.
pub open spec fn is_dec_digit(c: char) -> bool {
    48 <= c as int <= 57
}

/// The numeric value of one decimal digit.
pub open spec fn digit_val(c: char) -> nat {
    (c as int - 48) as nat
}

/// Every character of `s` is a decimal digit.
pub open spec fn all_digits(s: Seq<char>) -> bool {
    forall|i: int| 0 <= i < s.len() ==> is_dec_digit(s[i])
}

/// The value of a sequence of decimal digits, most significant first.
pub open spec fn dec_val(s: Seq<char>) -> nat
    decreases s.len(),
{
    if s.len() == 0 {
        0
    } else {
        dec_val(s.drop_last()) * 10 + digit_val(s.last())
    }
}

/// The value of a run of digits under a sign, as a 32-bit integer, or
/// nothing when the run is empty, holds a non-digit, or overflows.
pub open spec fn spec_parse_signed(neg: bool, digits: Seq<char>) -> Option<i32> {
    if digits.len() > 0 && all_digits(digits) {
        if neg && dec_val(digits) <= 0x8000_0000 {
            Some((-(dec_val(digits) as int)) as i32)
        } else if !neg && dec_val(digits) <= 0x7fff_ffff {
            Some(dec_val(digits) as i32)
        } else {
            None
        }
    } else {
        None
    }
}

/// What a decimal 32-bit integer literal denotes: an optional single `+`
/// or `-` sign followed by one or more digits, rejecting anything else and
/// any value outside the type's range.
pub open spec fn spec_parse_i32(s: Seq<char>) -> Option<i32> {
    if s.len() > 0 && (s[0] == '-' || s[0] == '+') {
        spec_parse_signed(s[0] == '-', s.skip(1))
    } else {
        spec_parse_signed(false, s)
    }
}

/// Both halves of `s` around the first `sep`, each read as a decimal
/// 32-bit integer; nothing when the separator is missing or either half
/// fails to parse.
pub open spec fn spec_parse_pair_i32(s: Seq<char>, sep: char) -> Option<(i32, i32)> {
    match spec_split(s, sep) {
        Some(halves) => match (spec_parse_i32(halves.0), spec_parse_i32(halves.1)) {
            (Some(a), Some(b)) => Some((a, b)),
            _ => None,
        },
        None => None,
    }
}

/// Appending one more digit multiplies the value by ten and adds the
/// digit, so the value never shrinks.
proof fn lemma_dec_val_push(s: Seq<char>, c: char)
    ensures
        dec_val(s.push(c)) == dec_val(s) * 10 + digit_val(c),
{
    assert(s.push(c).drop_last() =~= s);
    assert(s.push(c).last() == c);
}

/// Splits `s` at the first occurrence of `sep`, handing back owned copies
/// of the two halves, or nothing when `sep` does not occur in `s`.
pub fn split_pair(s: &str, sep: char) -> (r: Option<(String, String)>)
    ensures
        match r {
            Some(halves) => spec_split(s@, sep) == Some((halves.0@, halves.1@)),
            None => spec_split(s@, sep) is None,
        },
{
    let n: usize = s.unicode_len();
    let mut i: usize = 0;
    while i < n
        invariant
            i <= n,
            n == s@.len(),
            forall|j: int| 0 <= j < i ==> s@[j] != sep,
        decreases n - i,
    {
        if s.get_char(i) == sep {
            let left = s.substring_char(0, i);
            let right = s.substring_char(i + 1, n);
            proof {
                assert(is_first_sep(s@, sep, i as int));
                let w = choose|k: int| is_first_sep(s@, sep, k);
                lemma_first_sep_unique(s@, sep, w, i as int);
                assert(left@ =~= s@.take(i as int));
                assert(right@ =~= s@.skip(i as int + 1));
            }
            return Some((String::from_str(left), String::from_str(right)));
        }
        i += 1;
    }
    None
}

/// Reads `s` as a decimal 32-bit integer: an optional leading `+` or `-`,
/// then one or more digits; anything else, and any value outside the
/// type's range, gives nothing.
pub fn parse_i32(s: &str) -> (r: Option<i32>)
    ensures
        r == spec_parse_i32(s@),
{
    let n: usize = s.unicode_len();
    let mut neg: bool = false;
    let mut start: usize = 0;
    if n > 0 {
        let c0 = s.get_char(0);
        if c0 == '-' {
            neg = true;
            start = 1;
        } else if c0 == '+' {
            start = 1;
        }
    }
    proof {
        if start == 1 {
            assert(s@.skip(1) =~= s@.subrange(1, n as int));
        } else {
            assert(s@ =~= s@.subrange(0, n as int));
        }
    }
    if start == n {
        return None;
    }
    let ghost digits = s@.subrange(start as int, n as int);
    let mut acc: u64 = 0;
    let mut big: bool = false;
    let mut k: usize = start;
    while k < n
        invariant
            start <= k <= n,
            n == s@.len(),
            digits == s@.subrange(start as int, n as int),
            digits.len() > 0,
            spec_parse_i32(s@) == spec_parse_signed(neg, digits),
            all_digits(s@.subrange(start as int, k as int)),
            !big ==> acc == dec_val(s@.subrange(start as int, k as int)) && acc <= 0x8000_0000,
            big ==> dec_val(s@.subrange(start as int, k as int)) > 0x8000_0000,
        decreases n - k,
    {
        let c = s.get_char(k);
        let cu: u32 = c as u32;
        if cu < 48 || cu > 57 {
            proof {
                assert(digits[k as int - start as int] == s@[k as int]);
                assert(!all_digits(digits));
            }
            return None;
        }
        let d: u32 = cu - 48;
        let ghost seen = s@.subrange(start as int, k as int);
        proof {
            assert(s@.subrange(start as int, k as int + 1) =~= seen.push(s@[k as int]));
            lemma_dec_val_push(seen, s@[k as int]);
        }
        if !big {
            acc = acc * 10 + (d as u64);
            if acc > 0x8000_0000 {
                big = true;
            }
        }
        k += 1;
    }
    if big {
        return None;
    }
    if neg {
        if acc == 0x8000_0000 {
            Some(i32::MIN)
        } else {
            Some(-(acc as i32))
        }
    } else {
        if acc <= 0x7fff_ffff {
            Some(acc as i32)
        } else {
            None
        }
    }
}

/// Splits `s` at the first `sep` and reads both halves as decimal 32-bit
/// integers; nothing unless the separator occurs and both halves parse.
pub fn parse_pair_i32(s: &str, sep: char) -> (r: Option<(i32, i32)>)
    ensures
        r == spec_parse_pair_i32(s@, sep),
{
    match split_pair(s, sep) {
        Some((left, right)) => match (parse_i32(left.as_str()), parse_i32(right.as_str())) {
            (Some(a), Some(b)) => Some((a, b)),
            _ => None,
        },
        None => None,
    }
}

} // verus!
