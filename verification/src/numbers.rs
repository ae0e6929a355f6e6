//! Decimal reading of feed cells: numerals of an optional leading `+` and
//! digits, counter cells also allowing `.` as a thousands separator.

use vstd::prelude::*;
use vstd::string::StrSliceExecFns;

verus! {

/// A decimal digit.
pub open spec fn is_digit(c: char) -> bool {
    '0' <= c && c <= '9'
}

/// Every character of `s` is a decimal digit.
pub open spec fn all_digits(s: Seq<char>) -> bool {
    forall|i: int| 0 <= i < s.len() ==> is_digit(#[trigger] s[i])
}

/// The value of `s` read as a base-ten numeral.
pub open spec fn digits_val(s: Seq<char>) -> int
    decreases s.len(),
{
    if s.len() == 0 {
        0
    } else {
        digits_val(s.drop_last()) * 10 + (s.last() as int - '0' as int)
    }
}

/// The number a non-empty string of decimal digits denotes, when its
/// value fits in `u32`, and nothing else.
pub open spec fn spec_parse_digits(s: Seq<char>) -> Option<u32> {
    if s.len() > 0 && all_digits(s) && digits_val(s) <= u32::MAX {
        Some(digits_val(s) as u32)
    } else {
        None
    }
}

/// The digit part of a numeral: one optional leading `+` is dropped.
pub open spec fn numeral_digits(s: Seq<char>) -> Seq<char> {
    if s.len() > 0 && s[0] == '+' {
        s.drop_first()
    } else {
        s
    }
}

/// The number a cell denotes: an optional leading `+`, then a non-empty
/// string of decimal digits whose value fits in `u32`, and nothing else.
pub open spec fn spec_parse_u32(s: Seq<char>) -> Option<u32> {
    spec_parse_digits(numeral_digits(s))
}

/// `s` with every `.` removed and all other characters kept in order.
pub open spec fn strip_dots(s: Seq<char>) -> Seq<char>
    decreases s.len(),
{
    if s.len() == 0 {
        Seq::<char>::empty()
    } else if s.last() == '.' {
        strip_dots(s.drop_last())
    } else {
        strip_dots(s.drop_last()).push(s.last())
    }
}

/// What a counter cell denotes: its numeral after separator stripping.
pub open spec fn spec_parse_counter(s: Seq<char>) -> Option<u32> {
    spec_parse_u32(strip_dots(s))
}

pub proof fn lemma_digits_val_nonneg(s: Seq<char>)
    requires
        all_digits(s),
    ensures
        digits_val(s) >= 0,
    decreases s.len(),
{
    if s.len() > 0 {
        assert(all_digits(s.drop_last()));
        lemma_digits_val_nonneg(s.drop_last());
        assert(is_digit(s.last()));
    }
}

/// A numeral's value never drops when more digits are appended.
pub proof fn lemma_digits_val_prefix(s: Seq<char>, m: int)
    requires
        all_digits(s),
        0 <= m <= s.len(),
    ensures
        digits_val(s.take(m)) <= digits_val(s),
    decreases s.len() - m,
{
    if m == s.len() {
        assert(s.take(m) =~= s);
    } else {
        assert(s.take(m + 1).drop_last() =~= s.take(m));
        assert(s.take(m + 1).last() == s[m]);
        assert(all_digits(s.take(m)));
        lemma_digits_val_nonneg(s.take(m));
        assert(is_digit(s[m]));
        assert(digits_val(s.take(m + 1)) >= digits_val(s.take(m)));
        lemma_digits_val_prefix(s, m + 1);
    }
}

/// The characters of a string slice, in order.
pub fn chars_of(s: &str) -> (r: Vec<char>)
    ensures
        r@ == s@,
{
    let n: usize = s.unicode_len();
    let mut r: Vec<char> = Vec::new();
    let mut i: usize = 0;
    while i < n
        invariant
            i <= n,
            n == s@.len(),
            r@ == s@.take(i as int),
        decreases n - i,
    {
        let c: char = s.get_char(i);
        r.push(c);
        proof {
            assert(s@.take(i as int + 1) =~= s@.take(i as int).push(s@[i as int]));
        }
        i = i + 1;
    }
    proof {
        assert(s@.take(n as int) =~= s@);
    }
    r
}

/// The characters of a string slice with every `.` removed.
pub fn strip_dots_of(s: &str) -> (r: Vec<char>)
    ensures
        r@ == strip_dots(s@),
{
    let n: usize = s.unicode_len();
    let mut r: Vec<char> = Vec::new();
    let mut i: usize = 0;
    while i < n
        invariant
            i <= n,
            n == s@.len(),
            r@ == strip_dots(s@.take(i as int)),
        decreases n - i,
    {
        let c: char = s.get_char(i);
        proof {
            assert(s@.take(i as int + 1).drop_last() =~= s@.take(i as int));
            assert(s@.take(i as int + 1).last() == s@[i as int]);
        }
        if c != '.' {
            r.push(c);
        }
        i = i + 1;
    }
    proof {
        assert(s@.take(n as int) =~= s@);
    }
    r
}

/// Read a digit vector as a `u32`, exactly as `spec_parse_digits` says.
fn parse_digits_chars(v: &Vec<char>) -> (r: Option<u32>)
    ensures
        r == spec_parse_digits(v@),
{
    let n: usize = v.len();
    if n == 0 {
        return None;
    }
    let mut acc: u32 = 0;
    let mut i: usize = 0;
    while i < n
        invariant
            0 < n == v@.len(),
            i <= n,
            all_digits(v@.take(i as int)),
            acc == digits_val(v@.take(i as int)),
        decreases n - i,
    {
        let c: char = v[i];
        if c < '0' || '9' < c {
            proof {
                assert(!is_digit(v@[i as int]));
            }
            return None;
        }
        proof {
            assert(v@.take(i as int + 1).drop_last() =~= v@.take(i as int));
            assert(v@.take(i as int + 1).last() == v@[i as int]);
            assert(all_digits(v@.take(i as int + 1)));
        }
        let wide: u64 = (acc as u64) * 10 + ((c as u64) - ('0' as u64));
        if wide > (u32::MAX as u64) {
            proof {
                if all_digits(v@) {
                    lemma_digits_val_prefix(v@, i as int + 1);
                }
            }
            return None;
        }
        acc = wide as u32;
        i = i + 1;
    }
    proof {
        assert(v@.take(n as int) =~= v@);
    }
    Some(acc)
}

/// Read a character vector as a `u32`, exactly as `spec_parse_u32` says:
/// one leading `+` is allowed before the digits.
pub fn parse_u32_chars(v: &Vec<char>) -> (r: Option<u32>)
    ensures
        r == spec_parse_u32(v@),
{
    let n: usize = v.len();
    let start: usize = if n > 0 && v[0] == '+' {
        1
    } else {
        0
    };
    let ghost off = start as int;
    proof {
        assert(numeral_digits(v@) =~= v@.subrange(off, n as int));
        assert(Seq::<char>::empty() =~= v@.subrange(off, off));
    }
    let mut ds: Vec<char> = Vec::new();
    let mut i: usize = start;
    while i < n
        invariant
            0 <= off <= i <= n,
            n == v@.len(),
            ds@ == v@.subrange(off, i as int),
        decreases n - i,
    {
        let c: char = v[i];
        ds.push(c);
        proof {
            assert(v@.subrange(off, i as int + 1) =~= v@.subrange(off, i as int).push(
                v@[i as int],
            ));
        }
        i = i + 1;
    }
    parse_digits_chars(&ds)
}

/// Read a string slice as a `u32`, exactly as `spec_parse_u32` says.
pub fn parse_u32_str(s: &str) -> (r: Option<u32>)
    ensures
        r == spec_parse_u32(s@),
{
    let cs: Vec<char> = chars_of(s);
    parse_u32_chars(&cs)
}

/// Read a counter cell: strip `.` separators, then read the numeral.
pub fn parse_counter_str(s: &str) -> (r: Option<u32>)
    ensures
        r == spec_parse_counter(s@),
{
    let cs: Vec<char> = strip_dots_of(s);
    parse_u32_chars(&cs)
}

} // verus!
