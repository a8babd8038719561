//! Reading whole numbers, as the standard library reads them from text: an
//! optional sign, then decimal digits and nothing else.

use vstd::prelude::*;
use vstd::string::StrSliceExecFns;

verus! {

/// The value of a decimal digit; none for any other character.
pub open spec fn digit(c: char) -> Option<nat> {
    if '0' <= c && c <= '9' {
        Some((c as int - '0' as int) as nat)
    } else {
        None
    }
}

/// The number that the digits of `s` write, the empty text writing zero;
/// none if `s` holds a character that is no digit.
pub open spec fn digits(s: Seq<char>) -> Option<nat>
    decreases s.len(),
{
    if s.len() == 0 {
        Some(0)
    } else {
        match (digits(s.drop_last()), digit(s.last())) {
            (Some(v), Some(d)) => Some(10 * v + d),
            _ => None,
        }
    }
}

/// The number that `s` writes: one digit at least, and digits only.
pub open spec fn number(s: Seq<char>) -> Option<nat> {
    if s.len() == 0 {
        None
    } else {
        digits(s)
    }
}

/// The number that `s` writes, which may begin with a plus sign.
pub open spec fn unsigned(s: Seq<char>) -> Option<nat> {
    if s.len() > 0 && s[0] == '+' {
        number(s.skip(1))
    } else {
        number(s)
    }
}

/// The number that `s` writes, which may begin with a plus or a minus sign.
pub open spec fn signed(s: Seq<char>) -> Option<int> {
    if s.len() > 0 && s[0] == '-' {
        match number(s.skip(1)) {
            Some(v) => Some(-(v as int)),
            None => None,
        }
    } else {
        match unsigned(s) {
            Some(v) => Some(v as int),
            None => None,
        }
    }
}

/// The digits of the head of a text write no more than the digits of the
/// whole, and are digits if those of the whole are.
pub proof fn lemma_digits_grow(s: Seq<char>, i: int)
    requires
        0 <= i <= s.len(),
    ensures
        digits(s) matches Some(v) ==> digits(s.take(i)) matches Some(u) && u <= v,
        digits(s.take(i)) is None ==> digits(s) is None,
    decreases s.len(),
{
    if i == s.len() {
        assert(s.take(i) =~= s);
    } else {
        assert(s.drop_last().take(i) =~= s.take(i));
        lemma_digits_grow(s.drop_last(), i);
    }
}

/// Whether two texts are the same.
pub fn same_text(a: &str, b: &str) -> (same: bool)
    ensures
        same == (a@ == b@),
{
    let n: usize = a.unicode_len();
    if n != b.unicode_len() {
        return false;
    }
    let mut i: usize = 0;
    while i < n
        invariant
            i <= n,
            n == a@.len(),
            n == b@.len(),
            forall|j: int| 0 <= j < i ==> a@[j] == b@[j],
        decreases n - i,
    {
        if a.get_char(i) != b.get_char(i) {
            return false;
        }
        i += 1;
    }
    assert(a@ =~= b@);
    true
}

/// The number that the characters `from .. to` of `s` write, if it is no
/// larger than `limit`.
fn scan_number(s: &str, from: usize, to: usize, limit: u64) -> (r: Option<u64>)
    requires
        from <= to <= s@.len(),
    ensures
        r == match number(s@.subrange(from as int, to as int)) {
            Some(v) => if v <= limit {
                Some(v as u64)
            } else {
                None
            },
            None => None::<u64>,
        },
{
    let ghost text = s@.subrange(from as int, to as int);
    if from == to {
        return None;
    }
    let mut value: u64 = 0;
    let mut i: usize = from;
    proof {
        assert(text.take(0) =~= Seq::<char>::empty());
    }
    while i < to
        invariant
            from <= i <= to <= s@.len(),
            text == s@.subrange(from as int, to as int),
            digits(text.take(i - from)) == Some(value as nat),
            value <= limit,
        decreases to - i,
    {
        let c: char = s.get_char(i);
        proof {
            assert(text.take(i - from + 1).drop_last() =~= text.take(i - from));
            assert(text.take(i - from + 1).last() == c);
            lemma_digits_grow(text, i - from + 1);
        }
        if !('0' <= c && c <= '9') {
            return None;
        }
        let d: u64 = (c as u32 - '0' as u32) as u64;
        let next: u128 = 10 * (value as u128) + d as u128;
        if next > limit as u128 {
            return None;
        }
        value = next as u64;
        i += 1;
    }
    proof {
        assert(text.take(to - from) =~= text);
    }
    Some(value)
}

/// Reads a number of the machine's word size, as `str::parse` does: digits,
/// with or without a plus sign before them; none if `s` is anything else or
/// the number does not fit.
pub fn parse_usize(s: &str) -> (r: Option<usize>)
    ensures
        r == match unsigned(s@) {
            Some(v) => if v <= usize::MAX {
                Some(v as usize)
            } else {
                None
            },
            None => None::<usize>,
        },
{
    let n: usize = s.unicode_len();
    let from: usize = if n > 0 && s.get_char(0) == '+' {
        1
    } else {
        0
    };
    proof {
        assert(s@.subrange(0, n as int) =~= s@);
        assert(s@.subrange(1, n as int) =~= s@.skip(1));
    }
    match scan_number(s, from, n, usize::MAX as u64) {
        Some(v) => Some(v as usize),
        None => None,
    }
}

/// Reads a number of 32 bits from the characters `from .. to` of `s`, as
/// `str::parse` does: digits, with or without a sign before them; none if
/// the text is anything else or the number does not fit.
pub fn parse_i32(s: &str, from: usize, to: usize) -> (r: Option<i32>)
    requires
        from <= to <= s@.len(),
    ensures
        r == match signed(s@.subrange(from as int, to as int)) {
            Some(v) => if i32::MIN <= v <= i32::MAX {
                Some(v as i32)
            } else {
                None
            },
            None => None::<i32>,
        },
{
    let ghost text = s@.subrange(from as int, to as int);
    proof {
        if from < to {
            assert(s@.subrange(from + 1, to as int) =~= text.skip(1));
        }
    }
    if from < to && s.get_char(from) == '-' {
        match scan_number(s, from + 1, to, 0x8000_0000) {
            Some(v) => Some((0 - v as i64) as i32),
            None => None,
        }
    } else {
        let start: usize = if from < to && s.get_char(from) == '+' {
            from + 1
        } else {
            from
        };
        match scan_number(s, start, to, 0x7fff_ffff) {
            Some(v) => Some(v as i32),
            None => None,
        }
    }
}

} // verus!
