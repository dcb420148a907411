//! Scanning a character buffer: finding a separator and reading a numeral.
use vstd::prelude::*;
use crate::text::{
    all_digits, digit_value, find_char, is_digit, is_numeral, lemma_find_char_at,
    lemma_find_char_none, lemma_numeral_prefix, lemma_numeral_push, numeral_value,
};

verus! {

/// The value of `s` when it is a numeral that fits in a `u64`.
pub open spec fn numeral_u64(s: Seq<char>) -> Option<nat> {
    if is_numeral(s) && numeral_value(s) <= u64::MAX {
        Some(numeral_value(s))
    } else {
        None
    }
}

/// The index of the first `c` in `cs[lo..hi]`, or `hi` when there is none.
pub fn find_in(cs: &[char], lo: usize, hi: usize, c: char) -> (r: usize)
    requires
        lo <= hi <= cs@.len(),
    ensures
        lo <= r <= hi,
        r < hi ==> find_char(cs@.subrange(lo as int, hi as int), c) == Some(r - lo),
        r == hi ==> find_char(cs@.subrange(lo as int, hi as int), c) is None,
{
    let mut i = lo;
    while i < hi
        invariant
            lo <= i <= hi <= cs@.len(),
            forall|j: int| lo <= j < i ==> cs@[j] != c,
        decreases hi - i,
    {
        if cs[i] == c {
            let ghost sub = cs@.subrange(lo as int, hi as int);
            proof {
                assert forall|j: int| 0 <= j < i - lo implies sub[j] != c by {
                    assert(sub[j] == cs@[lo + j]);
                }
                lemma_find_char_at(sub, c, i - lo);
            }
            return i;
        }
        i = i + 1;
    }
    proof {
        let sub = cs@.subrange(lo as int, hi as int);
        assert forall|j: int| 0 <= j < sub.len() implies sub[j] != c by {
            assert(sub[j] == cs@[lo + j]);
        }
        lemma_find_char_none(sub, c);
    }
    hi
}

/// Reads `cs[lo..hi]` as a decimal numeral; `None` when it is empty, holds
/// another character, or does not fit in a `u64`.
pub fn parse_u64(cs: &[char], lo: usize, hi: usize) -> (r: Option<u64>)
    requires
        lo <= hi <= cs@.len(),
    ensures
        match r {
            Some(v) => numeral_u64(cs@.subrange(lo as int, hi as int)) == Some(v as nat),
            None => numeral_u64(cs@.subrange(lo as int, hi as int)) is None,
        },
{
    let ghost s = cs@.subrange(lo as int, hi as int);
    if lo == hi {
        return None;
    }
    let mut acc: u64 = 0;
    let mut i = lo;
    while i < hi
        invariant
            lo <= i <= hi <= cs@.len(),
            s == cs@.subrange(lo as int, hi as int),
            all_digits(s.take(i - lo)),
            acc as nat == numeral_value(s.take(i - lo)),
        decreases hi - i,
    {
        let c = cs[i];
        proof {
            assert(s.take(i - lo + 1) =~= s.take(i - lo).push(c));
            lemma_numeral_push(s.take(i - lo), c);
        }
        if !('0' <= c && c <= '9') {
            assert(!is_digit(s[i - lo]));
            return None;
        }
        let d: u64 = (c as u32 - '0' as u32) as u64;
        assert(d as nat == digit_value(c));
        if acc > (u64::MAX - d) / 10 {
            proof {
                lemma_numeral_prefix(s, i - lo + 1);
            }
            return None;
        }
        acc = acc * 10 + d;
        i = i + 1;
    }
    assert(s.take(i - lo) =~= s);
    Some(acc)
}

} // verus!
