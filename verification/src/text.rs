//! Reading decimal integers and trimming white space, character by character.
//!
//! A line of input is handled as the sequence of its characters. The spec
//! functions here say which integer a run of characters writes; the
//! executable functions compute it on a `Vec<char>` and are proved to agree.

use vstd::prelude::*;

verus! {

/// The characters of `s`, in order.
pub fn chars_of(s: &str) -> (v: Vec<char>)
    ensures
        v@ == s@,
{
    let mut v: Vec<char> = Vec::new();
    for c in it: s.chars()
        invariant
            v@ == it.seq().take(it.index() as int),
            it.seq() == s@,
    {
        v.push(c);
    }
    v
}

/// Whether `c` is one of the ten decimal digits.
pub open spec fn is_digit(c: char) -> bool {
    48 <= c as u32 <= 57
}

/// The number that the digit `c` stands for.
pub open spec fn digit_value(c: char) -> int {
    c as u32 - 48
}

/// Whether `s` is made of decimal digits only. The empty sequence is.
pub open spec fn all_digits(s: Seq<char>) -> bool {
    forall|i: int| 0 <= i < s.len() ==> is_digit(#[trigger] s[i])
}

/// The number written by the digits `s`, most significant first.
pub open spec fn digits_value(s: Seq<char>) -> int
    decreases s.len(),
{
    if s.len() == 0 {
        0
    } else {
        10 * digits_value(s.drop_last()) + digit_value(s.last())
    }
}

/// A longer run of digits never writes a smaller number than its beginning.
pub proof fn lemma_digits_value_grows(s: Seq<char>, i: int, j: int)
    requires
        all_digits(s),
        0 <= i <= j <= s.len(),
    ensures
        0 <= digits_value(s.take(i)) <= digits_value(s.take(j)),
    decreases j - i, i,
{
    if i < j {
        lemma_digits_value_grows(s, i, j - 1);
        assert(s.take(j).drop_last() == s.take(j - 1));
        assert(is_digit(s[j - 1]));
        assert(s.take(j).last() == s[j - 1]);
    } else if i > 0 {
        lemma_digits_value_grows(s, i - 1, i - 1);
        assert(s.take(i).drop_last() == s.take(i - 1));
        assert(is_digit(s[i - 1]));
        assert(s.take(i).last() == s[i - 1]);
    } else {
        assert(s.take(0).len() == 0);
    }
}

/// The number written by `v[lo..hi]` when that range is a non-empty run of
/// digits and the number fits in a `u64`.
pub fn read_digits(v: &Vec<char>, lo: usize, hi: usize) -> (r: Option<u64>)
    requires
        lo <= hi <= v.len(),
    ensures
        r is Some <==> lo < hi && all_digits(v@.subrange(lo as int, hi as int)) && digits_value(
            v@.subrange(lo as int, hi as int),
        ) <= u64::MAX,
        r is Some ==> r->0 == digits_value(v@.subrange(lo as int, hi as int)),
{
    if lo == hi {
        return None;
    }
    let ghost s = v@.subrange(lo as int, hi as int);
    let mut acc: u64 = 0;
    let mut i: usize = lo;
    while i < hi
        invariant
            lo <= i <= hi <= v.len(),
            s == v@.subrange(lo as int, hi as int),
            all_digits(s.take(i - lo)),
            acc == digits_value(s.take(i - lo)),
        decreases hi - i,
    {
        let c: char = v[i];
        let ghost k = i - lo;
        proof {
            assert(s[k] == c);
            assert(s.take(k + 1).drop_last() == s.take(k));
            assert(s.take(k + 1).last() == c);
        }
        let code: u32 = c as u32;
        if code < 48 || code > 57 {
            proof {
                assert(!is_digit(s[k]));
                assert(s.take(s.len() as int) == s);
            }
            return None;
        }
        let d: u64 = (code - 48) as u64;
        proof {
            assert forall|n: int| 0 <= n < k + 1 implies is_digit(#[trigger] s.take(k + 1)[n]) by {
                if n < k {
                    assert(s.take(k)[n] == s.take(k + 1)[n]);
                }
            }
        }
        let next: Option<u64> = match acc.checked_mul(10) {
            Some(m) => m.checked_add(d),
            None => None,
        };
        match next {
            Some(n) => {
                acc = n;
            },
            None => {
                proof {
                    assert(digits_value(s.take(k + 1)) > u64::MAX);
                    if all_digits(s) {
                        lemma_digits_value_grows(s, k + 1, s.len() as int);
                    }
                    assert(s.take(s.len() as int) == s);
                }
                return None;
            },
        }
        i = i + 1;
    }
    proof {
        assert(s.take(s.len() as int) == s);
    }
    Some(acc)
}

/// The unsigned 64-bit integer that `s` writes in decimal: an optional `+`,
/// then one digit or more, the number within range. `None` for anything else.
pub open spec fn unsigned_of(s: Seq<char>) -> Option<u64> {
    let body = if s.len() > 0 && s[0] == '+' {
        s.skip(1)
    } else {
        s
    };
    if body.len() > 0 && all_digits(body) && digits_value(body) <= u64::MAX {
        Some(digits_value(body) as u64)
    } else {
        None
    }
}

/// The signed 64-bit integer that `s` writes in decimal: an optional `+` or
/// `-`, then one digit or more, the number within range. `None` for anything
/// else.
pub open spec fn signed_of(s: Seq<char>) -> Option<i64> {
    let signed = s.len() > 0 && (s[0] == '+' || s[0] == '-');
    let body = if signed {
        s.skip(1)
    } else {
        s
    };
    let value = if signed && s[0] == '-' {
        -digits_value(body)
    } else {
        digits_value(body)
    };
    if body.len() > 0 && all_digits(body) && i64::MIN <= value <= i64::MAX {
        Some(value as i64)
    } else {
        None
    }
}

/// Reads `v[lo..hi]` as an unsigned 64-bit integer.
pub fn read_unsigned(v: &Vec<char>, lo: usize, hi: usize) -> (r: Option<u64>)
    requires
        lo <= hi <= v.len(),
    ensures
        r == unsigned_of(v@.subrange(lo as int, hi as int)),
{
    let ghost s = v@.subrange(lo as int, hi as int);
    if lo < hi && v[lo] == '+' {
        proof {
            assert(s[0] == '+');
            assert(s.skip(1) == v@.subrange(lo + 1, hi as int));
        }
        read_digits(v, lo + 1, hi)
    } else {
        proof {
            if lo < hi {
                assert(s[0] == v[lo as int]);
            }
        }
        read_digits(v, lo, hi)
    }
}

/// Reads `v[lo..hi]` as a signed 64-bit integer.
pub fn read_signed(v: &Vec<char>, lo: usize, hi: usize) -> (r: Option<i64>)
    requires
        lo <= hi <= v.len(),
    ensures
        r == signed_of(v@.subrange(lo as int, hi as int)),
{
    let ghost s = v@.subrange(lo as int, hi as int);
    let negative: bool = lo < hi && v[lo] == '-';
    let signed: bool = negative || (lo < hi && v[lo] == '+');
    proof {
        if lo < hi {
            assert(s[0] == v[lo as int]);
        }
    }
    let magnitude: Option<u64> = if signed {
        proof {
            assert(s.skip(1) == v@.subrange(lo + 1, hi as int));
        }
        read_digits(v, lo + 1, hi)
    } else {
        read_digits(v, lo, hi)
    };
    match magnitude {
        None => None,
        Some(m) => {
            if negative {
                if m <= 0x7fff_ffff_ffff_ffff {
                    Some(-(m as i64))
                } else if m == 0x8000_0000_0000_0000 {
                    Some(i64::MIN)
                } else {
                    None
                }
            } else if m <= 0x7fff_ffff_ffff_ffff {
                Some(m as i64)
            } else {
                None
            }
        },
    }
}


/// Whether `c` is white space: the characters to which Unicode gives the
/// property `White_Space`.
pub open spec fn spec_is_whitespace(c: char) -> bool {
    let u = c as u32;
    ||| 0x09 <= u <= 0x0d
    ||| u == 0x20
    ||| u == 0x85
    ||| u == 0xa0
    ||| u == 0x1680
    ||| 0x2000 <= u <= 0x200a
    ||| u == 0x2028
    ||| u == 0x2029
    ||| u == 0x202f
    ||| u == 0x205f
    ||| u == 0x3000
}

/// Tells whether `c` is white space.
#[verifier::when_used_as_spec(spec_is_whitespace)]
pub fn is_whitespace(c: char) -> (b: bool)
    ensures
        b == spec_is_whitespace(c),
{
    let u: u32 = c as u32;
    (0x09 <= u && u <= 0x0d) || u == 0x20 || u == 0x85 || u == 0xa0 || u == 0x1680 || (0x2000 <= u
        && u <= 0x200a) || u == 0x2028 || u == 0x2029 || u == 0x202f || u == 0x205f || u == 0x3000
}

/// `s` without the white space it begins with.
pub open spec fn trim_start(s: Seq<char>) -> Seq<char>
    decreases s.len(),
{
    if s.len() > 0 && spec_is_whitespace(s.first()) {
        trim_start(s.drop_first())
    } else {
        s
    }
}

/// `s` without the white space it ends with.
pub open spec fn trim_end(s: Seq<char>) -> Seq<char>
    decreases s.len(),
{
    if s.len() > 0 && spec_is_whitespace(s.last()) {
        trim_end(s.drop_last())
    } else {
        s
    }
}

/// `s` without the white space at either end.
pub open spec fn trimmed(s: Seq<char>) -> Seq<char> {
    trim_end(trim_start(s))
}

/// The bounds of `v` without the white space at either end.
pub fn trim_bounds(v: &Vec<char>) -> (r: (usize, usize))
    ensures
        r.0 <= r.1 <= v.len(),
        v@.subrange(r.0 as int, r.1 as int) == trimmed(v@),
{
    let n: usize = v.len();
    let mut lo: usize = 0;
    proof {
        assert(v@.subrange(0, n as int) == v@);
    }
    while lo < n && is_whitespace(v[lo])
        invariant
            lo <= n == v.len(),
            trim_start(v@) == trim_start(v@.subrange(lo as int, n as int)),
        decreases n - lo,
    {
        proof {
            let t = v@.subrange(lo as int, n as int);
            assert(t.first() == v[lo as int]);
            assert(t.drop_first() == v@.subrange(lo + 1, n as int));
        }
        lo = lo + 1;
    }
    proof {
        let t = v@.subrange(lo as int, n as int);
        if lo < n {
            assert(t.first() == v[lo as int]);
        }
        assert(trim_start(v@) == t);
    }
    let mut hi: usize = n;
    while lo < hi && is_whitespace(v[hi - 1])
        invariant
            lo <= hi <= n == v.len(),
            trimmed(v@) == trim_end(v@.subrange(lo as int, hi as int)),
        decreases hi - lo,
    {
        proof {
            let t = v@.subrange(lo as int, hi as int);
            assert(t.last() == v[hi - 1]);
            assert(t.drop_last() == v@.subrange(lo as int, hi - 1));
        }
        hi = hi - 1;
    }
    proof {
        let t = v@.subrange(lo as int, hi as int);
        if lo < hi {
            assert(t.last() == v[hi - 1]);
        }
    }
    (lo, hi)
}

/// Where the first tab of `s` stands, `s.len()` if it has none.
pub open spec fn first_tab(s: Seq<char>) -> int
    decreases s.len(),
{
    if s.len() == 0 || s.first() == '\t' {
        0
    } else {
        1 + first_tab(s.drop_first())
    }
}

/// `first_tab` is the least index that holds a tab.
pub proof fn lemma_first_tab(s: Seq<char>, k: int)
    requires
        0 <= k <= s.len(),
        forall|j: int| 0 <= j < k ==> s[j] != '\t',
        k < s.len() ==> s[k] == '\t',
    ensures
        first_tab(s) == k,
    decreases s.len(),
{
    if k > 0 {
        let t = s.drop_first();
        assert(s.first() == s[0]);
        assert forall|j: int| 0 <= j < k - 1 implies t[j] != '\t' by {
            assert(t[j] == s[j + 1]);
        }
        lemma_first_tab(t, k - 1);
    } else if s.len() > 0 {
        assert(s.first() == s[0]);
    }
}

/// The index of the first tab in `v[lo..hi]`, `hi` if there is none.
pub fn find_tab(v: &Vec<char>, lo: usize, hi: usize) -> (k: usize)
    requires
        lo <= hi <= v.len(),
    ensures
        lo <= k <= hi,
        k - lo == first_tab(v@.subrange(lo as int, hi as int)),
{
    let ghost s = v@.subrange(lo as int, hi as int);
    let mut k: usize = lo;
    while k < hi && v[k] != '\t'
        invariant
            lo <= k <= hi <= v.len(),
            s == v@.subrange(lo as int, hi as int),
            forall|j: int| 0 <= j < k - lo ==> s[j] != '\t',
        decreases hi - k,
    {
        proof {
            assert(s[k - lo] == v[k as int]);
        }
        k = k + 1;
    }
    proof {
        if k < hi {
            assert(s[k - lo] == v[k as int]);
        }
        lemma_first_tab(s, k - lo);
    }
    k
}


} // verus!
