//! Searching and splitting byte strings.
use vstd::prelude::*;

verus! {

pub open spec fn has_prefix(s: Seq<u8>, p: Seq<u8>) -> bool {
    p.len() <= s.len() && s.subrange(0, p.len() as int) == p
}

pub fn starts_with(s: &[u8], p: &[u8]) -> (r: bool)
    ensures
        r == has_prefix(s@, p@),
{
    if p.len() > s.len() {
        return false;
    }
    let mut i: usize = 0;
    while i < p.len()
        invariant
            p@.len() <= s@.len(),
            i <= p@.len(),
            forall|k: int| 0 <= k < i ==> s@[k] == p@[k],
        decreases p@.len() - i,
    {
        if s[i] != p[i] {
            assert(s@.subrange(0, p@.len() as int)[i as int] != p@[i as int]);
            return false;
        }
        i = i + 1;
    }
    assert(s@.subrange(0, p@.len() as int) =~= p@);
    true
}

/// The first position at or after `i` that holds `b`.
pub open spec fn byte_from(s: Seq<u8>, b: u8, i: int) -> Option<int>
    decreases s.len() - i,
{
    if i < 0 || i >= s.len() {
        None
    } else if s[i] == b {
        Some(i)
    } else {
        byte_from(s, b, i + 1)
    }
}

/// The first position at or after `i` where a carriage return is followed by a line feed.
pub open spec fn crlf_from(s: Seq<u8>, i: int) -> Option<int>
    decreases s.len() - i,
{
    if i < 0 || i + 1 >= s.len() {
        None
    } else if s[i] == 13 && s[i + 1] == 10 {
        Some(i)
    } else {
        crlf_from(s, i + 1)
    }
}

/// The `k`-th piece, counted from `i`, of `s` cut at each `|`.
pub open spec fn field_from(s: Seq<u8>, i: int, k: nat) -> Option<Seq<u8>>
    decreases k,
{
    match byte_from(s, 124, i) {
        None => if k == 0 && 0 <= i <= s.len() {
            Some(s.subrange(i, s.len() as int))
        } else {
            None
        },
        Some(p) => if k == 0 {
            Some(s.subrange(i, p))
        } else {
            field_from(s, p + 1, (k - 1) as nat)
        },
    }
}

/// The `k`-th piece of `s` cut at each `|`, as `str::split('|').nth(k)` gives it.
pub open spec fn field(s: Seq<u8>, k: nat) -> Option<Seq<u8>> {
    field_from(s, 0, k)
}

pub proof fn lemma_byte_from_bounds(s: Seq<u8>, b: u8, i: int)
    ensures
        match byte_from(s, b, i) {
            Some(p) => i <= p < s.len() && s[p] == b,
            None => true,
        },
    decreases s.len() - i,
{
    if 0 <= i < s.len() && s[i] != b {
        lemma_byte_from_bounds(s, b, i + 1);
    }
}

pub proof fn lemma_crlf_from_bounds(s: Seq<u8>, i: int)
    ensures
        match crlf_from(s, i) {
            Some(p) => i <= p && p + 1 < s.len() && s[p] == 13 && s[p + 1] == 10,
            None => true,
        },
    decreases s.len() - i,
{
    if 0 <= i && i + 1 < s.len() && !(s[i] == 13 && s[i + 1] == 10) {
        lemma_crlf_from_bounds(s, i + 1);
    }
}

/// A carriage return and line feed found in `s` are found at the same place in `s + t`.
pub proof fn lemma_crlf_from_extend(s: Seq<u8>, t: Seq<u8>, i: int)
    requires
        crlf_from(s, i) is Some,
    ensures
        crlf_from(s + t, i) == crlf_from(s, i),
    decreases s.len() - i,
{
    if !(s[i] == 13 && s[i + 1] == 10) {
        lemma_crlf_from_extend(s, t, i + 1);
    }
}

/// Where `s` holds no `b` at or after `i`.
pub proof fn lemma_byte_from_absent(s: Seq<u8>, b: u8, i: int)
    requires
        0 <= i,
        forall|k: int| i <= k < s.len() ==> s[k] != b,
    ensures
        byte_from(s, b, i) is None,
    decreases s.len() - i,
{
    if i < s.len() {
        lemma_byte_from_absent(s, b, i + 1);
    }
}

pub fn find_byte(s: &[u8], b: u8, start: usize) -> (r: Option<usize>)
    requires
        start <= s@.len(),
    ensures
        match r {
            Some(p) => byte_from(s@, b, start as int) == Some(p as int),
            None => byte_from(s@, b, start as int) is None,
        },
{
    let mut i: usize = start;
    while i < s.len()
        invariant
            start <= i <= s@.len(),
            byte_from(s@, b, start as int) == byte_from(s@, b, i as int),
        decreases s@.len() - i,
    {
        if s[i] == b {
            return Some(i);
        }
        i = i + 1;
    }
    None
}

pub fn find_crlf(s: &[u8]) -> (r: Option<usize>)
    ensures
        match r {
            Some(p) => crlf_from(s@, 0) == Some(p as int),
            None => crlf_from(s@, 0) is None,
        },
{
    let mut i: usize = 0;
    while s.len() - i >= 2
        invariant
            i <= s@.len(),
            crlf_from(s@, 0) == crlf_from(s@, i as int),
        decreases s@.len() - i,
    {
        if s[i] == 13 && s[i + 1] == 10 {
            return Some(i);
        }
        i = i + 1;
    }
    None
}

/// The bounds of the `k`-th `|`-separated piece of `s`.
pub fn field_range(s: &[u8], k: usize) -> (r: Option<(usize, usize)>)
    ensures
        match r {
            Some((a, b)) => a <= b <= s@.len() && field(s@, k as nat) == Some(
                s@.subrange(a as int, b as int),
            ),
            None => field(s@, k as nat) is None,
        },
{
    let n = s.len();
    let mut i: usize = 0;
    let mut left: usize = k;
    loop
        invariant
            n == s@.len(),
            i <= s@.len(),
            left <= k,
            field(s@, k as nat) == field_from(s@, i as int, left as nat),
        decreases left,
    {
        let found = find_byte(s, 124, i);
        proof {
            lemma_byte_from_bounds(s@, 124u8, i as int);
        }
        match found {
            None => {
                if left == 0 {
                    return Some((i, n));
                }
                return None;
            },
            Some(p) => {
                if left == 0 {
                    return Some((i, p));
                }
                i = p + 1;
                left = left - 1;
            },
        }
    }
}

} // verus!
