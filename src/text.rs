//! Character-level text scanning: substring search, splitting at a
//! delimiter, and decimal parsing, each specified over `Seq<char>`.

use vstd::prelude::*;

verus! {

/// `pat` occurs in `s` starting at index `p`.
pub open spec fn occurs_at(s: Seq<char>, pat: Seq<char>, p: int) -> bool {
    &&& 0 <= p
    &&& p + pat.len() <= s.len()
    &&& s.subrange(p, p + pat.len()) == pat
}

/// The first index at or after `from` where `pat` occurs in `s`.
pub open spec fn find_from(s: Seq<char>, pat: Seq<char>, from: int) -> Option<int>
    decreases s.len() + 1 - from,
{
    if from < 0 || from + pat.len() > s.len() {
        None
    } else if occurs_at(s, pat, from) {
        Some(from)
    } else {
        find_from(s, pat, from + 1)
    }
}

/// `pat` occurs somewhere in `s`.
pub open spec fn contains(s: Seq<char>, pat: Seq<char>) -> bool {
    find_from(s, pat, 0) is Some
}

/// Bounds of the `n`-th piece of `s[start..]` cut at each leftmost
/// non-overlapping occurrence of `pat`.
pub open spec fn piece_bounds(s: Seq<char>, pat: Seq<char>, start: int, n: nat) -> Option<(int, int)>
    decreases n,
{
    match find_from(s, pat, start) {
        None => if n == 0 {
            Some((start, s.len() as int))
        } else {
            None
        },
        Some(p) => if n == 0 {
            Some((start, p))
        } else {
            piece_bounds(s, pat, p + pat.len(), (n - 1) as nat)
        },
    }
}

/// The `n`-th piece of `s` split at `pat` (counting from zero), if `s` has
/// that many pieces.
pub open spec fn split_piece(s: Seq<char>, pat: Seq<char>, n: nat) -> Option<Seq<char>> {
    match piece_bounds(s, pat, 0, n) {
        Some(b) => Some(s.subrange(b.0, b.1)),
        None => None,
    }
}

pub open spec fn is_digit(c: char) -> bool {
    '0' <= c && c <= '9'
}

pub open spec fn all_digits(s: Seq<char>) -> bool {
    forall|i: int| 0 <= i < s.len() ==> is_digit(#[trigger] s[i])
}

/// The number that a string of decimal digits denotes.
pub open spec fn digits_value(s: Seq<char>) -> nat
    decreases s.len(),
{
    if s.len() == 0 {
        0
    } else {
        digits_value(s.drop_last()) * 10 + (s.last() as nat - '0' as nat) as nat
    }
}

/// The digits of a decimal numeral: what follows one optional leading `+`.
pub open spec fn unsigned_digits(s: Seq<char>) -> Seq<char> {
    if s.len() > 0 && s[0] == '+' {
        s.subrange(1, s.len() as int)
    } else {
        s
    }
}

/// Reading `s` as an unsigned 32-bit decimal integer: an optional `+`, then
/// one or more digits whose value fits in `u32`.
pub open spec fn parse_u32(s: Seq<char>) -> Option<u32> {
    let d = unsigned_digits(s);
    if d.len() > 0 && all_digits(d) && digits_value(d) <= u32::MAX {
        Some(digits_value(d) as u32)
    } else {
        None
    }
}

/// The characters of `s`, in order.
pub fn chars_of(s: &str) -> (r: Vec<char>)
    ensures
        r@ == s@,
{
    let mut r: Vec<char> = Vec::new();
    for c in it: s.chars()
        invariant
            it.seq() == s@,
            r@ == it.seq().take(it.index() as int),
    {
        r.push(c);
    }
    assert(r@ == s@);
    r
}

/// Whether `pat` occurs in `s` at index `p`.
fn occurs_at_exec(s: &Vec<char>, pat: &Vec<char>, p: usize) -> (r: bool)
    ensures
        r == occurs_at(s@, pat@, p as int),
{
    if pat.len() > s.len() || p > s.len() - pat.len() {
        return false;
    }
    let mut j: usize = 0;
    while j < pat.len()
        invariant
            j <= pat.len(),
            p + pat.len() <= s.len(),
            s@.subrange(p as int, p + j) == pat@.subrange(0, j as int),
        decreases pat.len() - j,
    {
        if s[p + j] != pat[j] {
            assert(s@.subrange(p as int, p + pat.len())[j as int] != pat@[j as int]);
            return false;
        }
        assert(s@.subrange(p as int, p + j + 1) == pat@.subrange(0, j + 1));
        j = j + 1;
    }
    assert(pat@.subrange(0, pat.len() as int) == pat@);
    true
}

/// The first index at or after `from` where `pat` occurs in `s`.
pub fn find_from_exec(s: &Vec<char>, pat: &Vec<char>, from: usize) -> (r: Option<usize>)
    ensures
        r matches Some(p) ==> find_from(s@, pat@, from as int) == Some(p as int),
        r is None ==> find_from(s@, pat@, from as int) is None,
{
    let mut i: usize = from;
    while i <= s.len() && pat.len() <= s.len() - i
        invariant
            from <= i,
            find_from(s@, pat@, from as int) == find_from(s@, pat@, i as int),
        decreases s.len() + 1 - i,
    {
        if occurs_at_exec(s, pat, i) {
            return Some(i);
        }
        if i == s.len() {
            assert(find_from(s@, pat@, i + 1) is None);
            return None;
        }
        i = i + 1;
    }
    None
}

/// Whether `pat` occurs in `s`.
pub fn contains_exec(s: &Vec<char>, pat: &Vec<char>) -> (r: bool)
    ensures
        r == contains(s@, pat@),
{
    find_from_exec(s, pat, 0).is_some()
}

/// Bounds of the `n`-th piece of `s[start..]` cut at `pat`.
fn piece_bounds_exec(s: &Vec<char>, pat: &Vec<char>, start: usize, n: usize) -> (r: Option<(usize, usize)>)
    requires
        start <= s.len(),
    ensures
        r matches Some(b) ==> piece_bounds(s@, pat@, start as int, n as nat) == Some(
            (b.0 as int, b.1 as int),
        ) && b.0 <= b.1 <= s.len(),
        r is None ==> piece_bounds(s@, pat@, start as int, n as nat) is None,
    decreases n,
{
    match find_from_exec(s, pat, start) {
        None => if n == 0 {
            Some((start, s.len()))
        } else {
            None
        },
        Some(p) => {
            proof {
                lemma_find_from_bounds(s@, pat@, start as int);
            }
            if n == 0 {
                Some((start, p))
            } else {
                piece_bounds_exec(s, pat, p + pat.len(), n - 1)
            }
        },
    }
}

proof fn lemma_find_from_bounds(s: Seq<char>, pat: Seq<char>, from: int)
    ensures
        find_from(s, pat, from) matches Some(p) ==> from <= p && p + pat.len() <= s.len()
            && occurs_at(s, pat, p),
    decreases s.len() + 1 - from,
{
    if from < 0 || from + pat.len() > s.len() {
    } else if occurs_at(s, pat, from) {
    } else {
        lemma_find_from_bounds(s, pat, from + 1);
    }
}

/// The `n`-th piece of `s` split at `pat`, if there is one.
pub fn split_piece_exec(s: &Vec<char>, pat: &Vec<char>, n: usize) -> (r: Option<Vec<char>>)
    ensures
        r matches Some(v) ==> split_piece(s@, pat@, n as nat) == Some(v@),
        r is None ==> split_piece(s@, pat@, n as nat) is None,
{
    match piece_bounds_exec(s, pat, 0, n) {
        None => None,
        Some(b) => {
            let mut v: Vec<char> = Vec::new();
            let mut i: usize = b.0;
            while i < b.1
                invariant
                    b.0 <= i <= b.1 <= s.len(),
                    v@ == s@.subrange(b.0 as int, i as int),
                decreases b.1 - i,
            {
                v.push(s[i]);
                assert(v@ == s@.subrange(b.0 as int, i + 1));
                i = i + 1;
            }
            Some(v)
        },
    }
}

proof fn lemma_digits_value_grows(s: Seq<char>)
    requires
        s.len() > 0,
        is_digit(s.last()),
    ensures
        digits_value(s) >= digits_value(s.drop_last()),
{
}

/// Reads `s` as an unsigned 32-bit decimal integer.
pub fn parse_u32_exec(s: &Vec<char>) -> (r: Option<u32>)
    ensures
        r == parse_u32(s@),
{
    let start: usize = if s.len() > 0 && s[0] == '+' {
        1
    } else {
        0
    };
    let ghost d = unsigned_digits(s@);
    assert(d == s@.subrange(start as int, s.len() as int));
    if start == s.len() {
        return None;
    }
    let mut ok: bool = true;
    let mut acc: u32 = 0;
    let mut i: usize = start;
    while i < s.len()
        invariant
            start <= i <= s.len(),
            d == s@.subrange(start as int, s.len() as int),
            ok ==> all_digits(d.take(i - start)) && digits_value(d.take(i - start)) == acc,
            !ok ==> !all_digits(d.take(i - start)) || digits_value(d.take(i - start)) > u32::MAX,
        decreases s.len() - i,
    {
        let ghost pre = d.take(i - start);
        let ghost next = d.take(i - start + 1);
        assert(next.drop_last() == pre);
        assert(next.last() == s@[i as int]);
        let c = s[i];
        if '0' <= c && c <= '9' {
            assert(all_digits(next) == all_digits(pre)) by {
                if all_digits(pre) {
                    assert forall|k: int| 0 <= k < next.len() implies is_digit(#[trigger] next[k]) by {
                        if k < pre.len() {
                            assert(next[k] == pre[k]);
                        }
                    }
                }
                if all_digits(next) {
                    assert forall|k: int| 0 <= k < pre.len() implies is_digit(#[trigger] pre[k]) by {
                        assert(next[k] == pre[k]);
                    }
                }
            }
            let dig: u32 = (c as u32) - ('0' as u32);
            assert(digits_value(next) == digits_value(pre) * 10 + dig);
            if ok {
                if acc <= (u32::MAX - dig) / 10 {
                    acc = acc * 10 + dig;
                } else {
                    assert(acc * 10 + dig > u32::MAX) by (nonlinear_arith)
                        requires
                            acc > (u32::MAX - dig) / 10,
                            dig <= 9,
                    ;
                    ok = false;
                }
            } else {
                proof {
                    lemma_digits_value_grows(next);
                }
            }
        } else {
            assert(!is_digit(next[next.len() - 1]));
            ok = false;
        }
        i = i + 1;
    }
    assert(d.take(d.len() as int) == d);
    if ok {
        Some(acc)
    } else {
        None
    }
}

} // verus!
