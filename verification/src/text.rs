//! Character-sequence utilities for interface-name matching: ASCII case
//! folding, substring search, and anchored wildcard matching where `*`
//! stands for zero or more characters and `?` for exactly one.

use vstd::prelude::*;
use vstd::string::StrSliceExecFns;

verus! {

/// ASCII case folding of one character: `A`..`Z` to `a`..`z`, all
/// others unchanged.
pub open spec fn lower_char(c: char) -> char {
    if 'A' as u32 <= c as u32 && c as u32 <= 'Z' as u32 {
        ((c as u32 + 32) as char)
    } else {
        c
    }
}

/// ASCII case folding of a character sequence.
pub open spec fn lower_seq(s: Seq<char>) -> Seq<char> {
    Seq::new(s.len(), |i: int| lower_char(s[i]))
}

/// `pat` occurs in `text` starting at position `i`.
pub open spec fn matches_at(text: Seq<char>, pat: Seq<char>, i: int) -> bool {
    &&& 0 <= i
    &&& i + pat.len() <= text.len()
    &&& text.subrange(i, i + pat.len() as int) == pat
}

/// `pat` occurs somewhere in `text`. The empty sequence occurs in
/// every text.
pub open spec fn contains_seq(text: Seq<char>, pat: Seq<char>) -> bool {
    exists|i: int| matches_at(text, pat, i)
}

/// Anchored wildcard match of `s` against pattern `p`: `*` matches any
/// run of characters (including none), `?` matches exactly one, every
/// other pattern character matches itself.
pub open spec fn glob_match(p: Seq<char>, s: Seq<char>) -> bool
    decreases p.len(), s.len(),
{
    if p.len() == 0 {
        s.len() == 0
    } else if p[0] == '*' {
        glob_match(p.drop_first(), s) || (s.len() > 0 && glob_match(p, s.drop_first()))
    } else {
        s.len() > 0 && (p[0] == '?' || p[0] == s[0]) && glob_match(p.drop_first(), s.drop_first())
    }
}

/// `s` holds a wildcard metacharacter.
pub open spec fn has_wildcard(s: Seq<char>) -> bool {
    exists|i: int| 0 <= i < s.len() && (s[i] == '*' || s[i] == '?')
}

/// The characters of `s`, in order.
pub fn to_chars(s: &str) -> (v: Vec<char>)
    ensures
        v@ == s@,
{
    let n = s.unicode_len();
    let mut v: Vec<char> = Vec::new();
    for i in 0..n
        invariant
            n == s@.len(),
            v@ =~= s@.take(i as int),
    {
        v.push(s.get_char(i));
        assert(v@ =~= s@.take(i + 1));
    }
    assert(v@ =~= s@);
    v
}

/// ASCII case folding of one character.
pub fn lower_char_exec(c: char) -> (r: char)
    ensures
        r == lower_char(c),
{
    match c {
        'A' => 'a',
        'B' => 'b',
        'C' => 'c',
        'D' => 'd',
        'E' => 'e',
        'F' => 'f',
        'G' => 'g',
        'H' => 'h',
        'I' => 'i',
        'J' => 'j',
        'K' => 'k',
        'L' => 'l',
        'M' => 'm',
        'N' => 'n',
        'O' => 'o',
        'P' => 'p',
        'Q' => 'q',
        'R' => 'r',
        'S' => 's',
        'T' => 't',
        'U' => 'u',
        'V' => 'v',
        'W' => 'w',
        'X' => 'x',
        'Y' => 'y',
        'Z' => 'z',
        _ => c,
    }
}

/// ASCII case folding of a character vector.
pub fn to_lower(v: &Vec<char>) -> (r: Vec<char>)
    ensures
        r@ == lower_seq(v@),
{
    let mut r: Vec<char> = Vec::new();
    let n = v.len();
    for i in 0..n
        invariant
            n == v@.len(),
            r@ =~= lower_seq(v@).take(i as int),
    {
        r.push(lower_char_exec(v[i]));
        assert(r@ =~= lower_seq(v@).take(i + 1));
    }
    assert(r@ =~= lower_seq(v@));
    r
}

/// The two vectors hold the same characters.
pub fn eq_chars(a: &Vec<char>, b: &Vec<char>) -> (r: bool)
    ensures
        r == (a@ == b@),
{
    if a.len() != b.len() {
        return false;
    }
    let n = a.len();
    for i in 0..n
        invariant
            n == a@.len() == b@.len(),
            forall|j: int| 0 <= j < i ==> a@[j] == b@[j],
    {
        if a[i] != b[i] {
            return false;
        }
    }
    proof {
        assert(a@ =~= b@);
    }
    true
}

/// Whether `pat` occurs in `text` as a contiguous run.
pub fn contains_chars(text: &Vec<char>, pat: &Vec<char>) -> (r: bool)
    ensures
        r == contains_seq(text@, pat@),
{
    let tn = text.len();
    let pn = pat.len();
    if pn > tn {
        proof {
            assert(forall|i: int| !matches_at(text@, pat@, i));
        }
        return false;
    }
    let last = tn - pn;
    let mut i: usize = 0;
    while i <= last
        invariant
            pn == pat@.len(),
            tn == text@.len(),
            pn <= tn,
            last == tn - pn,
            i <= last + 1,
            forall|k: int| 0 <= k < i ==> !matches_at(text@, pat@, k),
        decreases last - i + 1,
    {
        let mut j: usize = 0;
        let mut hit = true;
        while j < pn
            invariant
                pn == pat@.len(),
                tn == text@.len(),
                i + pn <= tn,
                j <= pn,
                hit ==> forall|l: int| 0 <= l < j ==> text@[i + l] == pat@[l],
                !hit ==> exists|l: int| 0 <= l < pn && #[trigger] text@[i + l] != pat@[l],
            decreases pn - j,
        {
            if text[i + j] != pat[j] {
                hit = false;
                j = pn;
            } else {
                j = j + 1;
            }
        }
        if hit {
            proof {
                assert(text@.subrange(i as int, i + pat@.len() as int) =~= pat@);
                assert(matches_at(text@, pat@, i as int));
            }
            return true;
        }
        proof {
            if matches_at(text@, pat@, i as int) {
                let l = choose|l: int| 0 <= l < pn && #[trigger] text@[i + l] != pat@[l];
                assert(text@.subrange(i as int, i + pat@.len() as int)[l] == pat@[l]);
                assert(false);
            }
        }
        i = i + 1;
    }
    proof {
        assert(forall|k: int| !matches_at(text@, pat@, k));
    }
    false
}

/// Whether `s` holds `*` or `?`.
pub fn has_wildcard_exec(s: &Vec<char>) -> (r: bool)
    ensures
        r == has_wildcard(s@),
{
    let n = s.len();
    for i in 0..n
        invariant
            n == s@.len(),
            forall|j: int| 0 <= j < i ==> s@[j] != '*' && s@[j] != '?',
    {
        if s[i] == '*' || s[i] == '?' {
            return true;
        }
    }
    false
}

/// Anchored wildcard match of `s[si..]` against `p[pi..]`.
fn glob_match_at(p: &Vec<char>, pi: usize, s: &Vec<char>, si: usize) -> (r: bool)
    requires
        pi <= p@.len(),
        si <= s@.len(),
    ensures
        r == glob_match(p@.skip(pi as int), s@.skip(si as int)),
    decreases p@.len() - pi, s@.len() - si,
{
    let ghost pv = p@.skip(pi as int);
    let ghost sv = s@.skip(si as int);
    if pi == p.len() {
        return si == s.len();
    }
    proof {
        assert(pv[0] == p@[pi as int]);
        assert(pv.drop_first() =~= p@.skip(pi + 1));
        if si < s@.len() {
            assert(sv[0] == s@[si as int]);
            assert(sv.drop_first() =~= s@.skip(si + 1));
        }
    }
    if p[pi] == '*' {
        if glob_match_at(p, pi + 1, s, si) {
            return true;
        }
        if si < s.len() {
            return glob_match_at(p, pi, s, si + 1);
        }
        return false;
    }
    if si == s.len() {
        return false;
    }
    if p[pi] == '?' || p[pi] == s[si] {
        return glob_match_at(p, pi + 1, s, si + 1);
    }
    false
}

/// Anchored wildcard match of the whole of `s` against the whole of
/// `p`.
pub fn glob_match_exec(p: &Vec<char>, s: &Vec<char>) -> (r: bool)
    ensures
        r == glob_match(p@, s@),
{
    proof {
        assert(p@.skip(0) =~= p@);
        assert(s@.skip(0) =~= s@);
    }
    glob_match_at(p, 0, s, 0)
}

} // verus!
