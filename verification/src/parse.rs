//! Parsing of the plain text the monitor reads: decimal counter values
//! and the `version = x.y.z` line of a version file. Whitespace here is
//! the ASCII kind that such files hold: space, tab and carriage return.

use vstd::prelude::*;
use vstd::string::StrSliceExecFns;

use crate::format::chars_to_string;

verus! {

/// ASCII decimal digit.
pub open spec fn is_digit(c: char) -> bool {
    48 <= c as u32 <= 57
}

/// The value of a decimal digit character.
pub open spec fn digit_val(c: char) -> int
    recommends
        is_digit(c),
{
    c as u32 - 48
}

/// Every character is a decimal digit.
pub open spec fn all_digits(s: Seq<char>) -> bool {
    forall|i: int| 0 <= i < s.len() ==> is_digit(#[trigger] s[i])
}

/// The value of a digit string, most significant first; empty reads as
/// zero.
pub open spec fn dec_value(s: Seq<char>) -> int
    decreases s.len(),
{
    if s.len() == 0 {
        0
    } else {
        dec_value(s.drop_last()) * 10 + digit_val(s.last())
    }
}

/// Parses a non-empty, all-digit decimal string into a `u64`; anything
/// else, and any value past `u64::MAX`, is rejected.
pub fn parse_u64(s: &str) -> (r: Option<u64>)
    ensures
        r is Some <==> s@.len() > 0 && all_digits(s@) && dec_value(s@) <= u64::MAX,
        r is Some ==> r->0 == dec_value(s@),
{
    let n = s.unicode_len();
    if n == 0 {
        return None;
    }
    let mut acc: u64 = 0;
    let mut fits = true;
    for i in 0..n
        invariant
            n == s@.len(),
            all_digits(s@.take(i as int)),
            fits ==> acc == dec_value(s@.take(i as int)) && dec_value(s@.take(i as int))
                <= u64::MAX,
            !fits ==> dec_value(s@.take(i as int)) > u64::MAX,
    {
        let c = s.get_char(i);
        let u = c as u32;
        proof {
            assert(s@.take(i + 1).drop_last() =~= s@.take(i as int));
            assert(s@.take(i + 1).last() == s@[i as int]);
        }
        if u < 48 || u > 57 {
            return None;
        }
        let d = (u - 48) as u64;
        if fits {
            match acc.checked_mul(10) {
                Some(a10) => {
                    match a10.checked_add(d) {
                        Some(a) => {
                            acc = a;
                        },
                        None => {
                            fits = false;
                        },
                    }
                },
                None => {
                    fits = false;
                },
            }
        }
    }
    proof {
        assert(s@.take(n as int) =~= s@);
    }
    if fits {
        Some(acc)
    } else {
        None
    }
}

/// ASCII whitespace as it occurs in the files the monitor reads.
pub open spec fn is_space(c: char) -> bool {
    c == ' ' || c == '\t' || c == '\r'
}

/// `s` without its leading whitespace.
pub open spec fn trim_front(s: Seq<char>) -> Seq<char>
    decreases s.len(),
{
    if s.len() > 0 && is_space(s[0]) {
        trim_front(s.drop_first())
    } else {
        s
    }
}

/// `s` without its trailing whitespace.
pub open spec fn trim_back(s: Seq<char>) -> Seq<char>
    decreases s.len(),
{
    if s.len() > 0 && is_space(s.last()) {
        trim_back(s.drop_last())
    } else {
        s
    }
}

/// `s` without leading and trailing whitespace.
pub open spec fn trimmed(s: Seq<char>) -> Seq<char> {
    trim_back(trim_front(s))
}

/// Trimming the front keeps exactly the part after the leading run of
/// whitespace.
proof fn lemma_trim_front(s: Seq<char>, a: int)
    requires
        0 <= a <= s.len(),
        forall|j: int| 0 <= j < a ==> is_space(#[trigger] s[j]),
        a == s.len() || !is_space(s[a]),
    ensures
        trim_front(s) == s.skip(a),
    decreases a,
{
    if a == 0 {
        assert(s.skip(0) =~= s);
    } else {
        assert(s.drop_first() =~= s.skip(1));
        lemma_trim_front(s.skip(1), a - 1);
        assert(s.skip(1).skip(a - 1) =~= s.skip(a));
    }
}

/// Trimming the back keeps exactly the part before the trailing run of
/// whitespace.
proof fn lemma_trim_back(s: Seq<char>, b: int)
    requires
        0 <= b <= s.len(),
        forall|j: int| b <= j < s.len() ==> is_space(#[trigger] s[j]),
        b == 0 || !is_space(s[b - 1]),
    ensures
        trim_back(s) == s.take(b),
    decreases s.len() - b,
{
    if b == s.len() {
        assert(s.take(b) =~= s);
    } else {
        assert(s.drop_last() =~= s.take(s.len() - 1));
        lemma_trim_back(s.take(s.len() - 1), b);
        assert(s.take(s.len() - 1).take(b) =~= s.take(b));
    }
}

/// `c` is ASCII whitespace.
fn is_space_exec(c: char) -> (r: bool)
    ensures
        r == is_space(c),
{
    c == ' ' || c == '\t' || c == '\r'
}

/// `v` without leading and trailing whitespace.
fn trim_chars(v: &Vec<char>) -> (r: Vec<char>)
    ensures
        r@ == trimmed(v@),
{
    let n = v.len();
    let mut a: usize = 0;
    while a < n && is_space_exec(v[a])
        invariant
            n == v@.len(),
            a <= n,
            forall|j: int| 0 <= j < a ==> is_space(#[trigger] v@[j]),
        decreases n - a,
    {
        a = a + 1;
    }
    let mut b: usize = n;
    while b > a && is_space_exec(v[b - 1])
        invariant
            n == v@.len(),
            a <= b <= n,
            forall|j: int| b <= j < n ==> is_space(#[trigger] v@[j]),
        decreases b,
    {
        b = b - 1;
    }
    proof {
        lemma_trim_front(v@, a as int);
        if b == a {
            lemma_trim_back(v@.skip(a as int), 0);
        } else {
            lemma_trim_back(v@.skip(a as int), b - a);
        }
    }
    let mut r: Vec<char> = Vec::new();
    for i in a..b
        invariant
            n == v@.len(),
            a <= i <= b <= n,
            r@ =~= v@.subrange(a as int, i as int),
    {
        r.push(v[i]);
        assert(r@ =~= v@.subrange(a as int, i + 1));
    }
    proof {
        assert(v@.subrange(a as int, b as int) =~= v@.skip(a as int).take(b - a));
        if b == a {
            assert(v@.skip(a as int).take(0) =~= v@.skip(a as int).take(b - a));
        }
    }
    r
}

/// The keyword that opens a version assignment.
pub open spec fn version_keyword() -> Seq<char> {
    seq!['v', 'e', 'r', 's', 'i', 'o', 'n']
}

/// What one line of a version file assigns: for a line of the form
/// `version = <value>` (whitespace free around each part), the trimmed
/// value; anything else assigns nothing.
pub open spec fn spec_parse_version_line(line: Seq<char>) -> Option<Seq<char>> {
    let t = trimmed(line);
    if t.len() >= 7 && t.take(7) == version_keyword() {
        let rest = trimmed(t.skip(7));
        if rest.len() > 0 && rest[0] == '=' {
            Option::Some(trimmed(rest.drop_first()))
        } else {
            Option::None
        }
    } else {
        Option::None
    }
}

/// Extracts the assigned version from one `version = <value>` line.
pub fn parse_version_line(line: &str) -> (r: Option<String>)
    ensures
        r is Some <==> spec_parse_version_line(line@) is Some,
        r is Some ==> r->0@ == spec_parse_version_line(line@)->0,
{
    let lc = crate::text::to_chars(line);
    let t = trim_chars(&lc);
    if t.len() < 7 {
        return None;
    }
    let key = ['v', 'e', 'r', 's', 'i', 'o', 'n'];
    for i in 0..7usize
        invariant
            t@.len() >= 7,
            t@ == trimmed(line@),
            key@ =~= version_keyword(),
            forall|j: int| 0 <= j < i ==> t@[j] == version_keyword()[j],
    {
        if t[i] != key[i] {
            proof {
                assert(t@.take(7)[i as int] != version_keyword()[i as int]);
            }
            return None;
        }
    }
    proof {
        assert(t@.take(7) =~= version_keyword());
    }
    let mut tail: Vec<char> = Vec::new();
    let tn = t.len();
    for i in 7..tn
        invariant
            tn == t@.len() >= 7,
            tail@ =~= t@.subrange(7, i as int),
    {
        tail.push(t[i]);
        assert(tail@ =~= t@.subrange(7, i + 1));
    }
    proof {
        assert(tail@ =~= t@.skip(7));
    }
    let rest = trim_chars(&tail);
    if rest.len() == 0 {
        return None;
    }
    if rest[0] != '=' {
        return None;
    }
    let mut value: Vec<char> = Vec::new();
    let rn = rest.len();
    for i in 1..rn
        invariant
            rn == rest@.len() >= 1,
            value@ =~= rest@.subrange(1, i as int),
    {
        value.push(rest[i]);
        assert(value@ =~= rest@.subrange(1, i + 1));
    }
    proof {
        assert(value@ =~= rest@.drop_first());
    }
    let out = trim_chars(&value);
    Some(chars_to_string(&out))
}

} // verus!
