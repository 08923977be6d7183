//! Resolution of a user-supplied interface name or pattern against the
//! set of interfaces the system reports.
//!
//! Priority order, which decides which real device an ambiguous pattern
//! selects: an absent or empty pattern picks the busiest interface
//! (highest combined byte total); an exact, case-sensitive name match
//! wins next; a pattern with `*` or `?` is matched anchored and
//! case-insensitively against each name in provider order, first hit
//! wins; anything else is a case-insensitive substring, and among
//! several hits the shortest name wins, earliest first on equal length.
//! Case-insensitivity is ASCII case folding; name length is counted in
//! characters.

use vstd::prelude::*;
use vstd::string::StringExecFns;

use crate::text::{
    contains_chars, contains_seq, eq_chars, glob_match, glob_match_exec, has_wildcard,
    has_wildcard_exec, lower_seq, to_chars, to_lower,
};

verus! {

/// One interface as the provider lists it: its name and its cumulative
/// byte totals in each direction.
#[derive(Clone, Debug)]
pub struct InterfaceInfo {
    pub name: String,
    pub rx_total: u64,
    pub tx_total: u64,
}

/// No interface matched; carries every available name, in provider
/// order, for the error message.
#[derive(Debug)]
pub struct NotFound {
    pub available: Vec<String>,
}

/// Combined byte total of an interface.
pub open spec fn iface_total(info: InterfaceInfo) -> int {
    info.rx_total + info.tx_total
}

/// Index `i` holds the busiest interface: no total is higher, and every
/// later equal total loses (the last maximum wins, matching a running
/// maximum scan).
pub open spec fn is_best(infos: Seq<InterfaceInfo>, i: int) -> bool {
    &&& 0 <= i < infos.len()
    &&& forall|j: int| 0 <= j < infos.len() ==> iface_total(#[trigger] infos[j]) <= iface_total(
        infos[i],
    )
    &&& forall|j: int| i < j < infos.len() ==> iface_total(#[trigger] infos[j]) < iface_total(
        infos[i],
    )
}

/// Some interface's name equals the pattern exactly.
pub open spec fn exact_exists(infos: Seq<InterfaceInfo>, pat: Seq<char>) -> bool {
    exists|i: int| 0 <= i < infos.len() && (#[trigger] infos[i]).name@ == pat
}

/// The folded pattern matches the folded name as an anchored wildcard
/// pattern.
pub open spec fn glob_matches_name(pat: Seq<char>, info: InterfaceInfo) -> bool {
    glob_match(lower_seq(pat), lower_seq(info.name@))
}

/// Index `i` holds the first interface the wildcard pattern matches.
pub open spec fn is_first_glob(infos: Seq<InterfaceInfo>, pat: Seq<char>, i: int) -> bool {
    &&& 0 <= i < infos.len()
    &&& glob_matches_name(pat, infos[i])
    &&& forall|j: int| 0 <= j < i ==> !glob_matches_name(pat, #[trigger] infos[j])
}

/// The folded pattern occurs in the folded name.
pub open spec fn sub_matches_name(pat: Seq<char>, info: InterfaceInfo) -> bool {
    contains_seq(lower_seq(info.name@), lower_seq(pat))
}

/// Index `i` holds the substring match that wins the tie-break: no
/// match has a shorter name, and every earlier match has a strictly
/// longer one.
pub open spec fn is_substring_choice(infos: Seq<InterfaceInfo>, pat: Seq<char>, i: int) -> bool {
    &&& 0 <= i < infos.len()
    &&& sub_matches_name(pat, infos[i])
    &&& forall|j: int|
        0 <= j < infos.len() && sub_matches_name(pat, #[trigger] infos[j])
            ==> infos[i].name@.len() <= infos[j].name@.len()
    &&& forall|j: int|
        0 <= j < i && sub_matches_name(pat, #[trigger] infos[j]) ==> infos[i].name@.len()
            < infos[j].name@.len()
}

/// The error's name listing mirrors the provider's, in order.
pub open spec fn lists_available(e: NotFound, infos: Seq<InterfaceInfo>) -> bool {
    &&& e.available@.len() == infos.len()
    &&& forall|i: int| 0 <= i < infos.len() ==> (#[trigger] e.available@[i])@ == infos[i].name@
}

/// A `NotFound` that lists every available interface name.
pub(crate) fn not_found(infos: &Vec<InterfaceInfo>) -> (e: NotFound)
    ensures
        lists_available(e, infos@),
{
    let mut available: Vec<String> = Vec::new();
    let n = infos.len();
    for i in 0..n
        invariant
            n == infos@.len(),
            available@.len() == i,
            forall|j: int| 0 <= j < i ==> (#[trigger] available@[j])@ == infos@[j].name@,
    {
        available.push(infos[i].name.clone());
    }
    NotFound { available }
}

/// The interface with the highest combined `rx + tx` total, or an error
/// when none are available ("busiest wins" auto-selection).
pub fn select_best_interface(infos: &Vec<InterfaceInfo>) -> (r: Result<String, NotFound>)
    ensures
        infos@.len() == 0 ==> r is Err,
        infos@.len() > 0 ==> r is Ok && (exists|i: int|
            #[trigger] is_best(infos@, i) && r->Ok_0@ == infos@[i].name@),
        r is Err ==> lists_available(r->Err_0, infos@),
{
    if infos.len() == 0 {
        return Err(not_found(infos));
    }
    let n = infos.len();
    let mut best: usize = 0;
    for j in 1..n
        invariant
            n == infos@.len(),
            best < j <= n,
            forall|k: int| 0 <= k < j ==> iface_total(#[trigger] infos@[k]) <= iface_total(
                infos@[best as int],
            ),
            forall|k: int| best < k < j ==> iface_total(#[trigger] infos@[k]) < iface_total(
                infos@[best as int],
            ),
    {
        let tj: u128 = (infos[j].rx_total as u128) + (infos[j].tx_total as u128);
        let tb: u128 = (infos[best].rx_total as u128) + (infos[best].tx_total as u128);
        if tj >= tb {
            best = j;
        }
    }
    proof {
        assert(is_best(infos@, best as int));
    }
    Ok(infos[best].name.clone())
}

/// Maps a name or pattern to one concrete interface name, in the
/// priority order described at the module head. An empty pattern
/// auto-selects the busiest interface. On failure the error lists every
/// available name.
pub fn resolve_interface(pattern: &str, infos: &Vec<InterfaceInfo>) -> (r: Result<
    String,
    NotFound,
>)
    ensures
        pattern@.len() == 0 ==> {
            &&& infos@.len() == 0 ==> r is Err
            &&& infos@.len() > 0 ==> r is Ok && (exists|i: int|
                #[trigger] is_best(infos@, i) && r->Ok_0@ == infos@[i].name@)
        },
        pattern@.len() > 0 && exact_exists(infos@, pattern@) ==> r is Ok && r->Ok_0@ == pattern@,
        pattern@.len() > 0 && !exact_exists(infos@, pattern@) && has_wildcard(pattern@) ==> {
            &&& (exists|i: int| #[trigger] is_first_glob(infos@, pattern@, i)) ==> r is Ok && (
            exists|i: int|
                #[trigger] is_first_glob(infos@, pattern@, i) && r->Ok_0@ == infos@[i].name@)
            &&& !(exists|i: int| #[trigger] is_first_glob(infos@, pattern@, i)) ==> r is Err
        },
        pattern@.len() > 0 && !exact_exists(infos@, pattern@) && !has_wildcard(pattern@) ==> {
            &&& (exists|i: int| #[trigger] is_substring_choice(infos@, pattern@, i)) ==> r is Ok
                && (exists|i: int|
                #[trigger] is_substring_choice(infos@, pattern@, i) && r->Ok_0@
                    == infos@[i].name@)
            &&& !(exists|i: int| #[trigger] is_substring_choice(infos@, pattern@, i)) ==> r is Err
        },
        r is Err ==> lists_available(r->Err_0, infos@),
{
    let pc = to_chars(pattern);
    if pc.len() == 0 {
        return select_best_interface(infos);
    }
    let n = infos.len();

    // Exact, case-sensitive name match has the highest priority.
    for i in 0..n
        invariant
            n == infos@.len(),
            pc@ == pattern@,
            pattern@.len() > 0,
            forall|j: int| 0 <= j < i ==> (#[trigger] infos@[j]).name@ != pattern@,
    {
        let nc = to_chars(infos[i].name.as_str());
        if eq_chars(&nc, &pc) {
            proof {
                assert(exact_exists(infos@, pattern@));
            }
            return Ok(String::from_str(pattern));
        }
    }

    let pl = to_lower(&pc);

    if has_wildcard_exec(&pc) {
        // Anchored, case-insensitive wildcard match; first hit in
        // provider order wins.
        for i in 0..n
            invariant
                n == infos@.len(),
                pc@ == pattern@,
                pl@ == lower_seq(pattern@),
                pattern@.len() > 0,
                !exact_exists(infos@, pattern@),
                has_wildcard(pattern@),
                forall|j: int| 0 <= j < i ==> !glob_matches_name(pattern@, #[trigger] infos@[j]),
        {
            let nl = to_lower(&to_chars(infos[i].name.as_str()));
            if glob_match_exec(&pl, &nl) {
                proof {
                    assert(is_first_glob(infos@, pattern@, i as int));
                }
                return Ok(infos[i].name.clone());
            }
        }
        return Err(not_found(infos));
    }

    // Case-insensitive substring match; the shortest name wins, the
    // earliest on equal length.
    let mut found = false;
    let mut best: usize = 0;
    let mut best_len: usize = 0;
    for i in 0..n
        invariant
            n == infos@.len(),
            pc@ == pattern@,
            pl@ == lower_seq(pattern@),
            !found ==> forall|j: int|
                0 <= j < i ==> !sub_matches_name(pattern@, #[trigger] infos@[j]),
            found ==> {
                &&& best < i
                &&& sub_matches_name(pattern@, infos@[best as int])
                &&& best_len == infos@[best as int].name@.len()
                &&& forall|j: int|
                    0 <= j < i && sub_matches_name(pattern@, #[trigger] infos@[j])
                        ==> best_len <= infos@[j].name@.len()
                &&& forall|j: int|
                    0 <= j < best && sub_matches_name(pattern@, #[trigger] infos@[j]) ==> best_len
                        < infos@[j].name@.len()
            },
    {
        let nc = to_chars(infos[i].name.as_str());
        let nl = to_lower(&nc);
        if contains_chars(&nl, &pl) {
            if !found || nc.len() < best_len {
                found = true;
                best = i;
                best_len = nc.len();
            }
        }
    }
    if found {
        proof {
            assert(is_substring_choice(infos@, pattern@, best as int));
        }
        Ok(infos[best].name.clone())
    } else {
        Err(not_found(infos))
    }
}

} // verus!
