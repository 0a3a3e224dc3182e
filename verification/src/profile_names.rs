//! Profile file-name handling: which directory entries count as listable
//! profiles, and the display name such an entry is listed under.

use crate::text::chars_of_str;
use crate::text::string_of_chars;
use vstd::prelude::*;

verus! {

/// The marker that a profile file name must hold, and that is removed from
/// it to form the display name.
pub open spec fn conf_marker() -> Seq<char> {
    seq!['.', 'c', 'o', 'n', 'f']
}

/// `pat` occurs in `s` starting at index `i`.
pub open spec fn matches_at(s: Seq<char>, pat: Seq<char>, i: int) -> bool {
    0 <= i && i + pat.len() <= s.len() && s.subrange(i, i + pat.len()) == pat
}

/// `pat` occurs somewhere in `s`.
pub open spec fn has_substring(s: Seq<char>, pat: Seq<char>) -> bool {
    exists|i: int| matches_at(s, pat, i)
}

/// `s[i..]` with every occurrence of `pat` removed, scanning left to right
/// over non-overlapping occurrences.
pub open spec fn remove_all_from(s: Seq<char>, pat: Seq<char>, i: int) -> Seq<char>
    decreases s.len() - i,
        when 0 <= i <= s.len() && pat.len() >= 1
{
    if i >= s.len() {
        Seq::empty()
    } else if matches_at(s, pat, i) {
        remove_all_from(s, pat, i + pat.len())
    } else {
        seq![s[i]] + remove_all_from(s, pat, i + 1)
    }
}

/// `s` with every occurrence of `pat` removed.
pub open spec fn remove_all(s: Seq<char>, pat: Seq<char>) -> Seq<char> {
    remove_all_from(s, pat, 0)
}

/// A directory entry is listed as a profile when its name holds the config
/// marker and the name is not hidden behind a leading dot.
pub open spec fn is_profile_file_name(name: Seq<char>) -> bool {
    has_substring(name, conf_marker()) && !(name.len() >= 1 && name[0] == '.')
}

/// Whether `pat` occurs in `s` at index `i`.
fn matches_at_exec(s: &Vec<char>, pat: &Vec<char>, i: usize) -> (r: bool)
    requires
        i + pat@.len() <= s@.len(),
    ensures
        r == matches_at(s@, pat@, i as int),
{
    let m = pat.len();
    let sn = s.len();
    let mut k: usize = 0;
    while k < m
        invariant
            k <= m,
            m == pat@.len(),
            sn == s@.len(),
            i + m <= sn,
            forall|t: int| 0 <= t < k ==> s@[i + t] == pat@[t],
        decreases m - k,
    {
        if s[i + k] != pat[k] {
            proof {
                assert(s@.subrange(i as int, i + m as int)[k as int] == s@[i + k as int]);
            }
            return false;
        }
        k = k + 1;
    }
    proof {
        assert(s@.subrange(i as int, i + m as int) =~= pat@);
    }
    true
}

/// Whether `pat` occurs anywhere in `s`.
fn find_pattern(s: &Vec<char>, pat: &Vec<char>) -> (r: bool)
    requires
        pat@.len() >= 1,
    ensures
        r == has_substring(s@, pat@),
{
    let n = s.len();
    let m = pat.len();
    if m > n {
        proof {
            assert(forall|t: int| !matches_at(s@, pat@, t));
        }
        return false;
    }
    let mut i: usize = 0;
    while i <= n - m
        invariant
            i <= n,
            m <= n,
            n == s@.len(),
            m == pat@.len(),
            m >= 1,
            forall|t: int| 0 <= t < i ==> !matches_at(s@, pat@, t),
        decreases n - i,
    {
        if matches_at_exec(s, pat, i) {
            proof {
                assert(matches_at(s@, pat@, i as int));
            }
            return true;
        }
        i = i + 1;
    }
    proof {
        assert forall|t: int| !matches_at(s@, pat@, t) by {
            if 0 <= t < i {
            } else {
            }
        }
    }
    false
}

/// `s` with every occurrence of `pat` removed, scanning left to right.
fn remove_all_exec(s: &Vec<char>, pat: &Vec<char>) -> (r: Vec<char>)
    requires
        pat@.len() >= 1,
    ensures
        r@ == remove_all(s@, pat@),
{
    let n = s.len();
    let m = pat.len();
    let mut out: Vec<char> = Vec::new();
    let mut i: usize = 0;
    proof {
        assert(out@ + remove_all(s@, pat@) =~= remove_all(s@, pat@));
    }
    while i < n
        invariant
            i <= n,
            n == s@.len(),
            m == pat@.len(),
            m >= 1,
            out@ + remove_all_from(s@, pat@, i as int) == remove_all(s@, pat@),
        decreases n - i,
    {
        let mut stepped = false;
        if m <= n - i {
            if matches_at_exec(s, pat, i) {
                proof {
                    assert(out@ + remove_all_from(s@, pat@, i + m as int) =~= out@
                        + remove_all_from(s@, pat@, i as int));
                }
                i = i + m;
                stepped = true;
            }
        }
        if !stepped {
            proof {
                assert(!matches_at(s@, pat@, i as int));
                assert(out@.push(s@[i as int]) + remove_all_from(s@, pat@, i + 1 as int) =~= out@
                    + remove_all_from(s@, pat@, i as int));
            }
            out.push(s[i]);
            i = i + 1;
        }
    }
    proof {
        assert(out@ + remove_all_from(s@, pat@, n as int) =~= out@);
    }
    out
}

/// The display name a directory entry is listed under: for a visible file
/// name holding the config marker, the name with every marker occurrence
/// removed; nothing for any other entry.
pub fn profile_name_of(file_name: &str) -> (r: Option<String>)
    ensures
        match r {
            Some(name) => is_profile_file_name(file_name@) && name@ == remove_all(
                file_name@,
                conf_marker(),
            ),
            None => !is_profile_file_name(file_name@),
        },
{
    let s = chars_of_str(file_name);
    let pat: Vec<char> = vec!['.', 'c', 'o', 'n', 'f'];
    proof {
        assert(pat@ =~= conf_marker());
    }
    if s.len() >= 1 && s[0] == '.' {
        return None;
    }
    if !find_pattern(&s, &pat) {
        return None;
    }
    let cleaned = remove_all_exec(&s, &pat);
    Some(string_of_chars(&cleaned))
}

} // verus!
