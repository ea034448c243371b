//! Backward scanning over token text.
//!
//! The decoder strips segments from the right: each step looks for the
//! last occurrence of one of a set of boundary characters.  `rfind` is the
//! mathematical form of that search; the executable `rfind_in` is proved
//! to agree with it.

use vstd::prelude::*;
use vstd::string::*;

verus! {

/// Index of the last occurrence in `s` of any character of `targets`,
/// or `-1` when none occurs.
pub open spec fn rfind(s: Seq<char>, targets: Seq<char>) -> int
    decreases s.len(),
{
    if s.len() == 0 {
        -1
    } else if targets.contains(s.last()) {
        s.len() - 1
    } else {
        rfind(s.drop_last(), targets)
    }
}

/// What `rfind` returns is a boundary position: in range, on a target
/// character, with no target anywhere to its right.
pub proof fn lemma_rfind_props(s: Seq<char>, targets: Seq<char>)
    ensures
        -1 <= rfind(s, targets) < s.len(),
        rfind(s, targets) >= 0 ==> targets.contains(s[rfind(s, targets)]),
        forall|j: int| rfind(s, targets) < j < s.len() ==> !targets.contains(#[trigger] s[j]),
    decreases s.len(),
{
    if s.len() > 0 && !targets.contains(s.last()) {
        lemma_rfind_props(s.drop_last(), targets);
        assert forall|j: int| rfind(s, targets) < j < s.len() implies !targets.contains(
            #[trigger] s[j],
        ) by {
            if j < s.len() - 1 {
                assert(s.drop_last()[j] == s[j]);
            }
        }
    }
}

/// `rfind` is pinned down by those properties.
pub proof fn lemma_rfind_at(s: Seq<char>, targets: Seq<char>, i: int)
    requires
        0 <= i < s.len(),
        targets.contains(s[i]),
        forall|j: int| i < j < s.len() ==> !targets.contains(#[trigger] s[j]),
    ensures
        rfind(s, targets) == i,
    decreases s.len(),
{
    if i < s.len() - 1 {
        assert(!targets.contains(s.last()));
        assert(s.drop_last()[i] == s[i]);
        assert forall|j: int| i < j < s.drop_last().len() implies !targets.contains(
            #[trigger] s.drop_last()[j],
        ) by {
            assert(s.drop_last()[j] == s[j]);
        }
        lemma_rfind_at(s.drop_last(), targets, i);
    }
}

pub proof fn lemma_rfind_none(s: Seq<char>, targets: Seq<char>)
    requires
        forall|j: int| 0 <= j < s.len() ==> !targets.contains(#[trigger] s[j]),
    ensures
        rfind(s, targets) == -1,
{
    lemma_rfind_props(s, targets);
}

/// Searching a string of the shape `prefix · b · suffix`, where `b` is a
/// target and the suffix holds none, lands exactly on `b`.
pub proof fn lemma_rfind_concat(prefix: Seq<char>, b: char, suffix: Seq<char>, targets: Seq<char>)
    requires
        targets.contains(b),
        forall|j: int| 0 <= j < suffix.len() ==> !targets.contains(#[trigger] suffix[j]),
    ensures
        rfind(prefix + seq![b] + suffix, targets) == prefix.len(),
{
    let s = prefix + seq![b] + suffix;
    assert(s[prefix.len() as int] == b);
    assert forall|j: int| prefix.len() < j < s.len() implies !targets.contains(
        #[trigger] s[j],
    ) by {
        assert(s[j] == suffix[j - prefix.len() - 1]);
    }
    lemma_rfind_at(s, targets, prefix.len() as int);
}

/// Membership of a character in a slice of characters.
pub fn contains_char(targets: &[char], c: char) -> (r: bool)
    ensures
        r == targets@.contains(c),
{
    let mut i: usize = 0;
    while i < targets.len()
        invariant
            i <= targets@.len(),
            forall|j: int| 0 <= j < i ==> targets@[j] != c,
        decreases targets@.len() - i,
    {
        if targets[i] == c {
            return true;
        }
        i += 1;
    }
    false
}

/// Position of the last occurrence in `s` of any character of `targets`.
pub fn rfind_in(s: &str, targets: &[char]) -> (r: Option<usize>)
    ensures
        match r {
            Some(i) => rfind(s@, targets@) == i as int,
            None => rfind(s@, targets@) == -1,
        },
{
    let n = s.unicode_len();
    let mut i = n;
    while i > 0
        invariant
            n == s@.len(),
            i <= n,
            forall|j: int| i <= j < n ==> !targets@.contains(#[trigger] s@[j]),
        decreases i,
    {
        i -= 1;
        let c = s.get_char(i);
        if contains_char(targets, c) {
            proof {
                lemma_rfind_at(s@, targets@, i as int);
            }
            return Some(i);
        }
    }
    proof {
        lemma_rfind_none(s@, targets@);
    }
    None
}

/// Index of the first occurrence of `c` in `s`, or `-1` when `c` does
/// not occur.
pub open spec fn find_char(s: Seq<char>, c: char) -> int
    decreases s.len(),
{
    if s.len() == 0 {
        -1
    } else if s[0] == c {
        0
    } else {
        let r = find_char(s.drop_first(), c);
        if r < 0 {
            -1
        } else {
            r + 1
        }
    }
}

pub proof fn lemma_find_char_at(s: Seq<char>, c: char, i: int)
    requires
        0 <= i < s.len(),
        s[i] == c,
        forall|j: int| 0 <= j < i ==> s[j] != c,
    ensures
        find_char(s, c) == i,
    decreases s.len(),
{
    if i > 0 {
        lemma_find_char_at(s.drop_first(), c, i - 1);
    }
}

pub proof fn lemma_find_char_none(s: Seq<char>, c: char)
    requires
        forall|j: int| 0 <= j < s.len() ==> s[j] != c,
    ensures
        find_char(s, c) == -1,
    decreases s.len(),
{
    if s.len() > 0 {
        lemma_find_char_none(s.drop_first(), c);
    }
}

/// Position of the first occurrence of `c` in `s`.
pub fn find_in(s: &str, c: char) -> (r: Option<usize>)
    ensures
        match r {
            Some(i) => find_char(s@, c) == i as int && i < s@.len(),
            None => find_char(s@, c) == -1,
        },
{
    let n = s.unicode_len();
    let mut i: usize = 0;
    while i < n
        invariant
            n == s@.len(),
            i <= n,
            forall|j: int| 0 <= j < i ==> s@[j] != c,
        decreases n - i,
    {
        if s.get_char(i) == c {
            proof {
                lemma_find_char_at(s@, c, i as int);
            }
            return Some(i);
        }
        i += 1;
    }
    proof {
        lemma_find_char_none(s@, c);
    }
    None
}

/// Whether `s` ends with `suffix`.
pub open spec fn ends_with(s: Seq<char>, suffix: Seq<char>) -> bool {
    s.len() >= suffix.len() && s.subrange(s.len() - suffix.len(), s.len() as int) == suffix
}

pub fn ends_with_str(s: &str, suffix: &str) -> (r: bool)
    ensures
        r == ends_with(s@, suffix@),
{
    let n = s.unicode_len();
    let m = suffix.unicode_len();
    if m > n {
        return false;
    }
    let mut i: usize = 0;
    while i < m
        invariant
            n == s@.len(),
            m == suffix@.len(),
            m <= n,
            i <= m,
            forall|j: int| 0 <= j < i ==> s@[n - m + j] == suffix@[j],
        decreases m - i,
    {
        if s.get_char(n - m + i) != suffix.get_char(i) {
            proof {
                let sub = s@.subrange(n as int - m as int, n as int);
                assert(sub[i as int] == s@[n - m + i]);
            }
            return false;
        }
        i += 1;
    }
    proof {
        assert(s@.subrange(n as int - m as int, n as int) =~= suffix@);
    }
    true
}

/// Character-wise string equality.
pub fn str_eq(a: &str, b: &str) -> (r: bool)
    ensures
        r == (a@ == b@),
{
    let n = a.unicode_len();
    if n != b.unicode_len() {
        return false;
    }
    let mut i: usize = 0;
    while i < n
        invariant
            n == a@.len(),
            n == b@.len(),
            i <= n,
            forall|j: int| 0 <= j < i ==> a@[j] == b@[j],
        decreases n - i,
    {
        if a.get_char(i) != b.get_char(i) {
            return false;
        }
        i += 1;
    }
    proof {
        assert(a@ =~= b@);
    }
    true
}

} // verus!
