//! Canonicalization of landing-page addresses.
//!
//! Before a visit is recorded, the page address is normalized: a query
//! string is dropped, and a trailing run of `/index.html` repetitions —
//! or, failing that, of slashes — is removed, so that spellings of the
//! same page fall together.

use vstd::prelude::*;
use vstd::string::*;

use crate::scan::{find_char, find_in, ends_with, ends_with_str};

verus! {

/// The index-page suffix that is stripped from page addresses.
pub open spec fn index_suffix() -> Seq<char> {
    seq!['/', 'i', 'n', 'd', 'e', 'x', '.', 'h', 't', 'm', 'l']
}

/// Everything before the first `?`, or the whole string without one.
pub open spec fn strip_query(s: Seq<char>) -> Seq<char> {
    let i = find_char(s, '?');
    if i < 0 {
        s
    } else {
        s.take(i)
    }
}

/// Remove every trailing repetition of `suffix`.
pub open spec fn trim_end_all(s: Seq<char>, suffix: Seq<char>) -> Seq<char>
    recommends
        suffix.len() >= 1,
    decreases s.len(),
{
    if suffix.len() >= 1 && ends_with(s, suffix) {
        trim_end_all(s.take(s.len() - suffix.len()), suffix)
    } else {
        s
    }
}

/// The canonical form of a page address.
pub open spec fn normalized_page(s: Seq<char>) -> Seq<char> {
    let q = strip_query(s);
    if ends_with(q, index_suffix()) {
        trim_end_all(q, index_suffix())
    } else if ends_with(q, seq!['/']) {
        trim_end_all(q, seq!['/'])
    } else {
        q
    }
}

/// Remove every trailing repetition of `suffix` from `s`.
fn trim_end_all_str(s: &str, suffix: &str) -> (out: String)
    requires
        suffix@.len() >= 1,
    ensures
        out@ == trim_end_all(s@, suffix@),
{
    let m = suffix.unicode_len();
    let mut end = s.unicode_len();
    proof {
        assert(s@.take(end as int) =~= s@);
    }
    while ends_with_str(s.substring_char(0, end), suffix)
        invariant
            end <= s@.len(),
            m == suffix@.len(),
            m >= 1,
            trim_end_all(s@.take(end as int), suffix@) == trim_end_all(s@, suffix@),
        decreases end,
    {
        proof {
            assert(s@.take(end as int).take(end as int - m as int) =~= s@.take(
                end as int - m as int,
            ));
        }
        end = end - m;
    }
    let out = String::from_str(s.substring_char(0, end));
    proof {
        assert(out@ == s@.take(end as int));
    }
    out
}

/// Normalize a landing-page address to its canonical form.
pub fn normalize_page(page: &str) -> (out: String)
    ensures
        out@ == normalized_page(page@),
{
    let stripped = match find_in(page, '?') {
        Some(i) => page.substring_char(0, i),
        None => page,
    };
    proof {
        assert(stripped@ == strip_query(page@));
    }
    proof {
        reveal_strlit("/index.html");
        assert("/index.html"@ =~= index_suffix());
        reveal_strlit("/");
        assert("/"@ =~= seq!['/']);
    }
    if ends_with_str(stripped, "/index.html") {
        trim_end_all_str(stripped, "/index.html")
    } else if ends_with_str(stripped, "/") {
        trim_end_all_str(stripped, "/")
    } else {
        String::from_str(stripped)
    }
}

} // verus!
