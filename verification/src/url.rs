//! Normalisation of the monitoring URL given on the command line.

use vstd::prelude::*;
use crate::text::push_char;

verus! {

/// "http://"
pub open spec fn http_scheme() -> Seq<char> {
    seq!['h', 't', 't', 'p', ':', '/', '/']
}

/// "https://"
pub open spec fn https_scheme() -> Seq<char> {
    seq!['h', 't', 't', 'p', 's', ':', '/', '/']
}

/// `s` begins with `p`.
pub open spec fn has_prefix(s: Seq<char>, p: Seq<char>) -> bool {
    p.len() <= s.len() && s.subrange(0, p.len() as int) == p
}

/// `u`, with "http://" put in front unless it already starts with
/// "http://" or "https://".
pub open spec fn with_scheme(u: Seq<char>) -> Seq<char> {
    if has_prefix(u, http_scheme()) || has_prefix(u, https_scheme()) {
        u
    } else {
        http_scheme() + u
    }
}

/// `s` without the '/' characters at its end.
pub open spec fn trim_trailing_slashes(s: Seq<char>) -> Seq<char>
    decreases s.len(),
{
    if s.len() > 0 && s.last() == '/' {
        trim_trailing_slashes(s.drop_last())
    } else {
        s
    }
}

/// What `normalize_url` returns for `u`.
pub open spec fn spec_normalize_url(u: Seq<char>) -> Seq<char> {
    trim_trailing_slashes(with_scheme(u))
}

fn starts_with_chars(s: &Vec<char>, p: &Vec<char>) -> (b: bool)
    ensures
        b == has_prefix(s@, p@),
{
    if p.len() > s.len() {
        return false;
    }
    let mut i: usize = 0;
    while i < p.len()
        invariant
            p@.len() <= s@.len(),
            i <= p@.len(),
            forall|j: int| 0 <= j < i ==> s@[j] == p@[j],
        decreases p@.len() - i,
    {
        if s[i] != p[i] {
            assert(s@.subrange(0, p@.len() as int)[i as int] != p@[i as int]);
            return false;
        }
        i = i + 1;
    }
    assert(s@.subrange(0, p@.len() as int) =~= p@);
    true
}

/// Puts "http://" in front of `url` unless it already starts with
/// "http://" or "https://", then drops every '/' at the end.
pub fn normalize_url(url: &str) -> (s: String)
    ensures
        s@ == spec_normalize_url(url@),
{
    let n: usize = url.unicode_len();
    let mut u: Vec<char> = Vec::new();
    let mut i: usize = 0;
    while i < n
        invariant
            n == url@.len(),
            i <= n,
            u@ =~= url@.subrange(0, i as int),
        decreases n - i,
    {
        u.push(url.get_char(i));
        i = i + 1;
    }
    assert(u@ =~= url@);
    let http: Vec<char> = vec!['h', 't', 't', 'p', ':', '/', '/'];
    let https: Vec<char> = vec!['h', 't', 't', 'p', 's', ':', '/', '/'];
    assert(http@ =~= http_scheme());
    assert(https@ =~= https_scheme());
    let mut full: Vec<char>;
    if starts_with_chars(&u, &http) || starts_with_chars(&u, &https) {
        full = u;
    } else {
        full = http;
        let mut k: usize = 0;
        while k < u.len()
            invariant
                k <= u@.len(),
                full@ =~= http_scheme() + u@.subrange(0, k as int),
            decreases u@.len() - k,
        {
            full.push(u[k]);
            k = k + 1;
        }
        assert(u@.subrange(0, u@.len() as int) =~= u@);
    }
    assert(full@ == with_scheme(url@));
    let mut j: usize = full.len();
    assert(full@.subrange(0, j as int) =~= full@);
    while j > 0 && full[j - 1] == '/'
        invariant
            j <= full@.len(),
            trim_trailing_slashes(full@) == trim_trailing_slashes(full@.subrange(0, j as int)),
        decreases j,
    {
        assert(full@.subrange(0, j as int).drop_last() =~= full@.subrange(0, j - 1));
        j = j - 1;
    }
    assert(trim_trailing_slashes(full@.subrange(0, j as int)) == full@.subrange(0, j as int));
    let mut out = String::new();
    let mut k: usize = 0;
    while k < j
        invariant
            j <= full@.len(),
            k <= j,
            out@ =~= full@.subrange(0, k as int),
        decreases j - k,
    {
        push_char(&mut out, full[k]);
        k = k + 1;
    }
    out
}

proof fn lemma_trim_keeps_prefix(s: Seq<char>, p: Seq<char>)
    requires
        has_prefix(s, p),
        p.len() > 0,
        p.last() != '/',
    ensures
        has_prefix(trim_trailing_slashes(s), p),
        trim_trailing_slashes(s).len() > 0,
        trim_trailing_slashes(s).last() != '/',
    decreases s.len(),
{
    if s.len() > 0 && s.last() == '/' {
        assert(s.len() > p.len()) by {
            if s.len() == p.len() {
                assert(s =~= s.subrange(0, p.len() as int));
            }
        }
        assert(s.drop_last().subrange(0, p.len() as int) =~= s.subrange(0, p.len() as int));
        lemma_trim_keeps_prefix(s.drop_last(), p);
    } else {
        assert(s.len() >= p.len());
        assert(s[p.len() - 1] == s.subrange(0, p.len() as int)[p.len() - 1]);
    }
}

/// A normalised URL is never empty and never ends with '/': it starts with
/// "http:" (or "https:") and loses only trailing slashes.
pub proof fn law_normalized_has_no_trailing_slash(u: Seq<char>)
    ensures
        spec_normalize_url(u).len() > 0,
        spec_normalize_url(u).last() != '/',
{
    let w = with_scheme(u);
    let p = seq!['h', 't', 't', 'p'];
    if has_prefix(u, http_scheme()) {
        assert(w.subrange(0, 4) =~= http_scheme().subrange(0, 4));
    } else if has_prefix(u, https_scheme()) {
        assert(w.subrange(0, 4) =~= https_scheme().subrange(0, 4));
    } else {
        assert(w.subrange(0, 4) =~= http_scheme().subrange(0, 4));
    }
    assert(p =~= http_scheme().subrange(0, 4));
    assert(p =~= https_scheme().subrange(0, 4));
    lemma_trim_keeps_prefix(w, p);
}

/// Normalising twice changes nothing, for every URL whose normal form
/// still starts with "http://" or "https://" (those with something other
/// than '/' after the scheme).
pub proof fn law_normalize_idempotent(u: Seq<char>)
    requires
        has_prefix(spec_normalize_url(u), http_scheme()) || has_prefix(
            spec_normalize_url(u),
            https_scheme(),
        ),
    ensures
        spec_normalize_url(spec_normalize_url(u)) == spec_normalize_url(u),
{
    law_normalized_has_no_trailing_slash(u);
}

/// A URL with neither scheme gets "http://" in front: when it does not end
/// with '/', the result is exactly "http://" followed by it, and in any
/// case it is "http://" followed by it without its trailing slashes, so
/// long as it has a character other than '/'.
pub proof fn law_adds_http(u: Seq<char>)
    requires
        !has_prefix(u, seq!['h', 't', 't', 'p', ':', '/', '/']),
        !has_prefix(u, seq!['h', 't', 't', 'p', 's', ':', '/', '/']),
    ensures
        u.len() > 0 && u.last() != '/' ==> spec_normalize_url(u) == seq![
            'h',
            't',
            't',
            'p',
            ':',
            '/',
            '/',
        ] + u,
        spec_normalize_url(u) == seq!['h', 't', 't', 'p', ':', '/', '/'] + trim_trailing_slashes(u)
            || trim_trailing_slashes(u).len() == 0,
{
    assert(http_scheme() =~= seq!['h', 't', 't', 'p', ':', '/', '/']);
    assert(https_scheme() =~= seq!['h', 't', 't', 'p', 's', ':', '/', '/']);
    lemma_trim_under_prefix(http_scheme(), u);
}

proof fn lemma_trim_under_prefix(p: Seq<char>, u: Seq<char>)
    ensures
        trim_trailing_slashes(u).len() > 0 ==> trim_trailing_slashes(p + u) == p
            + trim_trailing_slashes(u),
    decreases u.len(),
{
    if u.len() > 0 && u.last() == '/' {
        assert((p + u).drop_last() =~= p + u.drop_last());
        lemma_trim_under_prefix(p, u.drop_last());
    } else if u.len() > 0 {
        assert((p + u).last() == u.last());
    }
}

/// A URL that already starts with "http://" or "https://" keeps its
/// scheme: only its trailing slashes go, and one without them is returned
/// unchanged.
pub proof fn law_keeps_scheme(u: Seq<char>)
    requires
        has_prefix(u, seq!['h', 't', 't', 'p', ':', '/', '/']) || has_prefix(
            u,
            seq!['h', 't', 't', 'p', 's', ':', '/', '/'],
        ),
    ensures
        spec_normalize_url(u) == trim_trailing_slashes(u),
        u.last() != '/' ==> spec_normalize_url(u) == u,
{
    assert(http_scheme() =~= seq!['h', 't', 't', 'p', ':', '/', '/']);
    assert(https_scheme() =~= seq!['h', 't', 't', 'p', 's', ':', '/', '/']);
}

/// Trimming takes off the '/' at the end and nothing else: the input is
/// the result followed by slashes only, and the result does not end with
/// '/'.
pub proof fn law_trim_removes_only_trailing_slashes(s: Seq<char>)
    ensures
        has_prefix(s, trim_trailing_slashes(s)),
        forall|i: int|
            trim_trailing_slashes(s).len() <= i < s.len() ==> s[i] == '/',
        trim_trailing_slashes(s).len() == 0 || trim_trailing_slashes(s).last() != '/',
    decreases s.len(),
{
    if s.len() > 0 && s.last() == '/' {
        law_trim_removes_only_trailing_slashes(s.drop_last());
        let t = trim_trailing_slashes(s);
        assert(s.subrange(0, t.len() as int) =~= s.drop_last().subrange(0, t.len() as int));
        assert forall|i: int| t.len() <= i < s.len() implies s[i] == '/' by {
            if i < s.len() - 1 {
                assert(s[i] == s.drop_last()[i]);
            }
        }
    } else {
        assert(s.subrange(0, s.len() as int) =~= s);
    }
}

} // verus!
