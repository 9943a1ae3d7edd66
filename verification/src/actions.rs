//! Turning the route of a notification action into a URL that may be opened.
use vstd::prelude::*;

use crate::text::{
    ascii_lower_text, chars_of, chars_start_with, chars_start_with_ascii_lower, copy_range,
    lemma_trim_idempotent, starts_with, string_from_chars, trim, trimmed_chars,
};

verus! {

/// `s` with every trailing `c` removed (`str::trim_end_matches` with one character).
pub open spec fn trim_end_char(s: Seq<char>, c: char) -> Seq<char>
    decreases s.len(),
{
    if s.len() > 0 && s.last() == c {
        trim_end_char(s.drop_last(), c)
    } else {
        s
    }
}

/// The URL that a route opens: `None` for an empty or unsafe route (one that starts
/// with `//`, or, in any ASCII case, with `javascript:` or `file:`); an absolute
/// `http://` or `https://` route as it stands; a route that starts with `/` appended
/// to `base` without its trailing slashes; `None` for anything else. The route is
/// taken without surrounding whitespace.
pub open spec fn spec_build_url(base: Seq<char>, route: Seq<char>) -> Option<Seq<char>> {
    let r = trim(route);
    if r.len() == 0 || starts_with(r, "//"@) || starts_with(ascii_lower_text(r), "javascript:"@)
        || starts_with(ascii_lower_text(r), "file:"@) {
        None
    } else if starts_with(r, "http://"@) || starts_with(r, "https://"@) {
        Some(r)
    } else if starts_with(r, "/"@) {
        Some(trim_end_char(base, '/') + r)
    } else {
        None
    }
}

/// Whitespace around a route never changes where it leads.
pub proof fn lemma_build_url_ignores_surrounding_whitespace(base: Seq<char>, route: Seq<char>)
    ensures
        spec_build_url(base, trim(route)) == spec_build_url(base, route),
{
    lemma_trim_idempotent(route);
}

proof fn lemma_trim_end_char(s: Seq<char>, c: char, b: int)
    requires
        0 <= b <= s.len(),
        forall|i: int| b <= i < s.len() ==> #[trigger] s[i] == c,
        b == 0 || s[b - 1] != c,
    ensures
        trim_end_char(s, c) == s.take(b),
    decreases s.len(),
{
    if s.len() > b {
        let t = s.drop_last();
        assert forall|i: int| b <= i < t.len() implies #[trigger] t[i] == c by {
            assert(t[i] == s[i]);
        }
        if b > 0 {
            assert(t[b - 1] == s[b - 1]);
        }
        lemma_trim_end_char(t, c, b);
        assert(t.take(b) =~= s.take(b));
    } else {
        assert(s.take(b) =~= s);
    }
}

/// Builds the URL that opening `route` leads to, relative to the dashboard `base`.
pub fn build_url(base: &str, route: &str) -> (url: Option<String>)
    ensures
        match spec_build_url(base@, route@) {
            Some(u) => url is Some && url->0@ == u,
            None => url is None,
        },
{
    let r = trimmed_chars(route);
    let double_slash = chars_of("//");
    let javascript = chars_of("javascript:");
    let file = chars_of("file:");
    if r.len() == 0 || chars_start_with(&r, &double_slash) || chars_start_with_ascii_lower(
        &r,
        &javascript,
    ) || chars_start_with_ascii_lower(&r, &file) {
        return None;
    }
    let http = chars_of("http://");
    let https = chars_of("https://");
    if chars_start_with(&r, &http) || chars_start_with(&r, &https) {
        return Some(string_from_chars(&r));
    }
    let slash = chars_of("/");
    if chars_start_with(&r, &slash) {
        let b = chars_of(base);
        let mut end = b.len();
        while end > 0 && b[end - 1] == '/'
            invariant
                end <= b.len(),
                forall|i: int| end <= i < b.len() ==> #[trigger] b@[i] == '/',
            decreases end,
        {
            end -= 1;
        }
        proof {
            lemma_trim_end_char(b@, '/', end as int);
        }
        let mut joined = copy_range(&b, 0, end);
        let mut i: usize = 0;
        while i < r.len()
            invariant
                i <= r.len(),
                joined@ == b@.take(end as int) + r@.take(i as int),
            decreases r.len() - i,
        {
            joined.push(r[i]);
            i += 1;
            assert(joined@ =~= b@.take(end as int) + r@.take(i as int));
        }
        assert(r@.take(r.len() as int) =~= r@);
        return Some(string_from_chars(&joined));
    }
    None
}

} // verus!
