//! Telling a URL from a local path, and the URL that a download requests.
use crate::text::{chars_of, find_char, find_first, has_prefix, push_str, sub_chars};
use vstd::prelude::*;

verus! {

/// The first component of a relative path: the text before the first `/`.
pub open spec fn first_segment(s: Seq<char>) -> Seq<char> {
    match find_first(s, '/') {
        Some(i) => s.take(i),
        None => s,
    }
}

pub open spec fn http_scheme() -> Seq<char> {
    seq!['h', 't', 't', 'p', ':']
}

pub open spec fn https_scheme() -> Seq<char> {
    seq!['h', 't', 't', 'p', 's', ':']
}

/// A path is taken for a URL when its first component is `http:` or
/// `https:`, as `Path::starts_with("http://")` decides: path prefixes match
/// whole components, and `//` separates no component.
pub open spec fn url_like(s: Seq<char>) -> bool {
    first_segment(s) == http_scheme() || first_segment(s) == https_scheme()
}

/// Sources that may name either a local file or a URL.
pub trait IsUrl {
    fn is_url(&self) -> bool;
}

impl IsUrl for str {
    fn is_url(&self) -> (r: bool)
        ensures
            r == url_like(self@),
    {
        let c = chars_of(self);
        proof {
            crate::text::lemma_find_first(c@, '/');
        }
        let seg = match find_char(&c, '/') {
            Some(i) => sub_chars(&c, 0, i),
            None => sub_chars(&c, 0, c.len()),
        };
        assert(seg@ == first_segment(self@)) by {
            assert(c@.subrange(0, c@.len() as int) =~= c@);
        }
        let http = chars_of("http:");
        let https = chars_of("https:");
        proof {
            reveal_strlit("http:");
            reveal_strlit("https:");
            assert(http@ =~= http_scheme());
            assert(https@ =~= https_scheme());
        }
        let a = seg.len() == 5 && has_prefix(&seg, &http);
        let b = seg.len() == 6 && has_prefix(&seg, &https);
        proof {
            if a {
                assert(seg@ =~= http_scheme());
            }
            if b {
                assert(seg@ =~= https_scheme());
            }
            if seg@ == http_scheme() {
                assert(http@.is_prefix_of(seg@));
            }
            if seg@ == https_scheme() {
                assert(https@.is_prefix_of(seg@));
            }
        }
        a || b
    }
}

/// The URL requested for `url`: kept when it begins with `http://` or
/// `https://`, otherwise taken as `http://` followed by `url`.
pub open spec fn request_url_spec(url: Seq<char>) -> Seq<char> {
    let http = seq!['h', 't', 't', 'p', ':', '/', '/'];
    let https = seq!['h', 't', 't', 'p', 's', ':', '/', '/'];
    if http.is_prefix_of(url) || https.is_prefix_of(url) {
        url
    } else {
        http + url
    }
}

/// The URL that a download of `url` requests.
pub fn request_url(url: &str) -> (r: String)
    ensures
        r@ == request_url_spec(url@),
{
    let c = chars_of(url);
    let http = chars_of("http://");
    let https = chars_of("https://");
    proof {
        reveal_strlit("http://");
        reveal_strlit("https://");
        assert(http@ =~= seq!['h', 't', 't', 'p', ':', '/', '/']);
        assert(https@ =~= seq!['h', 't', 't', 'p', 's', ':', '/', '/']);
    }
    if has_prefix(&c, &http) || has_prefix(&c, &https) {
        url.to_string()
    } else {
        let mut r = "http://".to_string();
        push_str(&mut r, url);
        r
    }
}

} // verus!
