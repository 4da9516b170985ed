//! Paths of the HMI's private file area: the checks made on a path that a
//! client names, and the file it resolves to under the area's directory;
//! and the targets of remote private files, served by this node or by the
//! node that they name.
use crate::text::{
    chars_of, contains_run, find_char, find_first, has_prefix, has_substring, lemma_find_first,
    push_str, split_once, str_eq, string_of, sub_chars,
};
use eva_common::acl::Acl;
use vstd::prelude::*;

verus! {

#[verifier::external_type_specification]
#[verifier::external_body]
pub struct ExAcl(eva_common::acl::Acl);

/// What is done with a private-area path.
#[derive(PartialEq, Eq, Structural, Copy, Clone, Debug)]
pub enum PvtOp {
    List,
    Read,
    Write,
}

/// Why a private-area path was refused.
#[derive(PartialEq, Eq, Structural, Copy, Clone, Debug)]
pub enum PvtPathError {
    /// no private area is configured
    NotSet,
    /// the path must be relative to the private area
    Absolute,
    /// the path can not contain `../`
    ParentDir,
    /// the path can not contain or start with `./`
    CurrentDir,
    /// the ACL does not grant the access
    AccessDenied,
}

/// The path that `base` extended by the components of the relative path
/// `rel` gives, as `PathBuf::extend` builds it.
pub uninterp spec fn extended_path(base: Seq<char>, rel: Seq<char>) -> Seq<char>;

/// Calls `<PathBuf as Extend>::extend` with the components of `rel`; the
/// contract names the outcome [`extended_path`].
#[verifier::external_body]
fn extend_path(base: &str, rel: &str) -> (r: String)
    ensures
        r@ == extended_path(base@, rel@),
{
    let mut p = std::path::PathBuf::from(base);
    p.extend(std::path::Path::new(rel));
    p.to_string_lossy().into_owned()
}

/// Calls `Acl::check_pvt_read`; whether the ACL grants reading the path is
/// not stated here: it depends on the ACL's masks.
#[verifier::external_body]
pub(crate) fn pvt_read_allowed(acl: &Acl, path: &str) -> (r: bool) {
    acl.check_pvt_read(path)
}

/// Calls `Acl::check_pvt_write`; whether the ACL grants writing the path is
/// not stated here: it depends on the ACL's masks.
#[verifier::external_body]
fn pvt_write_allowed(acl: &Acl, path: &str) -> (r: bool) {
    acl.check_pvt_write(path)
}

/// What a path checks out to: the path that the ACL is asked about and the
/// resolved file path, or why it is refused.
pub open spec fn pvt_plan(s: Seq<char>, pvt_path: Option<Seq<char>>) -> Result<
    (Seq<char>, Seq<char>),
    PvtPathError,
> {
    match pvt_path {
        None => Err(PvtPathError::NotSet),
        Some(base) => if s == "/"@ {
            Ok((Seq::<char>::empty(), base))
        } else if s.len() > 0 && s[0] == '/' {
            Err(PvtPathError::Absolute)
        } else if contains_run(s, "../"@) {
            Err(PvtPathError::ParentDir)
        } else if contains_run(s, "/./"@) || "./"@.is_prefix_of(s) {
            Err(PvtPathError::CurrentDir)
        } else {
            Ok((s, extended_path(base, s)))
        },
    }
}

/// Checks a client's path and resolves it under the private area
/// `pvt_path`; reading and writing also need the ACL's grant for the path
/// (for `/`, for the empty path).
pub fn format_and_check_path(s: &str, pvt_path: Option<&str>, acl: &Acl, op: PvtOp) -> (r: Result<
    String,
    PvtPathError,
>)
    ensures
        match pvt_plan(
            s@,
            match pvt_path {
                Some(p) => Some(p@),
                None => None,
            },
        ) {
            Err(e) => r == Err::<String, PvtPathError>(e),
            Ok((_, full)) => match r {
                Ok(p) => p@ == full,
                Err(e) => e == PvtPathError::AccessDenied && op != PvtOp::List,
            },
        },
{
    let base = match pvt_path {
        None => {
            return Err(PvtPathError::NotSet);
        },
        Some(b) => b,
    };
    let c = chars_of(s);
    let parent = chars_of("../");
    let cur = chars_of("/./");
    let lead = chars_of("./");
    proof {
        reveal_strlit("/");
    }
    let (subject, full) = if str_eq(s, "/") {
        ("".to_string(), base.to_string())
    } else if c.len() > 0 && c[0] == '/' {
        return Err(PvtPathError::Absolute);
    } else if has_substring(&c, &parent) {
        return Err(PvtPathError::ParentDir);
    } else if has_substring(&c, &cur) || has_prefix(&c, &lead) {
        return Err(PvtPathError::CurrentDir);
    } else {
        (s.to_string(), extend_path(base, s))
    };
    proof {
        reveal_strlit("");
        assert(subject@ =~= Seq::<char>::empty() || subject@ == s@);
    }
    let allowed = match op {
        PvtOp::List => true,
        PvtOp::Read => pvt_read_allowed(acl, subject.as_str()),
        PvtOp::Write => pvt_write_allowed(acl, subject.as_str()),
    };
    if allowed {
        Ok(full)
    } else {
        Err(PvtPathError::AccessDenied)
    }
}

/// A path that passes the checks names no parent or current directory and
/// is relative, so it cannot leave the private area by `..` in a `../`
/// form, nor by an absolute path.
pub proof fn law_accepted_path_is_relative(s: Seq<char>, base: Seq<char>)
    requires
        pvt_plan(s, Some(base)) is Ok,
        s != "/"@,
    ensures
        !(s.len() > 0 && s[0] == '/'),
        !contains_run(s, "../"@),
        !contains_run(s, "/./"@),
        !"./"@.is_prefix_of(s),
{
}

/// The text that `urlencoding::decode` gives for `s`: its percent escapes
/// decoded and the bytes read as UTF-8; `None` where they are not UTF-8.
pub uninterp spec fn url_decoded(s: Seq<char>) -> Option<Seq<char>>;

/// An optional text as a value.
pub open spec fn text_opt(o: Option<String>) -> Option<Seq<char>> {
    match o {
        Some(t) => Some(t@),
        None => None,
    }
}

/// Calls `urlencoding::decode`; the contract names the outcome
/// [`url_decoded`]. As the crate's source shows, a text without `%` comes
/// back unchanged.
#[verifier::external_body]
fn url_decode(s: &str) -> (r: Option<String>)
    ensures
        text_opt(r) == url_decoded(s@),
        !s@.contains('%') ==> text_opt(r) == Some(s@),
{
    match urlencoding::decode(s) {
        Ok(t) => Some(t.into_owned()),
        Err(_) => None,
    }
}

/// Calls `Acl::check_rpvt_read`; whether the ACL grants reading the remote
/// file is not stated here: it depends on the ACL's masks.
#[verifier::external_body]
fn rpvt_read_allowed(acl: &Acl, path: &str) -> (r: bool) {
    acl.check_rpvt_read(path)
}

/// Why a remote private file was refused.
#[derive(PartialEq, Eq, Structural, Copy, Clone, Debug)]
pub enum RpvtError {
    /// the target's escapes do not decode to UTF-8 text
    BadEncoding,
    /// the target is empty
    EmptyTarget,
    /// the client is not authenticated, or its ACL does not grant the file
    Denied,
    /// the target names a node and no file
    NoTarget,
}

/// Where a remote private file is served from.
pub enum RpvtRoute {
    /// This node serves the URI.
    Local(String),
    /// The named node serves the URI.
    Remote(String, String),
}

/// The node and URI of a decoded target: `node/uri`, served here when the
/// node is `.local` or this node's name.
pub open spec fn rpvt_split(target: Seq<char>, system_name: Seq<char>) -> Result<
    (bool, Seq<char>, Seq<char>),
    RpvtError,
> {
    match split_once(target, '/') {
        (_, None) => Err(RpvtError::NoTarget),
        (node, Some(uri)) => Ok((node == ".local"@ || node == system_name, node, uri)),
    }
}

/// A route as values: whether it is served here, the node and the URI.
pub open spec fn route_view(r: Result<RpvtRoute, RpvtError>) -> Result<
    (bool, Seq<char>, Seq<char>),
    RpvtError,
> {
    match r {
        Ok(RpvtRoute::Local(uri)) => Ok((true, Seq::empty(), uri@)),
        Ok(RpvtRoute::Remote(node, uri)) => Ok((false, node@, uri@)),
        Err(e) => Err(e),
    }
}

/// A split target as a route: a local one forgets its node.
pub open spec fn split_route(s: Result<(bool, Seq<char>, Seq<char>), RpvtError>) -> Result<
    (bool, Seq<char>, Seq<char>),
    RpvtError,
> {
    match s {
        Ok((true, _, uri)) => Ok((true, Seq::empty(), uri)),
        other => other,
    }
}

/// The decoded target of a remote private file name.
pub fn rpvt_target(rpvt_file: &str) -> (r: Result<String, RpvtError>)
    ensures
        match url_decoded(rpvt_file@) {
            None => r == Err::<String, RpvtError>(RpvtError::BadEncoding),
            Some(t) => if t.len() == 0 {
                r == Err::<String, RpvtError>(RpvtError::EmptyTarget)
            } else {
                r matches Ok(s) && s@ == t
            },
        },
{
    match url_decode(rpvt_file) {
        None => Err(RpvtError::BadEncoding),
        Some(t) => {
            if t.as_str().unicode_len() == 0 {
                Err(RpvtError::EmptyTarget)
            } else {
                Ok(t)
            }
        },
    }
}

/// Routes a decoded target once the client's access is known: `granted`
/// is whether it is authenticated and its ACL grants the target.
pub fn rpvt_plan(target: &str, granted: bool, system_name: &str) -> (r: Result<
    RpvtRoute,
    RpvtError,
>)
    ensures
        !granted ==> r == Err::<RpvtRoute, RpvtError>(RpvtError::Denied),
        granted ==> route_view(r) == split_route(rpvt_split(target@, system_name@)),
{
    if !granted {
        return Err(RpvtError::Denied);
    }
    let c = chars_of(target);
    proof {
        lemma_find_first(c@, '/');
    }
    match find_char(&c, '/') {
        None => Err(RpvtError::NoTarget),
        Some(i) => {
            let node = string_of(&sub_chars(&c, 0, i));
            let uri = string_of(&sub_chars(&c, i + 1, c.len()));
            proof {
                reveal_strlit(".local");
                assert(node@ =~= c@.take(i as int));
                assert(uri@ =~= c@.skip(i + 1));
            }
            if str_eq(node.as_str(), ".local") || str_eq(node.as_str(), system_name) {
                Ok(RpvtRoute::Local(uri))
            } else {
                Ok(RpvtRoute::Remote(node, uri))
            }
        },
    }
}

/// Routes a remote private file for a client whose ACL is `acl` (`None`
/// where the client is not authenticated), on the node `system_name`.
pub fn rpvt_route(rpvt_file: &str, acl: Option<&Acl>, system_name: &str) -> (r: Result<
    RpvtRoute,
    RpvtError,
>)
    ensures
        match url_decoded(rpvt_file@) {
            None => r == Err::<RpvtRoute, RpvtError>(RpvtError::BadEncoding),
            Some(t) => if t.len() == 0 {
                r == Err::<RpvtRoute, RpvtError>(RpvtError::EmptyTarget)
            } else if acl is None {
                r == Err::<RpvtRoute, RpvtError>(RpvtError::Denied)
            } else {
                r == Err::<RpvtRoute, RpvtError>(RpvtError::Denied) || route_view(r)
                    == split_route(rpvt_split(t, system_name@))
            },
        },
{
    let target = match rpvt_target(rpvt_file) {
        Ok(t) => t,
        Err(e) => return Err(e),
    };
    let granted = match acl {
        Some(a) => rpvt_read_allowed(a, target.as_str()),
        None => false,
    };
    rpvt_plan(target.as_str(), granted, system_name)
}

/// The path that a node serving a remote private file for another one is
/// asked for: the URI under `.local/`.
pub fn forwarded_rpvt_path(uri: &str) -> (r: String)
    ensures
        r@ == ".local/"@ + uri@,
{
    let mut r = ".local/".to_string();
    push_str(&mut r, uri);
    r
}

/// A node that forwards a remote private file asks the serving node for
/// the URI under `.local/`, and the serving node serves that URI itself.
pub proof fn law_forwarded_path_is_local(uri: Seq<char>, system_name: Seq<char>)
    ensures
        split_route(rpvt_split(".local/"@ + uri, system_name)) == Ok::<
            (bool, Seq<char>, Seq<char>),
            RpvtError,
        >((true, Seq::<char>::empty(), uri)),
{
    reveal_strlit(".local/");
    reveal_strlit(".local");
    let t = ".local/"@ + uri;
    lemma_find_first(t, '/');
    assert(t[6] == '/');
    match find_first(t, '/') {
        Some(i) => {
            if i < 6 {
                assert(t[i] != '/');
            }
            if i > 6 {
                assert(t[6] != '/');
            }
        },
        None => {
            assert(t.contains(t[6]));
        },
    }
    assert(t.take(6) =~= ".local"@);
    assert(t.skip(7) =~= uri);
}

} // verus!
