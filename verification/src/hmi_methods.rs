//! What the HMI's API methods decide around their bus calls: whose records
//! an API log query may read, which database services are listed, which
//! private files a listing shows, and the address and keys of an embedded
//! HMI app's configuration.
use crate::filewriter::{sha256, sha256_digest};
use crate::text::{after_prefix, chars_of, push_str, str_eq, strip_prefix};
use eva_common::acl::Acl;
use vstd::prelude::*;
use vstd::slice::slice_to_vec;
use vstd::utf8::encode_utf8;

verus! {

/// Why an API log query was refused.
#[derive(PartialEq, Eq, Structural, Copy, Clone, Debug)]
pub enum LogAccessError {
    /// admin access is required to get other users' logs
    OtherUser,
    /// token authentication required
    NoToken,
}

pub open spec fn str_opt(o: Option<&str>) -> Option<Seq<char>> {
    match o {
        Some(s) => Some(s@),
        None => None,
    }
}

pub open spec fn string_opt(o: Option<String>) -> Option<Seq<char>> {
    match o {
        Some(s) => Some(s@),
        None => None,
    }
}

pub open spec fn log_user_view(r: Result<Option<String>, LogAccessError>) -> Result<
    Option<Seq<char>>,
    LogAccessError,
> {
    match r {
        Ok(u) => Ok(string_opt(u)),
        Err(e) => Err(e),
    }
}

/// The user whose records an API log query reads: where the caller may
/// read all records, the filter's own (none for all users); else the
/// caller's user, which a filter may name but no other; a caller without
/// a token is refused.
pub open spec fn log_user_spec(
    filter_user: Option<Seq<char>>,
    privileged: bool,
    token_user: Option<Seq<char>>,
) -> Result<Option<Seq<char>>, LogAccessError> {
    if privileged {
        Ok(filter_user)
    } else {
        match token_user {
            None => Err(LogAccessError::NoToken),
            Some(t) => match filter_user {
                Some(u) => if u == t {
                    Ok(Some(u))
                } else {
                    Err(LogAccessError::OtherUser)
                },
                None => Ok(Some(t)),
            },
        }
    }
}

/// The user filter of an API log query, given whether the caller may read
/// every user's records and the user of the caller's token.
pub fn api_log_user(filter_user: Option<String>, privileged: bool, token_user: Option<&str>) -> (r:
    Result<Option<String>, LogAccessError>)
    ensures
        log_user_view(r) == log_user_spec(string_opt(filter_user), privileged, str_opt(token_user)),
{
    if privileged {
        return Ok(filter_user);
    }
    match token_user {
        None => Err(LogAccessError::NoToken),
        Some(t) => match filter_user {
            Some(u) => {
                if str_eq(u.as_str(), t) {
                    Ok(Some(u))
                } else {
                    Err(LogAccessError::OtherUser)
                }
            },
            None => Ok(Some(t.to_owned())),
        },
    }
}

/// A caller that may not read every user's records reads its own token
/// user's records or none: another user's records are never handed out.
pub proof fn law_unprivileged_log_is_own(filter_user: Option<Seq<char>>, token_user: Option<Seq<char>>)
    ensures
        log_user_spec(filter_user, false, token_user) matches Ok(u) ==> (token_user is Some && u
            == token_user),
        (filter_user matches Some(f) && token_user matches Some(t) && f != t) ==> log_user_spec(
            filter_user,
            false,
            token_user,
        ) == Err::<Option<Seq<char>>, LogAccessError>(LogAccessError::OtherUser),
{
}

/// Calls `Acl::check_admin`. Whether the ACL is an admin one is not
/// stated: it is a private field of the ACL.
#[verifier::external_body]
fn acl_admin(acl: &Acl) -> (r: bool) {
    acl.check_admin()
}

/// Calls `Acl::check_op` for the moderator operation. Whether the ACL
/// grants it is not stated: it rests on the ACL's private fields.
#[verifier::external_body]
fn acl_moderator(acl: &Acl) -> (r: bool) {
    acl.check_op(eva_common::acl::Op::Moderator)
}

/// The user filter of an API log query for a caller with the ACL `acl`:
/// the log is open to all callers where it is public, else to admin and
/// moderator ACLs only. Whatever the ACL grants, the result is that of
/// [`api_log_user`] with the caller privileged or not, and privileged
/// where the log is public.
pub fn api_log_user_for(
    filter_user: Option<String>,
    public_log: bool,
    acl: &Acl,
    token_user: Option<&str>,
) -> (r: Result<Option<String>, LogAccessError>)
    ensures
        public_log ==> log_user_view(r) == log_user_spec(
            string_opt(filter_user),
            true,
            str_opt(token_user),
        ),
        log_user_view(r) == log_user_spec(string_opt(filter_user), true, str_opt(token_user))
            || log_user_view(r) == log_user_spec(
            string_opt(filter_user),
            public_log,
            str_opt(token_user),
        ),
{
    let privileged = public_log || acl_admin(acl) || acl_moderator(acl);
    let r = api_log_user(filter_user, privileged, token_user);
    r
}

pub open spec fn flags_view(v: Seq<(String, bool)>) -> Seq<(Seq<char>, bool)> {
    v.map_values(|e: (String, bool)| (e.0@, e.1))
}

/// The databases among the services: each enabled service whose id begins
/// with `eva.db.`, by the rest of its id, and whether it is the default
/// one; in the services' order.
pub open spec fn db_list_spec(svcs: Seq<(Seq<char>, bool)>, default_db: Seq<char>) -> Seq<
    (Seq<char>, bool),
>
    decreases svcs.len(),
{
    if svcs.len() == 0 {
        Seq::empty()
    } else {
        let prev = db_list_spec(svcs.drop_last(), default_db);
        let (id, enabled) = svcs.last();
        if enabled && after_prefix(id, "eva.db."@) is Some {
            let db = after_prefix(id, "eva.db."@)->0;
            prev.push((db, db == default_db))
        } else {
            prev
        }
    }
}

/// Lists the database services out of the services `svcs` (id, enabled).
pub fn db_list(svcs: &Vec<(String, bool)>, default_db: &str) -> (r: Vec<(String, bool)>)
    ensures
        flags_view(r@) == db_list_spec(flags_view(svcs@), default_db@),
{
    let mut r: Vec<(String, bool)> = Vec::new();
    let mut i: usize = 0;
    while i < svcs.len()
        invariant
            i <= svcs.len(),
            flags_view(r@) == db_list_spec(flags_view(svcs@).take(i as int), default_db@),
        decreases svcs.len() - i,
    {
        let ghost sv = flags_view(svcs@);
        assert(sv.take(i as int + 1).drop_last() =~= sv.take(i as int));
        assert(sv.take(i as int + 1).last() == sv[i as int]);
        let ghost before = flags_view(r@);
        if svcs[i].1 {
            if let Some(db) = strip_prefix(svcs[i].0.as_str(), "eva.db.") {
                let is_default = str_eq(db.as_str(), default_db);
                r.push((db, is_default));
                assert(flags_view(r@) =~= before.push((db@, is_default)));
            }
        }
        i = i + 1;
    }
    assert(flags_view(svcs@).take(svcs.len() as int) =~= flags_view(svcs@));
    r
}

/// The length of the private area's directory prefix of its files' paths:
/// the directory and a separator, or nothing where no area is set.
pub open spec fn root_len(pvt_root: Option<Seq<char>>) -> int {
    match pvt_root {
        Some(r) => r.len() + 1int,
        None => 0,
    }
}

/// What a private-area listing shows of the listed paths (each with
/// whether the ACL grants reading it within the area): the paths that lie
/// deeper than the area's directory, that may be read and that lie deeper
/// than the listed directory `base`, relative to `base`; in order.
pub open spec fn listed_spec(entries: Seq<(Seq<char>, bool)>, root: int, base: int) -> Seq<Seq<char>>
    decreases entries.len(),
{
    if entries.len() == 0 {
        Seq::empty()
    } else {
        let prev = listed_spec(entries.drop_last(), root, base);
        let (p, allowed) = entries.last();
        if root < p.len() && allowed && base + 1 < p.len() {
            prev.push(p.skip(base + 1))
        } else {
            prev
        }
    }
}

pub open spec fn strings_view(v: Seq<String>) -> Seq<Seq<char>> {
    v.map_values(|x: String| x@)
}

/// The characters of `s` from `from` on.
fn chars_from(s: &Vec<char>, from: usize) -> (r: String)
    requires
        from <= s.len(),
    ensures
        r@ == s@.skip(from as int),
{
    let mut r = String::new();
    let mut i: usize = from;
    while i < s.len()
        invariant
            from <= i <= s.len(),
            r@ == s@.subrange(from as int, i as int),
        decreases s.len() - i,
    {
        crate::text::push_char(&mut r, s[i]);
        assert(s@.subrange(from as int, i as int + 1) =~= s@.subrange(from as int, i as int).push(s@[i as int]));
        i = i + 1;
    }
    assert(s@.subrange(from as int, s.len() as int) =~= s@.skip(from as int));
    r
}

/// The private files that a listing shows, out of the listed paths with
/// whether the ACL grants reading each; lengths are counted in characters.
pub fn pvt_listing(entries: &Vec<(String, bool)>, pvt_root: Option<&str>, base: &str) -> (r: Vec<String>)
    ensures
        strings_view(r@) == listed_spec(flags_view(entries@), root_len(str_opt(pvt_root)), base@.len() as int),
{
    let root: usize = match pvt_root {
        Some(p) => chars_of(p).len(),
        None => 0,
    };
    let has_root = pvt_root.is_some();
    let base_len = chars_of(base).len();
    let mut r: Vec<String> = Vec::new();
    let mut i: usize = 0;
    while i < entries.len()
        invariant
            i <= entries.len(),
            has_root == pvt_root is Some,
            pvt_root matches Some(p) ==> root == p@.len(),
            base_len == base@.len(),
            strings_view(r@) == listed_spec(
                flags_view(entries@).take(i as int),
                root_len(str_opt(pvt_root)),
                base_len as int,
            ),
        decreases entries.len() - i,
    {
        let ghost ev = flags_view(entries@);
        assert(ev.take(i as int + 1).drop_last() =~= ev.take(i as int));
        assert(ev.take(i as int + 1).last() == ev[i as int]);
        let ghost before = strings_view(r@);
        let p = chars_of(entries[i].0.as_str());
        let n = p.len();
        let deeper_than_root = if has_root {
            n > 0 && root < n - 1
        } else {
            0 < n
        };
        if deeper_than_root && entries[i].1 && n > 0 && base_len < n - 1 {
            let rel = chars_from(&p, base_len + 1);
            r.push(rel);
            assert(strings_view(r@) =~= before.push(rel@));
        }
        i = i + 1;
    }
    assert(flags_view(entries@).take(entries.len() as int) =~= flags_view(entries@));
    r
}

/// A private-area listing for a caller with the ACL `acl`: each path that
/// lies deeper than the area's directory is checked against the ACL by its
/// part within the area. Whatever the ACL grants, the result is that of
/// [`pvt_listing`] with some grant for each path.
pub fn pvt_listing_for(acl: &Acl, paths: &Vec<String>, pvt_root: Option<&str>, base: &str) -> (r: Vec<
    String,
>)
    ensures
        exists|grants: Seq<bool>|
            grants.len() == paths@.len() && strings_view(r@) == #[trigger] listed_spec(
                strings_view(paths@).zip_with(grants),
                root_len(str_opt(pvt_root)),
                base@.len() as int,
            ),
{
    let root: usize = match pvt_root {
        Some(p) => chars_of(p).len(),
        None => 0,
    };
    let has_root = pvt_root.is_some();
    let mut entries: Vec<(String, bool)> = Vec::new();
    let mut i: usize = 0;
    while i < paths.len()
        invariant
            i <= paths.len(),
            entries@.len() == i,
            forall|k: int| 0 <= k < i ==> #[trigger] entries@[k].0@ == paths@[k]@,
        decreases paths.len() - i,
    {
        let p = chars_of(paths[i].as_str());
        let n = p.len();
        let granted = if has_root && n > 0 && root < n - 1 {
            let within = chars_from(&p, root + 1);
            crate::pvt::pvt_read_allowed(acl, within.as_str())
        } else if !has_root && 0 < n {
            crate::pvt::pvt_read_allowed(acl, paths[i].as_str())
        } else {
            false
        };
        entries.push((paths[i].clone(), granted));
        i = i + 1;
    }
    let r = pvt_listing(&entries, pvt_root, base);
    let ghost grants = flags_view(entries@).map_values(|e: (Seq<char>, bool)| e.1);
    assert(strings_view(paths@).zip_with(grants) =~= flags_view(entries@));
    r
}

/// The text that URL-safe base64 without padding gives for the bytes.
pub uninterp spec fn base64url_text(data: Seq<u8>) -> Seq<char>;

/// Calls `base64::Engine::encode` with the URL-safe alphabet and no
/// padding; the contract names the text [`base64url_text`].
#[verifier::external_body]
fn base64url_encode(data: &[u8]) -> (r: String)
    ensures
        r@ == base64url_text(data@),
{
    base64::Engine::encode(&base64::engine::general_purpose::URL_SAFE_NO_PAD, data)
}

/// The key of an embedded HMI app's configuration: the hash of where the
/// request came from, the key it was made with and its packed parameters.
pub fn ehmi_config_key(source: &str, key: &str, packed_params: &[u8]) -> (r: String)
    ensures
        r@ == base64url_text(sha256(encode_utf8(source@) + encode_utf8(key@) + packed_params@)),
{
    let mut data = slice_to_vec(source.as_bytes());
    let mut k = slice_to_vec(key.as_bytes());
    let mut p = slice_to_vec(packed_params);
    data.append(&mut k);
    data.append(&mut p);
    let digest = sha256_digest(data.as_slice());
    base64url_encode(digest.as_slice())
}

/// The user id that an embedded HMI app's address carries: the hash of
/// the short id of the token that the configuration is served with.
pub fn ehmi_uid(token_short_id: &str) -> (r: String)
    ensures
        r@ == base64url_text(sha256(encode_utf8(token_short_id@))),
{
    let data = slice_to_vec(token_short_id.as_bytes());
    let digest = sha256_digest(data.as_slice());
    base64url_encode(digest.as_slice())
}

/// `s` without its trailing `/` characters.
pub open spec fn trim_end_slashes(s: Seq<char>) -> Seq<char>
    decreases s.len(),
{
    if s.len() > 0 && s.last() == '/' {
        trim_end_slashes(s.drop_last())
    } else {
        s
    }
}

/// Why an embedded HMI app's configuration was refused.
#[derive(PartialEq, Eq, Structural, Copy, Clone, Debug)]
pub enum EhmiError {
    /// hmi_url not provided
    NoHmiUrl,
}

/// The address of an embedded HMI app: the HMI's address without trailing
/// `/`, the app (`ec` where none is named), the configuration key and the
/// user id.
pub open spec fn ehmi_url_spec(
    hmi_url: Seq<char>,
    app_id: Option<Seq<char>>,
    config_key: Seq<char>,
    uid: Seq<char>,
) -> Seq<char> {
    let app = match app_id {
        Some(a) => a,
        None => "ec"@,
    };
    trim_end_slashes(hmi_url) + "/ui/ehmi/"@ + app + "/?ck="@ + config_key + "&uid="@ + uid
}

/// The address of an embedded HMI app, where the HMI's address is given.
pub fn ehmi_app_url(hmi_url: Option<&str>, app_id: Option<&str>, config_key: &str, uid: &str) -> (r:
    Result<String, EhmiError>)
    ensures
        match hmi_url {
            Some(u) => (r matches Ok(s) && s@ == ehmi_url_spec(u@, str_opt(app_id), config_key@, uid@)),
            None => r == Err::<String, EhmiError>(EhmiError::NoHmiUrl),
        },
{
    let u = match hmi_url {
        Some(u) => u,
        None => return Err(EhmiError::NoHmiUrl),
    };
    let c = chars_of(u);
    let mut n: usize = c.len();
    assert(c@.take(n as int) =~= c@);
    while n > 0 && c[n - 1] == '/'
        invariant
            n <= c.len(),
            c@ == u@,
            trim_end_slashes(c@.take(n as int)) == trim_end_slashes(u@),
        decreases n,
    {
        assert(c@.take(n as int).drop_last() =~= c@.take(n as int - 1));
        n = n - 1;
    }
    assert(trim_end_slashes(c@.take(n as int)) == c@.take(n as int));
    let mut r = String::new();
    let mut i: usize = 0;
    while i < n
        invariant
            n <= c.len(),
            i <= n,
            r@ == c@.take(i as int),
        decreases n - i,
    {
        crate::text::push_char(&mut r, c[i]);
        assert(c@.take(i as int + 1) =~= c@.take(i as int).push(c@[i as int]));
        i = i + 1;
    }
    push_str(&mut r, "/ui/ehmi/");
    match app_id {
        Some(a) => push_str(&mut r, a),
        None => push_str(&mut r, "ec"),
    }
    push_str(&mut r, "/?ck=");
    push_str(&mut r, config_key);
    push_str(&mut r, "&uid=");
    push_str(&mut r, uid);
    Ok(r)
}

/// What the API filter's run answered: its exit code, where it finished,
/// and its error output and standard output, each where it gave a
/// non-empty one. The call passes on exit code 0; else it is refused with
/// the error output, else the standard output, else a plain denial; with
/// no exit code the filter timed out.
pub open spec fn filter_verdict_spec(
    exitcode: Option<i16>,
    err: Option<Seq<char>>,
    out: Option<Seq<char>>,
) -> Option<Seq<char>> {
    match exitcode {
        None => Some("API filter timeout"@),
        Some(code) => if code == 0 {
            None
        } else {
            match err {
                Some(e) => Some(e),
                None => match out {
                    Some(o) => Some(o),
                    None => Some("Denied by API filter"@),
                },
            }
        },
    }
}

/// The API filter's verdict on a call: `None` where the call passes, else
/// the message it is refused with.
pub fn api_filter_verdict(exitcode: Option<i16>, err: Option<String>, out: Option<String>) -> (r:
    Option<String>)
    ensures
        string_opt(r) == filter_verdict_spec(exitcode, string_opt(err), string_opt(out)),
{
    match exitcode {
        None => Some("API filter timeout".to_owned()),
        Some(code) => {
            if code == 0 {
                None
            } else if let Some(e) = err {
                Some(e)
            } else if let Some(o) = out {
                Some(o)
            } else {
                Some("Denied by API filter".to_owned())
            }
        },
    }
}

/// What an authentication service answered to a login.
pub enum AuthReply {
    /// the login and password are accepted
    Accepted,
    /// access denied, with the service's message where it gave one
    Denied(Option<String>),
    /// access denied until more data is given
    MoreDataRequired,
    /// any other failure
    Failed,
}

/// What a login does after a service's answer.
#[derive(PartialEq, Eq, Structural, Copy, Clone, Debug)]
pub enum AuthStep {
    /// log in with this service
    Accept,
    /// give up, answering with this service's error
    Stop,
    /// ask the next service (after the last, access is denied)
    TryNext,
}

/// The step after an answer: a denial whose message begins with `|` and a
/// request for more data are final; other failures pass to the next
/// service.
pub open spec fn auth_step_spec(reply: AuthReply) -> AuthStep {
    match reply {
        AuthReply::Accepted => AuthStep::Accept,
        AuthReply::Denied(Some(m)) => if m@.len() > 0 && m@[0] == '|' {
            AuthStep::Stop
        } else {
            AuthStep::TryNext
        },
        AuthReply::Denied(None) => AuthStep::TryNext,
        AuthReply::MoreDataRequired => AuthStep::Stop,
        AuthReply::Failed => AuthStep::TryNext,
    }
}

/// Decides what a login does after a service's answer.
pub fn auth_step(reply: &AuthReply) -> (r: AuthStep)
    ensures
        r == auth_step_spec(*reply),
{
    match reply {
        AuthReply::Accepted => AuthStep::Accept,
        AuthReply::Denied(Some(m)) => {
            let c = chars_of(m.as_str());
            if c.len() > 0 && c[0] == '|' {
                AuthStep::Stop
            } else {
                AuthStep::TryNext
            }
        },
        AuthReply::Denied(None) => AuthStep::TryNext,
        AuthReply::MoreDataRequired => AuthStep::Stop,
        AuthReply::Failed => AuthStep::TryNext,
    }
}

/// The login that a session opened with an API key carries: the key's id
/// after a `.`, so that it never equals a user's login.
pub fn key_login(key_id: &str) -> (r: String)
    ensures
        r@ == seq!['.'] + key_id@,
{
    let mut r = String::new();
    crate::text::push_char(&mut r, '.');
    push_str(&mut r, key_id);
    r
}

/// A web socket opened under an API key's session ([`key_login`]) goes
/// when that key changes ([`crate::web::key_socket_goes`]), and with no
/// other key: the logins of two keys differ.
pub proof fn law_key_login_sockets_follow_key(key_id: Seq<char>, other: Seq<char>)
    ensures
        other != key_id ==> seq!['.'] + key_id != seq!['.'] + other,
{
    if other != key_id {
        if seq!['.'] + key_id == seq!['.'] + other {
            assert(key_id =~= (seq!['.'] + key_id).skip(1));
            assert(other =~= (seq!['.'] + other).skip(1));
        }
    }
}

} // verus!
