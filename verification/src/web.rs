//! What the HMI reads from a web request: the authentication key from the
//! query or the `auth` cookie, the conversion asked for a served document,
//! and the log topics a client subscribes to at a log level.
use crate::text::{
    chars_of, chunks_view, find_char, find_first, lemma_find_first, split_all, split_chars,
    split_once, str_eq, string_of, sub_chars, trim_text, after_prefix, strip_prefix,
};
use vstd::prelude::*;

verus! {

/// The value of the first parameter named `key`.
pub open spec fn param_lookup(params: Seq<(Seq<char>, Seq<char>)>, key: Seq<char>) -> Option<Seq<char>>
    decreases params.len(),
{
    if params.len() == 0 {
        None
    } else if params[0].0 == key {
        Some(params[0].1)
    } else {
        param_lookup(params.drop_first(), key)
    }
}

pub open spec fn params_view(v: Seq<(String, String)>) -> Seq<(Seq<char>, Seq<char>)> {
    v.map_values(|p: (String, String)| (p.0@, p.1@))
}

/// The value of the query parameter `key`.
pub fn param_get<'a>(params: &'a Vec<(String, String)>, key: &str) -> (r: Option<&'a String>)
    ensures
        match r {
            Some(v) => param_lookup(params_view(params@), key@) == Some(v@),
            None => param_lookup(params_view(params@), key@) is None,
        },
{
    let ghost pv = params_view(params@);
    let mut i: usize = 0;
    assert(pv.skip(0) =~= pv);
    while i < params.len()
        invariant
            i <= params.len(),
            pv == params_view(params@),
            param_lookup(pv.skip(i as int), key@) == param_lookup(pv, key@),
        decreases params.len() - i,
    {
        assert(pv.skip(i as int)[0] == (params@[i as int].0@, params@[i as int].1@));
        if str_eq(params[i].0.as_str(), key) {
            return Some(&params[i].1);
        }
        assert(pv.skip(i as int).drop_first() =~= pv.skip(i + 1));
        i = i + 1;
    }
    None
}

/// The name and value of a cookie piece `name=value` (one without `;`):
/// both trimmed, the name not empty.
pub open spec fn cookie_pair(c: Seq<char>) -> Option<(Seq<char>, Seq<char>)> {
    match find_first(c, '=') {
        None => None,
        Some(i) => if trim_text(c.take(i)).len() == 0 {
            None
        } else {
            Some((trim_text(c.take(i)), trim_text(c.skip(i + 1))))
        },
    }
}

/// Calls `cookie::Cookie::parse` on a piece of a `Cookie` header; for a
/// piece without `;` the crate's source parses the name and value around
/// the first `=`, trimmed, and refuses an empty name (see [`cookie_pair`]).
#[verifier::external_body]
fn parse_cookie(c: &str) -> (r: Option<(String, String)>)
    requires
        !c@.contains(';'),
    ensures
        match cookie_pair(c@) {
            None => r is None,
            Some((n, v)) => r matches Some((rn, rv)) && rn@ == n && rv@ == v,
        },
{
    match cookie::Cookie::parse(c) {
        Ok(ck) => Some((ck.name().to_string(), ck.value().to_string())),
        Err(_) => None,
    }
}

/// The value of the first `auth` cookie among the `;`-separated pieces.
pub open spec fn auth_cookie(pieces: Seq<Seq<char>>) -> Option<Seq<char>>
    decreases pieces.len(),
{
    if pieces.len() == 0 {
        None
    } else {
        match cookie_pair(pieces[0]) {
            Some((n, v)) if n == "auth"@ => Some(v),
            _ => auth_cookie(pieces.drop_first()),
        }
    }
}

/// The key a request authenticates with: the query parameter `k`, else the
/// `auth` cookie of the `Cookie` header.
pub open spec fn auth_of(params: Option<Seq<(Seq<char>, Seq<char>)>>, cookie: Option<Seq<char>>) -> Option<Seq<char>> {
    let from_query = match params {
        Some(p) => param_lookup(p, "k"@),
        None => None,
    };
    match from_query {
        Some(k) => Some(k),
        None => match cookie {
            Some(h) => auth_cookie(split_all(h, ';')),
            None => None,
        },
    }
}

/// Finds the authentication key of a request from its query parameters
/// and the text of its `Cookie` header (empty where the header is not
/// text).
pub fn parse_auth(params: Option<&Vec<(String, String)>>, cookie_header: Option<&str>) -> (r: Option<String>)
    ensures
        match auth_of(
            match params {
                Some(p) => Some(params_view(p@)),
                None => None,
            },
            match cookie_header {
                Some(h) => Some(h@),
                None => None,
            },
        ) {
            Some(k) => r matches Some(rk) && rk@ == k,
            None => r is None,
        },
{
    if let Some(q) = params {
        if let Some(k) = param_get(q, "k") {
            return Some(k.clone());
        }
    }
    let h = match cookie_header {
        None => {
            return None;
        },
        Some(h) => h,
    };
    let ghost pv = match params {
        Some(p) => Some(params_view(p@)),
        None => None,
    };
    let c = chars_of(h);
    let pieces = split_chars(&c, ';');
    let ghost all = chunks_view(pieces@);
    assert(auth_of(pv, Some(h@)) == auth_cookie(all));
    let mut i: usize = 0;
    assert(all.skip(0) =~= all);
    while i < pieces.len()
        invariant
            i <= pieces.len(),
            all == chunks_view(pieces@),
            all == split_all(h@, ';'),
            auth_cookie(all.skip(i as int)) == auth_cookie(all),
            auth_of(pv, Some(h@)) == auth_cookie(all),
            pv == match params {
                Some(p) => Some(params_view(p@)),
                None => None,
            },
            cookie_header == Some(h),
        decreases pieces.len() - i,
    {
        assert(all.skip(i as int)[0] == pieces@[i as int]@);
        let piece = string_of(&pieces[i]);
        proof {
            crate::text::lemma_split_all_pieces_lack(h@, ';');
            assert(all[i as int] == piece@);
        }
        if let Some((n, v)) = parse_cookie(piece.as_str()) {
            if str_eq(n.as_str(), "auth") {
                return Some(v);
            }
        }
        assert(all.skip(i as int).drop_first() =~= all.skip(i + 1));
        i = i + 1;
    }
    None
}

/// The format a served document is converted to.
pub enum Format {
    Json,
    Yaml,
    /// JavaScript assigning the data to a variable
    JsVar(String),
    /// JavaScript defining a function that returns the data
    JsFunc(String),
}

/// A conversion asked for a served document: the document's path, the
/// format and the language to translate into.
pub struct Convert {
    pub uri: String,
    pub format: Format,
    pub lang: Option<String>,
}

/// Why a conversion request was refused.
#[derive(PartialEq, Eq, Structural, Copy, Clone, Debug)]
pub enum ConvertError {
    /// an unknown format, or `js` with neither `var` nor `func`
    InvalidParameter,
}

/// The model of a [`Format`].
pub enum FormatModel {
    Json,
    Yaml,
    JsVar(Seq<char>),
    JsFunc(Seq<char>),
}

/// The conversion that the query parameters `as`, `var`, `func` and `lang`
/// ask for: `None` without `as`.
pub open spec fn convert_of(params: Seq<(Seq<char>, Seq<char>)>) -> Result<Option<(FormatModel, Option<Seq<char>>)>, ConvertError> {
    match param_lookup(params, "as"@) {
        None => Ok(None),
        Some(a) => {
            let f = if a == "yaml"@ || a == "yml"@ {
                Some(FormatModel::Yaml)
            } else if a == "json"@ {
                Some(FormatModel::Json)
            } else if a == "js"@ {
                match param_lookup(params, "var"@) {
                    Some(v) => Some(FormatModel::JsVar(v)),
                    None => match param_lookup(params, "func"@) {
                        Some(f) => Some(FormatModel::JsFunc(f)),
                        None => None,
                    },
                }
            } else {
                None
            };
            match f {
                None => Err(ConvertError::InvalidParameter),
                Some(f) => Ok(Some((f, param_lookup(params, "lang"@)))),
            }
        },
    }
}

pub open spec fn format_view(f: Format) -> FormatModel {
    match f {
        Format::Json => FormatModel::Json,
        Format::Yaml => FormatModel::Yaml,
        Format::JsVar(v) => FormatModel::JsVar(v@),
        Format::JsFunc(v) => FormatModel::JsFunc(v@),
    }
}

fn lookup_clone(q: &Vec<(String, String)>, key: &str) -> (r: Option<String>)
    ensures
        match param_lookup(params_view(q@), key@) {
            Some(v) => r matches Some(rv) && rv@ == v,
            None => r is None,
        },
{
    match param_get(q, key) {
        Some(v) => Some(v.clone()),
        None => None,
    }
}

/// Reads the conversion a request asks for, from its query parameters.
pub fn parse_convert_to(uri: &str, params: Option<&Vec<(String, String)>>) -> (r: Result<Option<Convert>, ConvertError>)
    ensures
        match params {
            None => r == Ok::<Option<Convert>, ConvertError>(None),
            Some(q) => match convert_of(params_view(q@)) {
                Err(e) => r == Err::<Option<Convert>, ConvertError>(e),
                Ok(None) => r == Ok::<Option<Convert>, ConvertError>(None),
                Ok(Some((f, lang))) => r matches Ok(Some(c)) && c.uri@ == uri@ && format_view(c.format) == f
                    && match c.lang {
                    Some(l) => lang == Some(l@),
                    None => lang is None,
                },
            },
        },
{
    let q = match params {
        None => {
            return Ok(None);
        },
        Some(q) => q,
    };
    let a = match param_get(q, "as") {
        None => {
            return Ok(None);
        },
        Some(a) => a,
    };
    let format = if str_eq(a.as_str(), "yaml") || str_eq(a.as_str(), "yml") {
        Format::Yaml
    } else if str_eq(a.as_str(), "json") {
        Format::Json
    } else if str_eq(a.as_str(), "js") {
        match lookup_clone(q, "var") {
            Some(v) => Format::JsVar(v),
            None => match lookup_clone(q, "func") {
                Some(f) => Format::JsFunc(f),
                None => {
                    return Err(ConvertError::InvalidParameter);
                },
            },
        }
    } else {
        return Err(ConvertError::InvalidParameter);
    };
    Ok(Some(Convert { uri: uri.to_string(), format, lang: lookup_clone(q, "lang") }))
}

/// The log level of informational messages.
pub const LOG_LEVEL_INFO: u8 = 20;

/// The log level of warnings.
pub const LOG_LEVEL_WARN: u8 = 30;

/// The log level of errors.
pub const LOG_LEVEL_ERROR: u8 = 40;

/// The log topics a client at `level` receives: those of the levels at or
/// above it.
pub open spec fn log_topics_of(level: u8) -> Seq<Seq<char>> {
    (if level <= 20 {
        seq!["info"@]
    } else {
        Seq::empty()
    }) + (if level <= 30 {
        seq!["warn"@]
    } else {
        Seq::empty()
    }) + (if level <= 40 {
        seq!["error"@]
    } else {
        Seq::empty()
    })
}

/// The log topics a client subscribes to at `level`.
pub fn get_log_topics(level: u8) -> (r: Vec<&'static str>)
    ensures
        r@.map_values(|t: &str| t@) == log_topics_of(level),
{
    let mut result: Vec<&'static str> = Vec::new();
    if level <= LOG_LEVEL_INFO {
        result.push("info");
    }
    if level <= LOG_LEVEL_WARN {
        result.push("warn");
    }
    if level <= LOG_LEVEL_ERROR {
        result.push("error");
    }
    assert(result@.map_values(|t: &str| t@) =~= log_topics_of(level));
    result
}

/// The key a web-socket request authenticates with: the query parameter
/// `k`, else the `X-Auth-Key` header.
pub fn ws_api_key(params: Option<&Vec<(String, String)>>, header_key: Option<&str>) -> (r: Option<String>)
    ensures
        match (match params {
            Some(p) => param_lookup(params_view(p@), "k"@),
            None => None,
        }) {
            Some(k) => r matches Some(rk) && rk@ == k,
            None => match header_key {
                Some(h) => r matches Some(rk) && rk@ == h@,
                None => r is None,
            },
        },
{
    if let Some(q) = params {
        if let Some(k) = param_get(q, "k") {
            return Some(k.clone());
        }
    }
    match header_key {
        Some(h) => Some(h.to_string()),
        None => None,
    }
}

/// Whether a web-socket client asks for the current states first: the
/// parameter `initial` is `1` or `true`.
pub fn ws_send_initial(params: Option<&Vec<(String, String)>>) -> (r: bool)
    ensures
        r == match params {
            Some(p) => match param_lookup(params_view(p@), "initial"@) {
                Some(v) => v == "1"@ || v == "true"@,
                None => false,
            },
            None => false,
        },
{
    match params {
        Some(q) => match param_get(q, "initial") {
            Some(v) => str_eq(v.as_str(), "1") || str_eq(v.as_str(), "true"),
            None => false,
        },
        None => false,
    }
}

/// The canonical text of the OID mask that `eva_common::acl::OIDMask`
/// parses from `s`, or `None` where `s` is no mask.
pub uninterp spec fn oid_mask_text(s: Seq<char>) -> Option<Seq<char>>;

/// Calls `<eva_common::acl::OIDMask as FromStr>::from_str` and renders a
/// parsed mask with its `Display`; the contract names the outcome
/// [`oid_mask_text`].
#[verifier::external_body]
fn parse_oid_mask(s: &str) -> (r: Option<String>)
    ensures
        match r {
            Some(t) => oid_mask_text(s@) == Some(t@),
            None => oid_mask_text(s@) is None,
        },
{
    s.parse::<eva_common::acl::OIDMask>().ok().map(|m| m.to_string())
}

/// The masks of a comma-separated list, each once in the order first seen,
/// or the first piece that is no mask.
pub open spec fn masks_of(pieces: Seq<Seq<char>>) -> Result<Seq<Seq<char>>, Seq<char>>
    decreases pieces.len(),
{
    if pieces.len() == 0 {
        Ok(Seq::empty())
    } else {
        match masks_of(pieces.drop_last()) {
            Err(bad) => Err(bad),
            Ok(prev) => match oid_mask_text(pieces.last()) {
                None => Err(pieces.last()),
                Some(m) => Ok(if prev.contains(m) {
                    prev
                } else {
                    prev.push(m)
                }),
            },
        }
    }
}

fn holds_text(v: &Vec<String>, x: &str) -> (r: bool)
    ensures
        r == v@.map_values(|s: String| s@).contains(x@),
{
    let mut i: usize = 0;
    while i < v.len()
        invariant
            i <= v.len(),
            forall|j: int| 0 <= j < i ==> #[trigger] v@[j]@ != x@,
        decreases v.len() - i,
    {
        if str_eq(v[i].as_str(), x) {
            assert(v@.map_values(|s: String| s@)[i as int] == x@);
            return true;
        }
        i = i + 1;
    }
    let ghost vv = v@.map_values(|s: String| s@);
    assert forall|j: int| 0 <= j < vv.len() implies #[trigger] vv[j] != x@ by {
        assert(vv[j] == v@[j]@);
    }
    false
}

/// The item-state masks a web-socket client subscribes to: the parameter
/// `state`, a comma-separated list of OID masks; gives the first piece that
/// is no mask where one is not.
pub fn ws_state_masks(params: Option<&Vec<(String, String)>>) -> (r: Result<Option<Vec<String>>, String>)
    ensures
        match (match params {
            Some(p) => param_lookup(params_view(p@), "state"@),
            None => None,
        }) {
            None => r matches Ok(None),
            Some(st) => match masks_of(split_all(st, ',')) {
                Ok(ms) => r matches Ok(Some(v)) && v@.map_values(|s: String| s@) == ms,
                Err(bad) => r matches Err(b) && b@ == bad,
            },
        },
{
    let q = match params {
        None => {
            return Ok(None);
        },
        Some(q) => q,
    };
    let st = match param_get(q, "state") {
        None => {
            return Ok(None);
        },
        Some(st) => st,
    };
    let c = chars_of(st.as_str());
    let pieces = split_chars(&c, ',');
    let ghost ps = chunks_view(pieces@);
    let mut masks: Vec<String> = Vec::new();
    let mut i: usize = 0;
    assert(ps.take(0) =~= Seq::<Seq<char>>::empty());
    while i < pieces.len()
        invariant
            i <= pieces.len(),
            ps == chunks_view(pieces@),
            ps == split_all(st@, ','),
            params == Some(q),
            param_lookup(params_view(q@), "state"@) == Some(st@),
            masks_of(ps.take(i as int)) matches Ok(ms) && masks@.map_values(|s: String| s@) == ms,
        decreases pieces.len() - i,
    {
        assert(ps.take(i + 1).drop_last() =~= ps.take(i as int));
        assert(ps.take(i + 1).last() == pieces@[i as int]@);
        let piece = string_of(&pieces[i]);
        match parse_oid_mask(piece.as_str()) {
            None => {
                proof {
                    lemma_masks_of_err_stays(ps, i as int + 1);
                }
                return Err(piece);
            },
            Some(m) => {
                if !holds_text(&masks, m.as_str()) {
                    let ghost before = masks@;
                    masks.push(m);
                    assert(masks@.map_values(|s: String| s@) =~= before.map_values(|s: String| s@).push(
                        masks@.last()@,
                    ));
                }
            },
        }
        i = i + 1;
    }
    assert(ps.take(pieces.len() as int) =~= ps);
    Ok(Some(masks))
}

/// Once a piece is no mask, the whole list is refused for it.
proof fn lemma_masks_of_err_stays(ps: Seq<Seq<char>>, k: int)
    requires
        0 < k <= ps.len(),
        masks_of(ps.take(k)) is Err,
    ensures
        masks_of(ps) == masks_of(ps.take(k)),
    decreases ps.len() - k,
{
    if k < ps.len() {
        assert(ps.take(k + 1).drop_last() =~= ps.take(k));
        lemma_masks_of_err_stays(ps, k + 1);
    } else {
        assert(ps.take(k) =~= ps);
    }
}

/// The topic prefixes of the bus events that the HMI follows.
pub struct HmiTopics {
    pub local_state: String,
    pub remote_state: String,
    pub log: String,
    pub acl: String,
    pub key: String,
    pub user: String,
}

/// What a bus event is to the HMI, with the rest of its topic.
pub enum HmiEvent {
    /// A state of a local item, by its path.
    LocalState(String),
    /// A state of a remote item, by its path.
    RemoteState(String),
    /// A log record, by its level path.
    Log(String),
    /// An ACL changed: its sessions and web sockets go.
    AclChanged(String),
    /// An API key changed: its web sockets go.
    KeyChanged(String),
    /// A user changed: their sessions go.
    UserChanged(String),
    /// Anything else is ignored.
    Other,
}

/// An event as values: its kind (0 to 5 in the order of the variants, 6
/// for others) and the rest of its topic.
pub open spec fn event_view(e: HmiEvent) -> (int, Seq<char>) {
    match e {
        HmiEvent::LocalState(p) => (0, p@),
        HmiEvent::RemoteState(p) => (1, p@),
        HmiEvent::Log(p) => (2, p@),
        HmiEvent::AclChanged(p) => (3, p@),
        HmiEvent::KeyChanged(p) => (4, p@),
        HmiEvent::UserChanged(p) => (5, p@),
        HmiEvent::Other => (6, Seq::empty()),
    }
}

/// The event that a topic stands for: the first prefix that the topic
/// begins with, in the order local state, remote state, log, ACL, key,
/// user.
pub open spec fn hmi_event_spec(topic: Seq<char>, t: HmiTopics) -> (int, Seq<char>) {
    if after_prefix(topic, t.local_state@) is Some {
        (0, after_prefix(topic, t.local_state@)->0)
    } else if after_prefix(topic, t.remote_state@) is Some {
        (1, after_prefix(topic, t.remote_state@)->0)
    } else if after_prefix(topic, t.log@) is Some {
        (2, after_prefix(topic, t.log@)->0)
    } else if after_prefix(topic, t.acl@) is Some {
        (3, after_prefix(topic, t.acl@)->0)
    } else if after_prefix(topic, t.key@) is Some {
        (4, after_prefix(topic, t.key@)->0)
    } else if after_prefix(topic, t.user@) is Some {
        (5, after_prefix(topic, t.user@)->0)
    } else {
        (6, Seq::empty())
    }
}

/// Classifies a bus event by its topic.
pub fn hmi_event(topic: &str, t: &HmiTopics) -> (r: HmiEvent)
    ensures
        event_view(r) == hmi_event_spec(topic@, *t),
{
    if let Some(p) = strip_prefix(topic, t.local_state.as_str()) {
        return HmiEvent::LocalState(p);
    }
    if let Some(p) = strip_prefix(topic, t.remote_state.as_str()) {
        return HmiEvent::RemoteState(p);
    }
    if let Some(p) = strip_prefix(topic, t.log.as_str()) {
        return HmiEvent::Log(p);
    }
    if let Some(p) = strip_prefix(topic, t.acl.as_str()) {
        return HmiEvent::AclChanged(p);
    }
    if let Some(p) = strip_prefix(topic, t.key.as_str()) {
        return HmiEvent::KeyChanged(p);
    }
    if let Some(p) = strip_prefix(topic, t.user.as_str()) {
        return HmiEvent::UserChanged(p);
    }
    HmiEvent::Other
}

/// Whether a web socket opened with the API key id `socket_key` goes when
/// the key `key_id` changes: socket key ids carry a leading `.`.
pub fn key_socket_goes(socket_key: &str, key_id: &str) -> (r: bool)
    ensures
        r == (socket_key@ == seq!['.'] + key_id@),
{
    let mut k = String::new();
    crate::text::push_char(&mut k, '.');
    crate::text::push_str(&mut k, key_id);
    proof {
        assert(k@ =~= seq!['.'] + key_id@);
    }
    str_eq(socket_key, k.as_str())
}

/// A command that a web-socket client sends.
#[derive(PartialEq, Eq, Structural, Copy, Clone, Debug)]
pub enum WsCommandKind {
    StreamStart,
    SubscribeState,
    UnsubscribeState,
    SubscribeStateInitial,
    SubscribeLog,
    Ping,
    /// The client leaves.
    Bye,
    /// Any other method: the socket is closed.
    Invalid,
}

/// The command that a method name stands for.
pub open spec fn ws_command_spec(m: Seq<char>) -> WsCommandKind {
    if m == "stream.start"@ {
        WsCommandKind::StreamStart
    } else if m == "subscribe.state"@ {
        WsCommandKind::SubscribeState
    } else if m == "unsubscribe.state"@ {
        WsCommandKind::UnsubscribeState
    } else if m == "subscribe.state_initial"@ {
        WsCommandKind::SubscribeStateInitial
    } else if m == "subscribe.log"@ {
        WsCommandKind::SubscribeLog
    } else if m == "ping"@ {
        WsCommandKind::Ping
    } else if m == "bye"@ {
        WsCommandKind::Bye
    } else {
        WsCommandKind::Invalid
    }
}

/// Reads the method of a web-socket command.
pub fn ws_command(method: &str) -> (r: WsCommandKind)
    ensures
        r == ws_command_spec(method@),
{
    if str_eq(method, "stream.start") {
        WsCommandKind::StreamStart
    } else if str_eq(method, "subscribe.state") {
        WsCommandKind::SubscribeState
    } else if str_eq(method, "unsubscribe.state") {
        WsCommandKind::UnsubscribeState
    } else if str_eq(method, "subscribe.state_initial") {
        WsCommandKind::SubscribeStateInitial
    } else if str_eq(method, "subscribe.log") {
        WsCommandKind::SubscribeLog
    } else if str_eq(method, "ping") {
        WsCommandKind::Ping
    } else if str_eq(method, "bye") {
        WsCommandKind::Bye
    } else {
        WsCommandKind::Invalid
    }
}

/// The masks that a subscription command names, each once in the order
/// first seen; the pieces that are no mask are skipped.
pub open spec fn valid_masks(pieces: Seq<Seq<char>>) -> Seq<Seq<char>>
    decreases pieces.len(),
{
    if pieces.len() == 0 {
        Seq::empty()
    } else {
        let prev = valid_masks(pieces.drop_last());
        match oid_mask_text(pieces.last()) {
            None => prev,
            Some(m) => if prev.contains(m) {
                prev
            } else {
                prev.push(m)
            },
        }
    }
}

/// Reads the masks of a subscription command, skipping those that are no
/// mask.
pub fn subscription_masks(masks: &Vec<String>) -> (r: Vec<String>)
    ensures
        r@.map_values(|s: String| s@) == valid_masks(masks@.map_values(|s: String| s@)),
{
    let ghost ms = masks@.map_values(|s: String| s@);
    let mut out: Vec<String> = Vec::new();
    let mut i: usize = 0;
    while i < masks.len()
        invariant
            i <= masks@.len(),
            ms == masks@.map_values(|s: String| s@),
            out@.map_values(|s: String| s@) == valid_masks(ms.take(i as int)),
        decreases masks@.len() - i,
    {
        assert(ms.take(i + 1).drop_last() =~= ms.take(i as int));
        assert(ms.take(i + 1).last() == masks@[i as int]@);
        match parse_oid_mask(masks[i].as_str()) {
            None => {},
            Some(m) => {
                if !holds_text(&out, m.as_str()) {
                    let ghost before = out@;
                    out.push(m);
                    assert(out@.map_values(|s: String| s@) =~= before.map_values(|s: String| s@).push(
                        out@[out@.len() - 1]@,
                    ));
                }
            },
        }
        i = i + 1;
    }
    assert(ms.take(masks@.len() as int) =~= ms);
    out
}

} // verus!
