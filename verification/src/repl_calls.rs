//! How the replication service routes the calls it takes: those of the
//! local bus, which it forwards to remote nodes or answers from its node
//! registry, and those that remote nodes send it over pub/sub, which need
//! an API key and are checked before they reach the local core.
use crate::text::{
    chars_of, find_char, find_run, find_run_in, has_prefix, lemma_find_first, lemma_find_run,
    split_once, str_eq, string_of, sub_chars,
};
use vstd::prelude::*;

verus! {

/// What a call of the local bus is.
#[derive(PartialEq, Eq, Structural, Copy, Clone, Debug)]
pub enum ReplMethod {
    /// An item or action method, forwarded to the node that owns the item.
    Forward,
    /// A `bus::` call, forwarded to a remote node's bus.
    ForwardBus,
    NodeList,
    NodeGet,
    NodeAppend,
    NodeDeploy,
    NodeUndeploy,
    NodeExport,
    NodeGetConfig,
    NodeRemove,
    NodeReload,
    NodeTest,
    NodeMtest,
    /// Anything else: the service's default methods.
    Default,
}

/// Whether a method is forwarded to the node that owns the item.
pub open spec fn forwarded_method(m: Seq<char>) -> bool {
    m == "action"@ || m == "action.toggle"@ || m == "run"@ || m == "lvar.set"@ || m
        == "lvar.reset"@ || m == "lvar.clear"@ || m == "lvar.toggle"@ || m == "lvar.incr"@ || m
        == "lvar.decr"@ || m == "action.result"@ || m == "rpvt"@
}

/// What the method named `m` is.
pub open spec fn repl_method_spec(m: Seq<char>) -> ReplMethod {
    if forwarded_method(m) {
        ReplMethod::Forward
    } else if m == "node.list"@ {
        ReplMethod::NodeList
    } else if m == "node.get"@ {
        ReplMethod::NodeGet
    } else if m == "node.append"@ {
        ReplMethod::NodeAppend
    } else if m == "node.deploy"@ {
        ReplMethod::NodeDeploy
    } else if m == "node.undeploy"@ {
        ReplMethod::NodeUndeploy
    } else if m == "node.export"@ {
        ReplMethod::NodeExport
    } else if m == "node.get_config"@ {
        ReplMethod::NodeGetConfig
    } else if m == "node.remove"@ {
        ReplMethod::NodeRemove
    } else if m == "node.reload"@ {
        ReplMethod::NodeReload
    } else if m == "node.test"@ {
        ReplMethod::NodeTest
    } else if m == "node.mtest"@ {
        ReplMethod::NodeMtest
    } else if "bus::"@.is_prefix_of(m) {
        ReplMethod::ForwardBus
    } else {
        ReplMethod::Default
    }
}

fn is_forwarded(m: &str) -> (r: bool)
    ensures
        r == forwarded_method(m@),
{
    str_eq(m, "action") || str_eq(m, "action.toggle") || str_eq(m, "run") || str_eq(m, "lvar.set")
        || str_eq(m, "lvar.reset") || str_eq(m, "lvar.clear") || str_eq(m, "lvar.toggle")
        || str_eq(m, "lvar.incr") || str_eq(m, "lvar.decr") || str_eq(m, "action.result")
        || str_eq(m, "rpvt")
}

/// Routes a call of the local bus by its method.
pub fn repl_method(method: &str) -> (r: ReplMethod)
    ensures
        r == repl_method_spec(method@),
{
    if is_forwarded(method) {
        ReplMethod::Forward
    } else if str_eq(method, "node.list") {
        ReplMethod::NodeList
    } else if str_eq(method, "node.get") {
        ReplMethod::NodeGet
    } else if str_eq(method, "node.append") {
        ReplMethod::NodeAppend
    } else if str_eq(method, "node.deploy") {
        ReplMethod::NodeDeploy
    } else if str_eq(method, "node.undeploy") {
        ReplMethod::NodeUndeploy
    } else if str_eq(method, "node.export") {
        ReplMethod::NodeExport
    } else if str_eq(method, "node.get_config") {
        ReplMethod::NodeGetConfig
    } else if str_eq(method, "node.remove") {
        ReplMethod::NodeRemove
    } else if str_eq(method, "node.reload") {
        ReplMethod::NodeReload
    } else if str_eq(method, "node.test") {
        ReplMethod::NodeTest
    } else if str_eq(method, "node.mtest") {
        ReplMethod::NodeMtest
    } else if has_prefix(&chars_of(method), &chars_of("bus::")) {
        ReplMethod::ForwardBus
    } else {
        ReplMethod::Default
    }
}

/// Why a call was refused.
#[derive(PartialEq, Eq, Structural, Copy, Clone, Debug)]
pub enum ReplCallError {
    /// A node method named the local node.
    LocalNode,
    /// The pub/sub API is disabled.
    ApiDisabled,
    /// A pub/sub call came without an API key.
    NoKey,
    /// Parameters were given to a method that takes none.
    UnexpectedParams,
    /// A method that needs parameters got none.
    NoParams,
    /// The pub/sub method is not implemented.
    NotImplemented,
    /// The item call names no OID.
    NoOid,
    /// The item call's OID is not text.
    OidNotString,
    /// A remote private file of another node was asked for over pub/sub.
    NonLocal,
    /// A remote private file request names no URL.
    NoUrl,
    /// A bus call names no method.
    NoBusMethod,
}

/// Node methods refuse the local node's name.
pub fn check_not_local(name: &str, system_name: &str) -> (r: Result<(), ReplCallError>)
    ensures
        r is Err <==> name@ == system_name@,
        r is Err ==> r == Err::<(), ReplCallError>(ReplCallError::LocalNode),
{
    if str_eq(name, system_name) {
        Err(ReplCallError::LocalNode)
    } else {
        Ok(())
    }
}

/// Whether a node export asks for all nodes: `*` or `#`.
pub fn exports_all(i: &str) -> (r: bool)
    ensures
        r == (i@ == "*"@ || i@ == "#"@),
{
    str_eq(i, "*") || str_eq(i, "#")
}

/// What a pub/sub call is.
#[derive(PartialEq, Eq, Structural, Copy, Clone, Debug)]
pub enum PsCall {
    Ping,
    /// The states of the items that the key may read.
    Pull,
    /// An item or action method of the local core.
    Item,
    /// A private file of this node.
    Rpvt,
    /// The result of an action.
    ActionResult,
    /// A call of the local bus (`bus::target::method`).
    Bus,
}

/// Whether a pub/sub method is an item or action method.
pub open spec fn ps_item_method(m: Seq<char>) -> bool {
    m == "action"@ || m == "action.toggle"@ || m == "run"@ || m == "lvar.set"@ || m
        == "lvar.reset"@ || m == "lvar.clear"@ || m == "lvar.toggle"@ || m == "lvar.incr"@ || m
        == "lvar.decr"@
}

/// The checks on a pub/sub call before anything is asked of the core: the
/// API must be enabled; `ping` is always answered; the other methods need
/// a key, `pull` takes no parameters and the item, file and result methods
/// need them; `bus::` calls go on; anything else is not implemented.
pub open spec fn ps_call_spec(api_enabled: bool, has_key: bool, m: Seq<char>, has_params: bool) -> Result<
    PsCall,
    ReplCallError,
> {
    if !api_enabled {
        Err(ReplCallError::ApiDisabled)
    } else if m == "ping"@ {
        Ok(PsCall::Ping)
    } else if m == "pull"@ {
        if !has_key {
            Err(ReplCallError::NoKey)
        } else if has_params {
            Err(ReplCallError::UnexpectedParams)
        } else {
            Ok(PsCall::Pull)
        }
    } else if ps_item_method(m) || m == "rpvt"@ || m == "action.result"@ {
        if !has_key {
            Err(ReplCallError::NoKey)
        } else if !has_params {
            Err(ReplCallError::NoParams)
        } else if ps_item_method(m) {
            Ok(PsCall::Item)
        } else if m == "rpvt"@ {
            Ok(PsCall::Rpvt)
        } else {
            Ok(PsCall::ActionResult)
        }
    } else if "bus::"@.is_prefix_of(m) {
        if !has_key {
            Err(ReplCallError::NoKey)
        } else {
            Ok(PsCall::Bus)
        }
    } else {
        Err(ReplCallError::NotImplemented)
    }
}

fn is_ps_item(m: &str) -> (r: bool)
    ensures
        r == ps_item_method(m@),
{
    str_eq(m, "action") || str_eq(m, "action.toggle") || str_eq(m, "run") || str_eq(m, "lvar.set")
        || str_eq(m, "lvar.reset") || str_eq(m, "lvar.clear") || str_eq(m, "lvar.toggle")
        || str_eq(m, "lvar.incr") || str_eq(m, "lvar.decr")
}

/// Checks a pub/sub call.
pub fn ps_call(api_enabled: bool, has_key: bool, method: &str, has_params: bool) -> (r: Result<
    PsCall,
    ReplCallError,
>)
    ensures
        r == ps_call_spec(api_enabled, has_key, method@, has_params),
{
    if !api_enabled {
        return Err(ReplCallError::ApiDisabled);
    }
    if str_eq(method, "ping") {
        return Ok(PsCall::Ping);
    }
    if str_eq(method, "pull") {
        return if !has_key {
            Err(ReplCallError::NoKey)
        } else if has_params {
            Err(ReplCallError::UnexpectedParams)
        } else {
            Ok(PsCall::Pull)
        };
    }
    let item = is_ps_item(method);
    let rpvt = str_eq(method, "rpvt");
    let result = str_eq(method, "action.result");
    if item || rpvt || result {
        return if !has_key {
            Err(ReplCallError::NoKey)
        } else if !has_params {
            Err(ReplCallError::NoParams)
        } else if item {
            Ok(PsCall::Item)
        } else if rpvt {
            Ok(PsCall::Rpvt)
        } else {
            Ok(PsCall::ActionResult)
        };
    }
    if has_prefix(&chars_of(method), &chars_of("bus::")) {
        if !has_key {
            Err(ReplCallError::NoKey)
        } else {
            Ok(PsCall::Bus)
        }
    } else {
        Err(ReplCallError::NotImplemented)
    }
}

/// The `i` parameter of an item call.
pub enum ParamValue {
    Missing,
    Text(String),
    Other,
}

/// The OID text of an item call: the `i` parameter, which must be text.
pub fn ps_item_oid(i: ParamValue) -> (r: Result<String, ReplCallError>)
    ensures
        match i {
            ParamValue::Missing => r == Err::<String, ReplCallError>(ReplCallError::NoOid),
            ParamValue::Other => r == Err::<String, ReplCallError>(ReplCallError::OidNotString),
            ParamValue::Text(s) => (r matches Ok(t) && t@ == s@),
        },
{
    match i {
        ParamValue::Missing => Err(ReplCallError::NoOid),
        ParamValue::Other => Err(ReplCallError::OidNotString),
        ParamValue::Text(s) => Ok(s),
    }
}

/// The URL of a private file asked for over pub/sub: only this node's
/// (`.local/url`) are served.
pub open spec fn ps_rpvt_spec(i: Seq<char>) -> Result<Seq<char>, ReplCallError> {
    match split_once(i, '/') {
        (node, rest) => if node != ".local"@ {
            Err(ReplCallError::NonLocal)
        } else {
            match rest {
                Some(url) => Ok(url),
                None => Err(ReplCallError::NoUrl),
            }
        },
    }
}

/// Reads the URL of a private file asked for over pub/sub.
pub fn ps_rpvt_url(i: &str) -> (r: Result<String, ReplCallError>)
    ensures
        match ps_rpvt_spec(i@) {
            Ok(u) => (r matches Ok(s) && s@ == u),
            Err(e) => r == Err::<String, ReplCallError>(e),
        },
{
    let c = chars_of(i);
    proof {
        lemma_find_first(c@, '/');
    }
    let (node, url) = match find_char(&c, '/') {
        Some(k) => {
            let u = sub_chars(&c, k + 1, c.len());
            assert(u@ =~= c@.skip(k + 1));
            (sub_chars(&c, 0, k), Some(u))
        },
        None => (sub_chars(&c, 0, c.len()), None),
    };
    assert(c@.subrange(0, c@.len() as int) =~= c@);
    let n = string_of(&node);
    if !str_eq(n.as_str(), ".local") {
        return Err(ReplCallError::NonLocal);
    }
    match url {
        Some(u) => Ok(string_of(&u)),
        None => Err(ReplCallError::NoUrl),
    }
}

/// The target and method of a bus call `target::method`: cut at the first
/// `::`; a call without one names no method.
pub open spec fn bus_split_spec(call: Seq<char>) -> Result<(Seq<char>, Seq<char>), ReplCallError> {
    match find_run(call, "::"@) {
        Some(k) => Ok((call.take(k), call.skip(k + 2))),
        None => Err(ReplCallError::NoBusMethod),
    }
}

/// Splits a bus call.
pub fn split_bus_call(call: &str) -> (r: Result<(String, String), ReplCallError>)
    ensures
        match bus_split_spec(call@) {
            Ok((t, m)) => (r matches Ok(p) && p.0@ == t && p.1@ == m),
            Err(e) => r == Err::<(String, String), ReplCallError>(e),
        },
{
    let c = chars_of(call);
    let sep = chars_of("::");
    proof {
        reveal_strlit("::");
        lemma_find_run(c@, sep@);
    }
    match find_run_in(&c, &sep) {
        Some(k) => {
            let t = sub_chars(&c, 0, k);
            let m = sub_chars(&c, k + 2, c.len());
            assert(m@ =~= c@.skip(k + 2));
            Ok((string_of(&t), string_of(&m)))
        },
        None => Err(ReplCallError::NoBusMethod),
    }
}

} // verus!
