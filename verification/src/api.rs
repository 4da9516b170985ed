//! The HMI's JSON-RPC methods: which handler a method name (or one of its
//! older aliases) reaches, which names are deprecated, and the targets of
//! the pass-through calls `bus::` and `x::`.
use crate::data::{find_key, insert_text_key, key_index, Datum, SDatum};
use crate::repl_calls::{bus_split_spec, split_bus_call, ReplCallError};
use crate::text::{
    after_prefix, chars_of, find_run, find_run_in, lemma_find_run, str_eq, string_of,
    strip_prefix, sub_chars,
};
use vstd::prelude::*;

verus! {

/// The handler that a method reaches.
#[derive(PartialEq, Eq, Structural, Copy, Clone, Debug)]
pub enum ApiMethod {
    Call,
    Login,
    Logout,
    EhmiGetConfig,
    Test,
    SetPassword,
    ProfileGetField,
    ProfileSetField,
    ItemState,
    ItemCheckAccess,
    ItemStateHistory,
    ItemStateLog,
    LogGet,
    ApiLogGet,
    Action,
    ActionToggle,
    ActionResult,
    ActionKill,
    ActionTerminate,
    Run,
    LvarSet,
    LvarReset,
    LvarClear,
    LvarToggle,
    LvarIncr,
    LvarDecr,
    SessionListNeighbors,
    SessionSetReadonly,
    EhmiCreateConfig,
    UserDataGet,
    UserDataSet,
    UserDataDelete,
    DbList,
    PvtPut,
    PvtGet,
    PvtUnlink,
    PvtList,
    /// `bus::target::method`: a call of a bus service.
    Bus,
    /// `x::target::method`: an extra call of a service.
    X,
    /// No such method.
    Unknown,
}

/// The handler that the method named `m` reaches; the names after the first
/// of each handler are older aliases.
pub open spec fn api_method_spec(m: Seq<char>) -> ApiMethod {
    if m == "call"@ {
        ApiMethod::Call
    } else if m == "login"@ {
        ApiMethod::Login
    } else if m == "logout"@ {
        ApiMethod::Logout
    } else if m == "ehmi.get_config"@ {
        ApiMethod::EhmiGetConfig
    } else if m == "test"@ {
        ApiMethod::Test
    } else if m == "set_password"@ {
        ApiMethod::SetPassword
    } else if m == "profile.get_field"@ {
        ApiMethod::ProfileGetField
    } else if m == "profile.set_field"@ {
        ApiMethod::ProfileSetField
    } else if m == "item.state"@ || m == "state"@ {
        ApiMethod::ItemState
    } else if m == "item.check_access"@ || m == "check_item_access"@ {
        ApiMethod::ItemCheckAccess
    } else if m == "item.state_history"@ || m == "state_history"@ {
        ApiMethod::ItemStateHistory
    } else if m == "item.state_log"@ || m == "state_log"@ {
        ApiMethod::ItemStateLog
    } else if m == "log.get"@ || m == "log_get"@ {
        ApiMethod::LogGet
    } else if m == "api_log.get"@ {
        ApiMethod::ApiLogGet
    } else if m == "action"@ {
        ApiMethod::Action
    } else if m == "action.toggle"@ || m == "action_toggle"@ {
        ApiMethod::ActionToggle
    } else if m == "action.result"@ || m == "result"@ {
        ApiMethod::ActionResult
    } else if m == "action.kill"@ || m == "kill"@ {
        ApiMethod::ActionKill
    } else if m == "action.terminate"@ || m == "terminate"@ {
        ApiMethod::ActionTerminate
    } else if m == "run"@ {
        ApiMethod::Run
    } else if m == "lvar.set"@ || m == "set"@ {
        ApiMethod::LvarSet
    } else if m == "lvar.reset"@ || m == "reset"@ {
        ApiMethod::LvarReset
    } else if m == "lvar.clear"@ || m == "clear"@ {
        ApiMethod::LvarClear
    } else if m == "lvar.toggle"@ || m == "toggle"@ {
        ApiMethod::LvarToggle
    } else if m == "lvar.incr"@ || m == "increment"@ {
        ApiMethod::LvarIncr
    } else if m == "lvar.decr"@ || m == "decrement"@ {
        ApiMethod::LvarDecr
    } else if m == "session.list_neighbors"@ || m == "get_neighbor_clients"@ {
        ApiMethod::SessionListNeighbors
    } else if m == "session.set_readonly"@ || m == "set_token_readonly"@ {
        ApiMethod::SessionSetReadonly
    } else if m == "ehmi.create_config"@ {
        ApiMethod::EhmiCreateConfig
    } else if m == "user_data.get"@ {
        ApiMethod::UserDataGet
    } else if m == "user_data.set"@ {
        ApiMethod::UserDataSet
    } else if m == "user_data.delete"@ {
        ApiMethod::UserDataDelete
    } else if m == "db.list"@ {
        ApiMethod::DbList
    } else if m == "pvt.put"@ {
        ApiMethod::PvtPut
    } else if m == "pvt.get"@ {
        ApiMethod::PvtGet
    } else if m == "pvt.unlink"@ {
        ApiMethod::PvtUnlink
    } else if m == "pvt.list"@ {
        ApiMethod::PvtList
    } else if "bus::"@.is_prefix_of(m) {
        ApiMethod::Bus
    } else if "x::"@.is_prefix_of(m) {
        ApiMethod::X
    } else {
        ApiMethod::Unknown
    }
}

/// Finds the handler of a method.
pub fn api_method(m: &str) -> (r: ApiMethod)
    ensures
        r == api_method_spec(m@),
{
    if str_eq(m, "call") {
        ApiMethod::Call
    } else if str_eq(m, "login") {
        ApiMethod::Login
    } else if str_eq(m, "logout") {
        ApiMethod::Logout
    } else if str_eq(m, "ehmi.get_config") {
        ApiMethod::EhmiGetConfig
    } else if str_eq(m, "test") {
        ApiMethod::Test
    } else if str_eq(m, "set_password") {
        ApiMethod::SetPassword
    } else if str_eq(m, "profile.get_field") {
        ApiMethod::ProfileGetField
    } else if str_eq(m, "profile.set_field") {
        ApiMethod::ProfileSetField
    } else if str_eq(m, "item.state") || str_eq(m, "state") {
        ApiMethod::ItemState
    } else if str_eq(m, "item.check_access") || str_eq(m, "check_item_access") {
        ApiMethod::ItemCheckAccess
    } else if str_eq(m, "item.state_history") || str_eq(m, "state_history") {
        ApiMethod::ItemStateHistory
    } else if str_eq(m, "item.state_log") || str_eq(m, "state_log") {
        ApiMethod::ItemStateLog
    } else if str_eq(m, "log.get") || str_eq(m, "log_get") {
        ApiMethod::LogGet
    } else if str_eq(m, "api_log.get") {
        ApiMethod::ApiLogGet
    } else if str_eq(m, "action") {
        ApiMethod::Action
    } else if str_eq(m, "action.toggle") || str_eq(m, "action_toggle") {
        ApiMethod::ActionToggle
    } else if str_eq(m, "action.result") || str_eq(m, "result") {
        ApiMethod::ActionResult
    } else if str_eq(m, "action.kill") || str_eq(m, "kill") {
        ApiMethod::ActionKill
    } else if str_eq(m, "action.terminate") || str_eq(m, "terminate") {
        ApiMethod::ActionTerminate
    } else if str_eq(m, "run") {
        ApiMethod::Run
    } else if str_eq(m, "lvar.set") || str_eq(m, "set") {
        ApiMethod::LvarSet
    } else if str_eq(m, "lvar.reset") || str_eq(m, "reset") {
        ApiMethod::LvarReset
    } else if str_eq(m, "lvar.clear") || str_eq(m, "clear") {
        ApiMethod::LvarClear
    } else if str_eq(m, "lvar.toggle") || str_eq(m, "toggle") {
        ApiMethod::LvarToggle
    } else if str_eq(m, "lvar.incr") || str_eq(m, "increment") {
        ApiMethod::LvarIncr
    } else if str_eq(m, "lvar.decr") || str_eq(m, "decrement") {
        ApiMethod::LvarDecr
    } else if str_eq(m, "session.list_neighbors") || str_eq(m, "get_neighbor_clients") {
        ApiMethod::SessionListNeighbors
    } else if str_eq(m, "session.set_readonly") || str_eq(m, "set_token_readonly") {
        ApiMethod::SessionSetReadonly
    } else if str_eq(m, "ehmi.create_config") {
        ApiMethod::EhmiCreateConfig
    } else if str_eq(m, "user_data.get") {
        ApiMethod::UserDataGet
    } else if str_eq(m, "user_data.set") {
        ApiMethod::UserDataSet
    } else if str_eq(m, "user_data.delete") {
        ApiMethod::UserDataDelete
    } else if str_eq(m, "db.list") {
        ApiMethod::DbList
    } else if str_eq(m, "pvt.put") {
        ApiMethod::PvtPut
    } else if str_eq(m, "pvt.get") {
        ApiMethod::PvtGet
    } else if str_eq(m, "pvt.unlink") {
        ApiMethod::PvtUnlink
    } else if str_eq(m, "pvt.list") {
        ApiMethod::PvtList
    } else if crate::text::has_prefix(&chars_of(m), &chars_of("bus::")) {
        ApiMethod::Bus
    } else if crate::text::has_prefix(&chars_of(m), &chars_of("x::")) {
        ApiMethod::X
    } else {
        ApiMethod::Unknown
    }
}

/// The older method names, which still work and are reported as
/// deprecated.
pub open spec fn deprecated_spec(m: Seq<char>) -> bool {
    m == "state"@ || m == "state_history"@ || m == "state_log"@ || m == "log_get"@ || m == "action_toggle"@ || m == "get_neighbor_clients"@ || m == "set_token_readonly"@ || m == "check_item_access"@ || m == "result"@ || m == "kill"@ || m == "terminate"@ || m == "set"@ || m == "reset"@ || m == "clear"@ || m == "toggle"@ || m == "increment"@ || m == "decrement"@
}

/// Whether a method name is an older alias.
pub fn is_deprecated(m: &str) -> (r: bool)
    ensures
        r == deprecated_spec(m@),
{
    str_eq(m, "state") || str_eq(m, "state_history") || str_eq(m, "state_log") || str_eq(m, "log_get") || str_eq(m, "action_toggle") || str_eq(m, "get_neighbor_clients") || str_eq(m, "set_token_readonly") || str_eq(m, "check_item_access") || str_eq(m, "result") || str_eq(m, "kill") || str_eq(m, "terminate") || str_eq(m, "set") || str_eq(m, "reset") || str_eq(m, "clear") || str_eq(m, "toggle") || str_eq(m, "increment") || str_eq(m, "decrement")
}
/// The target and method of an extra call `target::method[::...]`: the
/// text up to the first `::`, then the text up to the next `::` or the end;
/// a call without `::` names no method.
pub open spec fn x_split_spec(call: Seq<char>) -> Result<(Seq<char>, Seq<char>), ReplCallError> {
    match find_run(call, "::"@) {
        None => Err(ReplCallError::NoBusMethod),
        Some(i) => {
            let rest = call.skip(i + 2);
            match find_run(rest, "::"@) {
                Some(j) => Ok((call.take(i), rest.take(j))),
                None => Ok((call.take(i), rest)),
            }
        },
    }
}

/// The target and method of a pass-through call: `bus::` calls cut at the
/// first `::` after the prefix, `x::` calls as [`x_split_spec`] reads them;
/// `None` for other methods.
pub open spec fn pass_through_spec(m: Seq<char>) -> Option<Result<(Seq<char>, Seq<char>), ReplCallError>> {
    match after_prefix(m, "bus::"@) {
        Some(call) => Some(bus_split_spec(call)),
        None => match after_prefix(m, "x::"@) {
            Some(call) => Some(x_split_spec(call)),
            None => None,
        },
    }
}

fn split_x_call(call: &str) -> (r: Result<(String, String), ReplCallError>)
    ensures
        match x_split_spec(call@) {
            Ok((t, m)) => (r matches Ok(p) && p.0@ == t && p.1@ == m),
            Err(e) => r == Err::<(String, String), ReplCallError>(e),
        },
{
    let c = chars_of(call);
    let sep = chars_of("::");
    proof {
        reveal_strlit("::");
        lemma_find_run(c@, sep@);
    }
    match find_run_in(&c, &sep) {
        None => Err(ReplCallError::NoBusMethod),
        Some(i) => {
            let target = sub_chars(&c, 0, i);
            let rest = sub_chars(&c, i + 2, c.len());
            assert(rest@ =~= c@.skip(i + 2));
            proof {
                lemma_find_run(rest@, sep@);
            }
            let method = match find_run_in(&rest, &sep) {
                Some(j) => sub_chars(&rest, 0, j),
                None => rest,
            };
            Ok((string_of(&target), string_of(&method)))
        },
    }
}

/// The target and method of a pass-through call (`bus::` or `x::`), or
/// `None` for other methods.
pub fn pass_through(m: &str) -> (r: Option<Result<(String, String), ReplCallError>>)
    ensures
        match pass_through_spec(m@) {
            None => r is None,
            Some(Ok((t, x))) => (r matches Some(Ok(p)) && p.0@ == t && p.1@ == x),
            Some(Err(e)) => r == Some(Err::<(String, String), ReplCallError>(e)),
        },
{
    if let Some(call) = strip_prefix(m, "bus::") {
        return Some(split_bus_call(call.as_str()));
    }
    if let Some(call) = strip_prefix(m, "x::") {
        return Some(split_x_call(call.as_str()));
    }
    None
}



/// The method that the method of a call string stands for: the shortcuts
/// `s`, `h` and `ehmi` stand for `item.state`, `item.state_history` and
/// `ehmi.create_config`; `call` itself is refused (`None`).
pub open spec fn call_target_spec(m: Seq<char>) -> Option<Seq<char>> {
    if m == "call"@ {
        None
    } else if m == "s"@ {
        Some("item.state"@)
    } else if m == "h"@ {
        Some("item.state_history"@)
    } else if m == "ehmi"@ {
        Some("ehmi.create_config"@)
    } else {
        Some(m)
    }
}

pub open spec fn target_view(r: Option<String>) -> Option<Seq<char>> {
    match r {
        Some(s) => Some(s@),
        None => None,
    }
}

/// The method that a call string's method stands for, or `None` for
/// `call` (no such method).
pub fn call_target(m: &str) -> (r: Option<String>)
    ensures
        target_view(r) == call_target_spec(m@),
{
    if str_eq(m, "call") {
        None
    } else if str_eq(m, "s") {
        Some("item.state".to_owned())
    } else if str_eq(m, "h") {
        Some("item.state_history".to_owned())
    } else if str_eq(m, "ehmi") {
        Some("ehmi.create_config".to_owned())
    } else {
        Some(m.to_owned())
    }
}

/// The parameters of a call string with the key given besides it: bound
/// to `k` where the parameters are a map that has no `k` yet.
pub open spec fn with_call_key_spec(params: SDatum, key: Option<Seq<char>>) -> SDatum {
    match (params, key) {
        (SDatum::Mapping(m), Some(k)) => if key_index(m, "k"@) is None {
            SDatum::Mapping(m.push((SDatum::Text("k"@), SDatum::Text(k))))
        } else {
            params
        },
        _ => params,
    }
}

/// Adds the key given besides a call string to its parameters.
pub fn with_call_key(params: Datum, key: Option<String>) -> (r: Datum)
    ensures
        r@ == with_call_key_spec(params@, target_view(key)),
{
    match params {
        Datum::Mapping(m) => {
            match key {
                Some(k) => {
                    let mut m = m;
                    if find_key(&m, "k").is_none() {
                        insert_text_key(&mut m, "k", Datum::Text(k));
                    }
                    Datum::Mapping(m)
                },
                None => Datum::Mapping(m),
            }
        },
        other => other,
    }
}

/// Every method name reaches its own handler, and each older name reaches
/// the handler of the name that replaced it.
pub proof fn law_method_names_reach_their_handlers()
    ensures
        api_method_spec("call"@) == ApiMethod::Call,
        api_method_spec("login"@) == ApiMethod::Login,
        api_method_spec("logout"@) == ApiMethod::Logout,
        api_method_spec("ehmi.get_config"@) == ApiMethod::EhmiGetConfig,
        api_method_spec("test"@) == ApiMethod::Test,
        api_method_spec("set_password"@) == ApiMethod::SetPassword,
        api_method_spec("profile.get_field"@) == ApiMethod::ProfileGetField,
        api_method_spec("profile.set_field"@) == ApiMethod::ProfileSetField,
        api_method_spec("item.state"@) == ApiMethod::ItemState,
        api_method_spec("state"@) == ApiMethod::ItemState,
        api_method_spec("item.check_access"@) == ApiMethod::ItemCheckAccess,
        api_method_spec("check_item_access"@) == ApiMethod::ItemCheckAccess,
        api_method_spec("item.state_history"@) == ApiMethod::ItemStateHistory,
        api_method_spec("state_history"@) == ApiMethod::ItemStateHistory,
        api_method_spec("item.state_log"@) == ApiMethod::ItemStateLog,
        api_method_spec("state_log"@) == ApiMethod::ItemStateLog,
        api_method_spec("log.get"@) == ApiMethod::LogGet,
        api_method_spec("log_get"@) == ApiMethod::LogGet,
        api_method_spec("api_log.get"@) == ApiMethod::ApiLogGet,
        api_method_spec("action"@) == ApiMethod::Action,
        api_method_spec("action.toggle"@) == ApiMethod::ActionToggle,
        api_method_spec("action_toggle"@) == ApiMethod::ActionToggle,
        api_method_spec("action.result"@) == ApiMethod::ActionResult,
        api_method_spec("result"@) == ApiMethod::ActionResult,
        api_method_spec("action.kill"@) == ApiMethod::ActionKill,
        api_method_spec("kill"@) == ApiMethod::ActionKill,
        api_method_spec("action.terminate"@) == ApiMethod::ActionTerminate,
        api_method_spec("terminate"@) == ApiMethod::ActionTerminate,
        api_method_spec("run"@) == ApiMethod::Run,
        api_method_spec("lvar.set"@) == ApiMethod::LvarSet,
        api_method_spec("set"@) == ApiMethod::LvarSet,
        api_method_spec("lvar.reset"@) == ApiMethod::LvarReset,
        api_method_spec("reset"@) == ApiMethod::LvarReset,
        api_method_spec("lvar.clear"@) == ApiMethod::LvarClear,
        api_method_spec("clear"@) == ApiMethod::LvarClear,
        api_method_spec("lvar.toggle"@) == ApiMethod::LvarToggle,
        api_method_spec("toggle"@) == ApiMethod::LvarToggle,
        api_method_spec("lvar.incr"@) == ApiMethod::LvarIncr,
        api_method_spec("increment"@) == ApiMethod::LvarIncr,
        api_method_spec("lvar.decr"@) == ApiMethod::LvarDecr,
        api_method_spec("decrement"@) == ApiMethod::LvarDecr,
        api_method_spec("session.list_neighbors"@) == ApiMethod::SessionListNeighbors,
        api_method_spec("get_neighbor_clients"@) == ApiMethod::SessionListNeighbors,
        api_method_spec("session.set_readonly"@) == ApiMethod::SessionSetReadonly,
        api_method_spec("set_token_readonly"@) == ApiMethod::SessionSetReadonly,
        api_method_spec("ehmi.create_config"@) == ApiMethod::EhmiCreateConfig,
        api_method_spec("user_data.get"@) == ApiMethod::UserDataGet,
        api_method_spec("user_data.set"@) == ApiMethod::UserDataSet,
        api_method_spec("user_data.delete"@) == ApiMethod::UserDataDelete,
        api_method_spec("db.list"@) == ApiMethod::DbList,
        api_method_spec("pvt.put"@) == ApiMethod::PvtPut,
        api_method_spec("pvt.get"@) == ApiMethod::PvtGet,
        api_method_spec("pvt.unlink"@) == ApiMethod::PvtUnlink,
        api_method_spec("pvt.list"@) == ApiMethod::PvtList,
        api_method_spec("state"@) == api_method_spec("item.state"@),
        api_method_spec("check_item_access"@) == api_method_spec("item.check_access"@),
        api_method_spec("state_history"@) == api_method_spec("item.state_history"@),
        api_method_spec("state_log"@) == api_method_spec("item.state_log"@),
        api_method_spec("log_get"@) == api_method_spec("log.get"@),
        api_method_spec("action_toggle"@) == api_method_spec("action.toggle"@),
        api_method_spec("result"@) == api_method_spec("action.result"@),
        api_method_spec("kill"@) == api_method_spec("action.kill"@),
        api_method_spec("terminate"@) == api_method_spec("action.terminate"@),
        api_method_spec("set"@) == api_method_spec("lvar.set"@),
        api_method_spec("reset"@) == api_method_spec("lvar.reset"@),
        api_method_spec("clear"@) == api_method_spec("lvar.clear"@),
        api_method_spec("toggle"@) == api_method_spec("lvar.toggle"@),
        api_method_spec("increment"@) == api_method_spec("lvar.incr"@),
        api_method_spec("decrement"@) == api_method_spec("lvar.decr"@),
        api_method_spec("get_neighbor_clients"@) == api_method_spec("session.list_neighbors"@),
        api_method_spec("set_token_readonly"@) == api_method_spec("session.set_readonly"@),
{
    lemma_method_call();
    lemma_method_login();
    lemma_method_logout();
    lemma_method_ehmi_dot_get_config();
    lemma_method_test();
    lemma_method_set_password();
    lemma_method_profile_dot_get_field();
    lemma_method_profile_dot_set_field();
    lemma_method_item_dot_state();
    lemma_method_state();
    lemma_method_item_dot_check_access();
    lemma_method_check_item_access();
    lemma_method_item_dot_state_history();
    lemma_method_state_history();
    lemma_method_item_dot_state_log();
    lemma_method_state_log();
    lemma_method_log_dot_get();
    lemma_method_log_get();
    lemma_method_api_log_dot_get();
    lemma_method_action();
    lemma_method_action_dot_toggle();
    lemma_method_action_toggle();
    lemma_method_action_dot_result();
    lemma_method_result();
    lemma_method_action_dot_kill();
    lemma_method_kill();
    lemma_method_action_dot_terminate();
    lemma_method_terminate();
    lemma_method_run();
    lemma_method_lvar_dot_set();
    lemma_method_set();
    lemma_method_lvar_dot_reset();
    lemma_method_reset();
    lemma_method_lvar_dot_clear();
    lemma_method_clear();
    lemma_method_lvar_dot_toggle();
    lemma_method_toggle();
    lemma_method_lvar_dot_incr();
    lemma_method_increment();
    lemma_method_lvar_dot_decr();
    lemma_method_decrement();
    lemma_method_session_dot_list_neighbors();
    lemma_method_get_neighbor_clients();
    lemma_method_session_dot_set_readonly();
    lemma_method_set_token_readonly();
    lemma_method_ehmi_dot_create_config();
    lemma_method_user_data_dot_get();
    lemma_method_user_data_dot_set();
    lemma_method_user_data_dot_delete();
    lemma_method_db_dot_list();
    lemma_method_pvt_dot_put();
    lemma_method_pvt_dot_get();
    lemma_method_pvt_dot_unlink();
    lemma_method_pvt_dot_list();
}

proof fn lemma_method_call()
    ensures
        api_method_spec("call"@) == ApiMethod::Call,
{
    reveal_strlit("call");
}

proof fn lemma_method_login()
    ensures
        api_method_spec("login"@) == ApiMethod::Login,
{
    reveal_strlit("login");
    reveal_strlit("call");
    assert("call"@.len() != "login"@.len());
}

proof fn lemma_method_logout()
    ensures
        api_method_spec("logout"@) == ApiMethod::Logout,
{
    reveal_strlit("logout");
    reveal_strlit("call");
    assert("call"@.len() != "logout"@.len());
    reveal_strlit("login");
    assert("login"@.len() != "logout"@.len());
}

proof fn lemma_method_ehmi_dot_get_config()
    ensures
        api_method_spec("ehmi.get_config"@) == ApiMethod::EhmiGetConfig,
{
    reveal_strlit("ehmi.get_config");
    reveal_strlit("call");
    assert("call"@.len() != "ehmi.get_config"@.len());
    reveal_strlit("login");
    assert("login"@.len() != "ehmi.get_config"@.len());
    reveal_strlit("logout");
    assert("logout"@.len() != "ehmi.get_config"@.len());
}

proof fn lemma_method_test()
    ensures
        api_method_spec("test"@) == ApiMethod::Test,
{
    reveal_strlit("test");
    reveal_strlit("call");
    assert("call"@[0] != "test"@[0]);
    reveal_strlit("login");
    assert("login"@.len() != "test"@.len());
    reveal_strlit("logout");
    assert("logout"@.len() != "test"@.len());
    reveal_strlit("ehmi.get_config");
    assert("ehmi.get_config"@.len() != "test"@.len());
}

proof fn lemma_method_set_password()
    ensures
        api_method_spec("set_password"@) == ApiMethod::SetPassword,
{
    reveal_strlit("set_password");
    reveal_strlit("call");
    assert("call"@.len() != "set_password"@.len());
    reveal_strlit("login");
    assert("login"@.len() != "set_password"@.len());
    reveal_strlit("logout");
    assert("logout"@.len() != "set_password"@.len());
    reveal_strlit("ehmi.get_config");
    assert("ehmi.get_config"@.len() != "set_password"@.len());
    reveal_strlit("test");
    assert("test"@.len() != "set_password"@.len());
}

proof fn lemma_method_profile_dot_get_field()
    ensures
        api_method_spec("profile.get_field"@) == ApiMethod::ProfileGetField,
{
    reveal_strlit("profile.get_field");
    reveal_strlit("call");
    assert("call"@.len() != "profile.get_field"@.len());
    reveal_strlit("login");
    assert("login"@.len() != "profile.get_field"@.len());
    reveal_strlit("logout");
    assert("logout"@.len() != "profile.get_field"@.len());
    reveal_strlit("ehmi.get_config");
    assert("ehmi.get_config"@.len() != "profile.get_field"@.len());
    reveal_strlit("test");
    assert("test"@.len() != "profile.get_field"@.len());
    reveal_strlit("set_password");
    assert("set_password"@.len() != "profile.get_field"@.len());
}

proof fn lemma_method_profile_dot_set_field()
    ensures
        api_method_spec("profile.set_field"@) == ApiMethod::ProfileSetField,
{
    reveal_strlit("profile.set_field");
    reveal_strlit("call");
    assert("call"@.len() != "profile.set_field"@.len());
    reveal_strlit("login");
    assert("login"@.len() != "profile.set_field"@.len());
    reveal_strlit("logout");
    assert("logout"@.len() != "profile.set_field"@.len());
    reveal_strlit("ehmi.get_config");
    assert("ehmi.get_config"@.len() != "profile.set_field"@.len());
    reveal_strlit("test");
    assert("test"@.len() != "profile.set_field"@.len());
    reveal_strlit("set_password");
    assert("set_password"@.len() != "profile.set_field"@.len());
    reveal_strlit("profile.get_field");
    assert("profile.get_field"@[8] != "profile.set_field"@[8]);
}

proof fn lemma_method_item_dot_state()
    ensures
        api_method_spec("item.state"@) == ApiMethod::ItemState,
{
    reveal_strlit("item.state");
    reveal_strlit("call");
    assert("call"@.len() != "item.state"@.len());
    reveal_strlit("login");
    assert("login"@.len() != "item.state"@.len());
    reveal_strlit("logout");
    assert("logout"@.len() != "item.state"@.len());
    reveal_strlit("ehmi.get_config");
    assert("ehmi.get_config"@.len() != "item.state"@.len());
    reveal_strlit("test");
    assert("test"@.len() != "item.state"@.len());
    reveal_strlit("set_password");
    assert("set_password"@.len() != "item.state"@.len());
    reveal_strlit("profile.get_field");
    assert("profile.get_field"@.len() != "item.state"@.len());
    reveal_strlit("profile.set_field");
    assert("profile.set_field"@.len() != "item.state"@.len());
}

proof fn lemma_method_state()
    ensures
        api_method_spec("state"@) == ApiMethod::ItemState,
{
    reveal_strlit("state");
    reveal_strlit("call");
    assert("call"@.len() != "state"@.len());
    reveal_strlit("login");
    assert("login"@[0] != "state"@[0]);
    reveal_strlit("logout");
    assert("logout"@.len() != "state"@.len());
    reveal_strlit("ehmi.get_config");
    assert("ehmi.get_config"@.len() != "state"@.len());
    reveal_strlit("test");
    assert("test"@.len() != "state"@.len());
    reveal_strlit("set_password");
    assert("set_password"@.len() != "state"@.len());
    reveal_strlit("profile.get_field");
    assert("profile.get_field"@.len() != "state"@.len());
    reveal_strlit("profile.set_field");
    assert("profile.set_field"@.len() != "state"@.len());
    reveal_strlit("item.state");
    assert("item.state"@.len() != "state"@.len());
}

proof fn lemma_method_item_dot_check_access()
    ensures
        api_method_spec("item.check_access"@) == ApiMethod::ItemCheckAccess,
{
    reveal_strlit("item.check_access");
    reveal_strlit("call");
    assert("call"@.len() != "item.check_access"@.len());
    reveal_strlit("login");
    assert("login"@.len() != "item.check_access"@.len());
    reveal_strlit("logout");
    assert("logout"@.len() != "item.check_access"@.len());
    reveal_strlit("ehmi.get_config");
    assert("ehmi.get_config"@.len() != "item.check_access"@.len());
    reveal_strlit("test");
    assert("test"@.len() != "item.check_access"@.len());
    reveal_strlit("set_password");
    assert("set_password"@.len() != "item.check_access"@.len());
    reveal_strlit("profile.get_field");
    assert("profile.get_field"@[0] != "item.check_access"@[0]);
    reveal_strlit("profile.set_field");
    assert("profile.set_field"@[0] != "item.check_access"@[0]);
    reveal_strlit("item.state");
    assert("item.state"@.len() != "item.check_access"@.len());
    reveal_strlit("state");
    assert("state"@.len() != "item.check_access"@.len());
}

proof fn lemma_method_check_item_access()
    ensures
        api_method_spec("check_item_access"@) == ApiMethod::ItemCheckAccess,
{
    reveal_strlit("check_item_access");
    reveal_strlit("call");
    assert("call"@.len() != "check_item_access"@.len());
    reveal_strlit("login");
    assert("login"@.len() != "check_item_access"@.len());
    reveal_strlit("logout");
    assert("logout"@.len() != "check_item_access"@.len());
    reveal_strlit("ehmi.get_config");
    assert("ehmi.get_config"@.len() != "check_item_access"@.len());
    reveal_strlit("test");
    assert("test"@.len() != "check_item_access"@.len());
    reveal_strlit("set_password");
    assert("set_password"@.len() != "check_item_access"@.len());
    reveal_strlit("profile.get_field");
    assert("profile.get_field"@[0] != "check_item_access"@[0]);
    reveal_strlit("profile.set_field");
    assert("profile.set_field"@[0] != "check_item_access"@[0]);
    reveal_strlit("item.state");
    assert("item.state"@.len() != "check_item_access"@.len());
    reveal_strlit("state");
    assert("state"@.len() != "check_item_access"@.len());
    reveal_strlit("item.check_access");
    assert("item.check_access"@[0] != "check_item_access"@[0]);
}

proof fn lemma_method_item_dot_state_history()
    ensures
        api_method_spec("item.state_history"@) == ApiMethod::ItemStateHistory,
{
    reveal_strlit("item.state_history");
    reveal_strlit("call");
    assert("call"@.len() != "item.state_history"@.len());
    reveal_strlit("login");
    assert("login"@.len() != "item.state_history"@.len());
    reveal_strlit("logout");
    assert("logout"@.len() != "item.state_history"@.len());
    reveal_strlit("ehmi.get_config");
    assert("ehmi.get_config"@.len() != "item.state_history"@.len());
    reveal_strlit("test");
    assert("test"@.len() != "item.state_history"@.len());
    reveal_strlit("set_password");
    assert("set_password"@.len() != "item.state_history"@.len());
    reveal_strlit("profile.get_field");
    assert("profile.get_field"@.len() != "item.state_history"@.len());
    reveal_strlit("profile.set_field");
    assert("profile.set_field"@.len() != "item.state_history"@.len());
    reveal_strlit("item.state");
    assert("item.state"@.len() != "item.state_history"@.len());
    reveal_strlit("state");
    assert("state"@.len() != "item.state_history"@.len());
    reveal_strlit("item.check_access");
    assert("item.check_access"@.len() != "item.state_history"@.len());
    reveal_strlit("check_item_access");
    assert("check_item_access"@.len() != "item.state_history"@.len());
}

proof fn lemma_method_state_history()
    ensures
        api_method_spec("state_history"@) == ApiMethod::ItemStateHistory,
{
    reveal_strlit("state_history");
    reveal_strlit("call");
    assert("call"@.len() != "state_history"@.len());
    reveal_strlit("login");
    assert("login"@.len() != "state_history"@.len());
    reveal_strlit("logout");
    assert("logout"@.len() != "state_history"@.len());
    reveal_strlit("ehmi.get_config");
    assert("ehmi.get_config"@.len() != "state_history"@.len());
    reveal_strlit("test");
    assert("test"@.len() != "state_history"@.len());
    reveal_strlit("set_password");
    assert("set_password"@.len() != "state_history"@.len());
    reveal_strlit("profile.get_field");
    assert("profile.get_field"@.len() != "state_history"@.len());
    reveal_strlit("profile.set_field");
    assert("profile.set_field"@.len() != "state_history"@.len());
    reveal_strlit("item.state");
    assert("item.state"@.len() != "state_history"@.len());
    reveal_strlit("state");
    assert("state"@.len() != "state_history"@.len());
    reveal_strlit("item.check_access");
    assert("item.check_access"@.len() != "state_history"@.len());
    reveal_strlit("check_item_access");
    assert("check_item_access"@.len() != "state_history"@.len());
    reveal_strlit("item.state_history");
    assert("item.state_history"@.len() != "state_history"@.len());
}

proof fn lemma_method_item_dot_state_log()
    ensures
        api_method_spec("item.state_log"@) == ApiMethod::ItemStateLog,
{
    reveal_strlit("item.state_log");
    reveal_strlit("call");
    assert("call"@.len() != "item.state_log"@.len());
    reveal_strlit("login");
    assert("login"@.len() != "item.state_log"@.len());
    reveal_strlit("logout");
    assert("logout"@.len() != "item.state_log"@.len());
    reveal_strlit("ehmi.get_config");
    assert("ehmi.get_config"@.len() != "item.state_log"@.len());
    reveal_strlit("test");
    assert("test"@.len() != "item.state_log"@.len());
    reveal_strlit("set_password");
    assert("set_password"@.len() != "item.state_log"@.len());
    reveal_strlit("profile.get_field");
    assert("profile.get_field"@.len() != "item.state_log"@.len());
    reveal_strlit("profile.set_field");
    assert("profile.set_field"@.len() != "item.state_log"@.len());
    reveal_strlit("item.state");
    assert("item.state"@.len() != "item.state_log"@.len());
    reveal_strlit("state");
    assert("state"@.len() != "item.state_log"@.len());
    reveal_strlit("item.check_access");
    assert("item.check_access"@.len() != "item.state_log"@.len());
    reveal_strlit("check_item_access");
    assert("check_item_access"@.len() != "item.state_log"@.len());
    reveal_strlit("item.state_history");
    assert("item.state_history"@.len() != "item.state_log"@.len());
    reveal_strlit("state_history");
    assert("state_history"@.len() != "item.state_log"@.len());
}

proof fn lemma_method_state_log()
    ensures
        api_method_spec("state_log"@) == ApiMethod::ItemStateLog,
{
    reveal_strlit("state_log");
    reveal_strlit("call");
    assert("call"@.len() != "state_log"@.len());
    reveal_strlit("login");
    assert("login"@.len() != "state_log"@.len());
    reveal_strlit("logout");
    assert("logout"@.len() != "state_log"@.len());
    reveal_strlit("ehmi.get_config");
    assert("ehmi.get_config"@.len() != "state_log"@.len());
    reveal_strlit("test");
    assert("test"@.len() != "state_log"@.len());
    reveal_strlit("set_password");
    assert("set_password"@.len() != "state_log"@.len());
    reveal_strlit("profile.get_field");
    assert("profile.get_field"@.len() != "state_log"@.len());
    reveal_strlit("profile.set_field");
    assert("profile.set_field"@.len() != "state_log"@.len());
    reveal_strlit("item.state");
    assert("item.state"@.len() != "state_log"@.len());
    reveal_strlit("state");
    assert("state"@.len() != "state_log"@.len());
    reveal_strlit("item.check_access");
    assert("item.check_access"@.len() != "state_log"@.len());
    reveal_strlit("check_item_access");
    assert("check_item_access"@.len() != "state_log"@.len());
    reveal_strlit("item.state_history");
    assert("item.state_history"@.len() != "state_log"@.len());
    reveal_strlit("state_history");
    assert("state_history"@.len() != "state_log"@.len());
    reveal_strlit("item.state_log");
    assert("item.state_log"@.len() != "state_log"@.len());
}

proof fn lemma_method_log_dot_get()
    ensures
        api_method_spec("log.get"@) == ApiMethod::LogGet,
{
    reveal_strlit("log.get");
    reveal_strlit("call");
    assert("call"@.len() != "log.get"@.len());
    reveal_strlit("login");
    assert("login"@.len() != "log.get"@.len());
    reveal_strlit("logout");
    assert("logout"@.len() != "log.get"@.len());
    reveal_strlit("ehmi.get_config");
    assert("ehmi.get_config"@.len() != "log.get"@.len());
    reveal_strlit("test");
    assert("test"@.len() != "log.get"@.len());
    reveal_strlit("set_password");
    assert("set_password"@.len() != "log.get"@.len());
    reveal_strlit("profile.get_field");
    assert("profile.get_field"@.len() != "log.get"@.len());
    reveal_strlit("profile.set_field");
    assert("profile.set_field"@.len() != "log.get"@.len());
    reveal_strlit("item.state");
    assert("item.state"@.len() != "log.get"@.len());
    reveal_strlit("state");
    assert("state"@.len() != "log.get"@.len());
    reveal_strlit("item.check_access");
    assert("item.check_access"@.len() != "log.get"@.len());
    reveal_strlit("check_item_access");
    assert("check_item_access"@.len() != "log.get"@.len());
    reveal_strlit("item.state_history");
    assert("item.state_history"@.len() != "log.get"@.len());
    reveal_strlit("state_history");
    assert("state_history"@.len() != "log.get"@.len());
    reveal_strlit("item.state_log");
    assert("item.state_log"@.len() != "log.get"@.len());
    reveal_strlit("state_log");
    assert("state_log"@.len() != "log.get"@.len());
}

proof fn lemma_method_log_get()
    ensures
        api_method_spec("log_get"@) == ApiMethod::LogGet,
{
    reveal_strlit("log_get");
    reveal_strlit("call");
    assert("call"@.len() != "log_get"@.len());
    reveal_strlit("login");
    assert("login"@.len() != "log_get"@.len());
    reveal_strlit("logout");
    assert("logout"@.len() != "log_get"@.len());
    reveal_strlit("ehmi.get_config");
    assert("ehmi.get_config"@.len() != "log_get"@.len());
    reveal_strlit("test");
    assert("test"@.len() != "log_get"@.len());
    reveal_strlit("set_password");
    assert("set_password"@.len() != "log_get"@.len());
    reveal_strlit("profile.get_field");
    assert("profile.get_field"@.len() != "log_get"@.len());
    reveal_strlit("profile.set_field");
    assert("profile.set_field"@.len() != "log_get"@.len());
    reveal_strlit("item.state");
    assert("item.state"@.len() != "log_get"@.len());
    reveal_strlit("state");
    assert("state"@.len() != "log_get"@.len());
    reveal_strlit("item.check_access");
    assert("item.check_access"@.len() != "log_get"@.len());
    reveal_strlit("check_item_access");
    assert("check_item_access"@.len() != "log_get"@.len());
    reveal_strlit("item.state_history");
    assert("item.state_history"@.len() != "log_get"@.len());
    reveal_strlit("state_history");
    assert("state_history"@.len() != "log_get"@.len());
    reveal_strlit("item.state_log");
    assert("item.state_log"@.len() != "log_get"@.len());
    reveal_strlit("state_log");
    assert("state_log"@.len() != "log_get"@.len());
    reveal_strlit("log.get");
    assert("log.get"@[3] != "log_get"@[3]);
}

proof fn lemma_method_api_log_dot_get()
    ensures
        api_method_spec("api_log.get"@) == ApiMethod::ApiLogGet,
{
    reveal_strlit("api_log.get");
    reveal_strlit("call");
    assert("call"@.len() != "api_log.get"@.len());
    reveal_strlit("login");
    assert("login"@.len() != "api_log.get"@.len());
    reveal_strlit("logout");
    assert("logout"@.len() != "api_log.get"@.len());
    reveal_strlit("ehmi.get_config");
    assert("ehmi.get_config"@.len() != "api_log.get"@.len());
    reveal_strlit("test");
    assert("test"@.len() != "api_log.get"@.len());
    reveal_strlit("set_password");
    assert("set_password"@.len() != "api_log.get"@.len());
    reveal_strlit("profile.get_field");
    assert("profile.get_field"@.len() != "api_log.get"@.len());
    reveal_strlit("profile.set_field");
    assert("profile.set_field"@.len() != "api_log.get"@.len());
    reveal_strlit("item.state");
    assert("item.state"@.len() != "api_log.get"@.len());
    reveal_strlit("state");
    assert("state"@.len() != "api_log.get"@.len());
    reveal_strlit("item.check_access");
    assert("item.check_access"@.len() != "api_log.get"@.len());
    reveal_strlit("check_item_access");
    assert("check_item_access"@.len() != "api_log.get"@.len());
    reveal_strlit("item.state_history");
    assert("item.state_history"@.len() != "api_log.get"@.len());
    reveal_strlit("state_history");
    assert("state_history"@.len() != "api_log.get"@.len());
    reveal_strlit("item.state_log");
    assert("item.state_log"@.len() != "api_log.get"@.len());
    reveal_strlit("state_log");
    assert("state_log"@.len() != "api_log.get"@.len());
    reveal_strlit("log.get");
    assert("log.get"@.len() != "api_log.get"@.len());
    reveal_strlit("log_get");
    assert("log_get"@.len() != "api_log.get"@.len());
}

proof fn lemma_method_action()
    ensures
        api_method_spec("action"@) == ApiMethod::Action,
{
    reveal_strlit("action");
    reveal_strlit("call");
    assert("call"@.len() != "action"@.len());
    reveal_strlit("login");
    assert("login"@.len() != "action"@.len());
    reveal_strlit("logout");
    assert("logout"@[0] != "action"@[0]);
    reveal_strlit("ehmi.get_config");
    assert("ehmi.get_config"@.len() != "action"@.len());
    reveal_strlit("test");
    assert("test"@.len() != "action"@.len());
    reveal_strlit("set_password");
    assert("set_password"@.len() != "action"@.len());
    reveal_strlit("profile.get_field");
    assert("profile.get_field"@.len() != "action"@.len());
    reveal_strlit("profile.set_field");
    assert("profile.set_field"@.len() != "action"@.len());
    reveal_strlit("item.state");
    assert("item.state"@.len() != "action"@.len());
    reveal_strlit("state");
    assert("state"@.len() != "action"@.len());
    reveal_strlit("item.check_access");
    assert("item.check_access"@.len() != "action"@.len());
    reveal_strlit("check_item_access");
    assert("check_item_access"@.len() != "action"@.len());
    reveal_strlit("item.state_history");
    assert("item.state_history"@.len() != "action"@.len());
    reveal_strlit("state_history");
    assert("state_history"@.len() != "action"@.len());
    reveal_strlit("item.state_log");
    assert("item.state_log"@.len() != "action"@.len());
    reveal_strlit("state_log");
    assert("state_log"@.len() != "action"@.len());
    reveal_strlit("log.get");
    assert("log.get"@.len() != "action"@.len());
    reveal_strlit("log_get");
    assert("log_get"@.len() != "action"@.len());
    reveal_strlit("api_log.get");
    assert("api_log.get"@.len() != "action"@.len());
}

proof fn lemma_method_action_dot_toggle()
    ensures
        api_method_spec("action.toggle"@) == ApiMethod::ActionToggle,
{
    reveal_strlit("action.toggle");
    reveal_strlit("call");
    assert("call"@.len() != "action.toggle"@.len());
    reveal_strlit("login");
    assert("login"@.len() != "action.toggle"@.len());
    reveal_strlit("logout");
    assert("logout"@.len() != "action.toggle"@.len());
    reveal_strlit("ehmi.get_config");
    assert("ehmi.get_config"@.len() != "action.toggle"@.len());
    reveal_strlit("test");
    assert("test"@.len() != "action.toggle"@.len());
    reveal_strlit("set_password");
    assert("set_password"@.len() != "action.toggle"@.len());
    reveal_strlit("profile.get_field");
    assert("profile.get_field"@.len() != "action.toggle"@.len());
    reveal_strlit("profile.set_field");
    assert("profile.set_field"@.len() != "action.toggle"@.len());
    reveal_strlit("item.state");
    assert("item.state"@.len() != "action.toggle"@.len());
    reveal_strlit("state");
    assert("state"@.len() != "action.toggle"@.len());
    reveal_strlit("item.check_access");
    assert("item.check_access"@.len() != "action.toggle"@.len());
    reveal_strlit("check_item_access");
    assert("check_item_access"@.len() != "action.toggle"@.len());
    reveal_strlit("item.state_history");
    assert("item.state_history"@.len() != "action.toggle"@.len());
    reveal_strlit("state_history");
    assert("state_history"@[0] != "action.toggle"@[0]);
    reveal_strlit("item.state_log");
    assert("item.state_log"@.len() != "action.toggle"@.len());
    reveal_strlit("state_log");
    assert("state_log"@.len() != "action.toggle"@.len());
    reveal_strlit("log.get");
    assert("log.get"@.len() != "action.toggle"@.len());
    reveal_strlit("log_get");
    assert("log_get"@.len() != "action.toggle"@.len());
    reveal_strlit("api_log.get");
    assert("api_log.get"@.len() != "action.toggle"@.len());
    reveal_strlit("action");
    assert("action"@.len() != "action.toggle"@.len());
}

proof fn lemma_method_action_toggle()
    ensures
        api_method_spec("action_toggle"@) == ApiMethod::ActionToggle,
{
    reveal_strlit("action_toggle");
    reveal_strlit("call");
    assert("call"@.len() != "action_toggle"@.len());
    reveal_strlit("login");
    assert("login"@.len() != "action_toggle"@.len());
    reveal_strlit("logout");
    assert("logout"@.len() != "action_toggle"@.len());
    reveal_strlit("ehmi.get_config");
    assert("ehmi.get_config"@.len() != "action_toggle"@.len());
    reveal_strlit("test");
    assert("test"@.len() != "action_toggle"@.len());
    reveal_strlit("set_password");
    assert("set_password"@.len() != "action_toggle"@.len());
    reveal_strlit("profile.get_field");
    assert("profile.get_field"@.len() != "action_toggle"@.len());
    reveal_strlit("profile.set_field");
    assert("profile.set_field"@.len() != "action_toggle"@.len());
    reveal_strlit("item.state");
    assert("item.state"@.len() != "action_toggle"@.len());
    reveal_strlit("state");
    assert("state"@.len() != "action_toggle"@.len());
    reveal_strlit("item.check_access");
    assert("item.check_access"@.len() != "action_toggle"@.len());
    reveal_strlit("check_item_access");
    assert("check_item_access"@.len() != "action_toggle"@.len());
    reveal_strlit("item.state_history");
    assert("item.state_history"@.len() != "action_toggle"@.len());
    reveal_strlit("state_history");
    assert("state_history"@[0] != "action_toggle"@[0]);
    reveal_strlit("item.state_log");
    assert("item.state_log"@.len() != "action_toggle"@.len());
    reveal_strlit("state_log");
    assert("state_log"@.len() != "action_toggle"@.len());
    reveal_strlit("log.get");
    assert("log.get"@.len() != "action_toggle"@.len());
    reveal_strlit("log_get");
    assert("log_get"@.len() != "action_toggle"@.len());
    reveal_strlit("api_log.get");
    assert("api_log.get"@.len() != "action_toggle"@.len());
    reveal_strlit("action");
    assert("action"@.len() != "action_toggle"@.len());
    reveal_strlit("action.toggle");
    assert("action.toggle"@[6] != "action_toggle"@[6]);
}

proof fn lemma_method_action_dot_result()
    ensures
        api_method_spec("action.result"@) == ApiMethod::ActionResult,
{
    reveal_strlit("action.result");
    reveal_strlit("call");
    assert("call"@.len() != "action.result"@.len());
    reveal_strlit("login");
    assert("login"@.len() != "action.result"@.len());
    reveal_strlit("logout");
    assert("logout"@.len() != "action.result"@.len());
    reveal_strlit("ehmi.get_config");
    assert("ehmi.get_config"@.len() != "action.result"@.len());
    reveal_strlit("test");
    assert("test"@.len() != "action.result"@.len());
    reveal_strlit("set_password");
    assert("set_password"@.len() != "action.result"@.len());
    reveal_strlit("profile.get_field");
    assert("profile.get_field"@.len() != "action.result"@.len());
    reveal_strlit("profile.set_field");
    assert("profile.set_field"@.len() != "action.result"@.len());
    reveal_strlit("item.state");
    assert("item.state"@.len() != "action.result"@.len());
    reveal_strlit("state");
    assert("state"@.len() != "action.result"@.len());
    reveal_strlit("item.check_access");
    assert("item.check_access"@.len() != "action.result"@.len());
    reveal_strlit("check_item_access");
    assert("check_item_access"@.len() != "action.result"@.len());
    reveal_strlit("item.state_history");
    assert("item.state_history"@.len() != "action.result"@.len());
    reveal_strlit("state_history");
    assert("state_history"@[0] != "action.result"@[0]);
    reveal_strlit("item.state_log");
    assert("item.state_log"@.len() != "action.result"@.len());
    reveal_strlit("state_log");
    assert("state_log"@.len() != "action.result"@.len());
    reveal_strlit("log.get");
    assert("log.get"@.len() != "action.result"@.len());
    reveal_strlit("log_get");
    assert("log_get"@.len() != "action.result"@.len());
    reveal_strlit("api_log.get");
    assert("api_log.get"@.len() != "action.result"@.len());
    reveal_strlit("action");
    assert("action"@.len() != "action.result"@.len());
    reveal_strlit("action.toggle");
    assert("action.toggle"@[7] != "action.result"@[7]);
    reveal_strlit("action_toggle");
    assert("action_toggle"@[6] != "action.result"@[6]);
}

proof fn lemma_method_result()
    ensures
        api_method_spec("result"@) == ApiMethod::ActionResult,
{
    reveal_strlit("result");
    reveal_strlit("call");
    assert("call"@.len() != "result"@.len());
    reveal_strlit("login");
    assert("login"@.len() != "result"@.len());
    reveal_strlit("logout");
    assert("logout"@[0] != "result"@[0]);
    reveal_strlit("ehmi.get_config");
    assert("ehmi.get_config"@.len() != "result"@.len());
    reveal_strlit("test");
    assert("test"@.len() != "result"@.len());
    reveal_strlit("set_password");
    assert("set_password"@.len() != "result"@.len());
    reveal_strlit("profile.get_field");
    assert("profile.get_field"@.len() != "result"@.len());
    reveal_strlit("profile.set_field");
    assert("profile.set_field"@.len() != "result"@.len());
    reveal_strlit("item.state");
    assert("item.state"@.len() != "result"@.len());
    reveal_strlit("state");
    assert("state"@.len() != "result"@.len());
    reveal_strlit("item.check_access");
    assert("item.check_access"@.len() != "result"@.len());
    reveal_strlit("check_item_access");
    assert("check_item_access"@.len() != "result"@.len());
    reveal_strlit("item.state_history");
    assert("item.state_history"@.len() != "result"@.len());
    reveal_strlit("state_history");
    assert("state_history"@.len() != "result"@.len());
    reveal_strlit("item.state_log");
    assert("item.state_log"@.len() != "result"@.len());
    reveal_strlit("state_log");
    assert("state_log"@.len() != "result"@.len());
    reveal_strlit("log.get");
    assert("log.get"@.len() != "result"@.len());
    reveal_strlit("log_get");
    assert("log_get"@.len() != "result"@.len());
    reveal_strlit("api_log.get");
    assert("api_log.get"@.len() != "result"@.len());
    reveal_strlit("action");
    assert("action"@[0] != "result"@[0]);
    reveal_strlit("action.toggle");
    assert("action.toggle"@.len() != "result"@.len());
    reveal_strlit("action_toggle");
    assert("action_toggle"@.len() != "result"@.len());
    reveal_strlit("action.result");
    assert("action.result"@.len() != "result"@.len());
}

proof fn lemma_method_action_dot_kill()
    ensures
        api_method_spec("action.kill"@) == ApiMethod::ActionKill,
{
    reveal_strlit("action.kill");
    reveal_strlit("call");
    assert("call"@.len() != "action.kill"@.len());
    reveal_strlit("login");
    assert("login"@.len() != "action.kill"@.len());
    reveal_strlit("logout");
    assert("logout"@.len() != "action.kill"@.len());
    reveal_strlit("ehmi.get_config");
    assert("ehmi.get_config"@.len() != "action.kill"@.len());
    reveal_strlit("test");
    assert("test"@.len() != "action.kill"@.len());
    reveal_strlit("set_password");
    assert("set_password"@.len() != "action.kill"@.len());
    reveal_strlit("profile.get_field");
    assert("profile.get_field"@.len() != "action.kill"@.len());
    reveal_strlit("profile.set_field");
    assert("profile.set_field"@.len() != "action.kill"@.len());
    reveal_strlit("item.state");
    assert("item.state"@.len() != "action.kill"@.len());
    reveal_strlit("state");
    assert("state"@.len() != "action.kill"@.len());
    reveal_strlit("item.check_access");
    assert("item.check_access"@.len() != "action.kill"@.len());
    reveal_strlit("check_item_access");
    assert("check_item_access"@.len() != "action.kill"@.len());
    reveal_strlit("item.state_history");
    assert("item.state_history"@.len() != "action.kill"@.len());
    reveal_strlit("state_history");
    assert("state_history"@.len() != "action.kill"@.len());
    reveal_strlit("item.state_log");
    assert("item.state_log"@.len() != "action.kill"@.len());
    reveal_strlit("state_log");
    assert("state_log"@.len() != "action.kill"@.len());
    reveal_strlit("log.get");
    assert("log.get"@.len() != "action.kill"@.len());
    reveal_strlit("log_get");
    assert("log_get"@.len() != "action.kill"@.len());
    reveal_strlit("api_log.get");
    assert("api_log.get"@[1] != "action.kill"@[1]);
    reveal_strlit("action");
    assert("action"@.len() != "action.kill"@.len());
    reveal_strlit("action.toggle");
    assert("action.toggle"@.len() != "action.kill"@.len());
    reveal_strlit("action_toggle");
    assert("action_toggle"@.len() != "action.kill"@.len());
    reveal_strlit("action.result");
    assert("action.result"@.len() != "action.kill"@.len());
    reveal_strlit("result");
    assert("result"@.len() != "action.kill"@.len());
}

proof fn lemma_method_kill()
    ensures
        api_method_spec("kill"@) == ApiMethod::ActionKill,
{
    reveal_strlit("kill");
    reveal_strlit("call");
    assert("call"@[0] != "kill"@[0]);
    reveal_strlit("login");
    assert("login"@.len() != "kill"@.len());
    reveal_strlit("logout");
    assert("logout"@.len() != "kill"@.len());
    reveal_strlit("ehmi.get_config");
    assert("ehmi.get_config"@.len() != "kill"@.len());
    reveal_strlit("test");
    assert("test"@[0] != "kill"@[0]);
    reveal_strlit("set_password");
    assert("set_password"@.len() != "kill"@.len());
    reveal_strlit("profile.get_field");
    assert("profile.get_field"@.len() != "kill"@.len());
    reveal_strlit("profile.set_field");
    assert("profile.set_field"@.len() != "kill"@.len());
    reveal_strlit("item.state");
    assert("item.state"@.len() != "kill"@.len());
    reveal_strlit("state");
    assert("state"@.len() != "kill"@.len());
    reveal_strlit("item.check_access");
    assert("item.check_access"@.len() != "kill"@.len());
    reveal_strlit("check_item_access");
    assert("check_item_access"@.len() != "kill"@.len());
    reveal_strlit("item.state_history");
    assert("item.state_history"@.len() != "kill"@.len());
    reveal_strlit("state_history");
    assert("state_history"@.len() != "kill"@.len());
    reveal_strlit("item.state_log");
    assert("item.state_log"@.len() != "kill"@.len());
    reveal_strlit("state_log");
    assert("state_log"@.len() != "kill"@.len());
    reveal_strlit("log.get");
    assert("log.get"@.len() != "kill"@.len());
    reveal_strlit("log_get");
    assert("log_get"@.len() != "kill"@.len());
    reveal_strlit("api_log.get");
    assert("api_log.get"@.len() != "kill"@.len());
    reveal_strlit("action");
    assert("action"@.len() != "kill"@.len());
    reveal_strlit("action.toggle");
    assert("action.toggle"@.len() != "kill"@.len());
    reveal_strlit("action_toggle");
    assert("action_toggle"@.len() != "kill"@.len());
    reveal_strlit("action.result");
    assert("action.result"@.len() != "kill"@.len());
    reveal_strlit("result");
    assert("result"@.len() != "kill"@.len());
    reveal_strlit("action.kill");
    assert("action.kill"@.len() != "kill"@.len());
}

proof fn lemma_method_action_dot_terminate()
    ensures
        api_method_spec("action.terminate"@) == ApiMethod::ActionTerminate,
{
    reveal_strlit("action.terminate");
    reveal_strlit("call");
    assert("call"@.len() != "action.terminate"@.len());
    reveal_strlit("login");
    assert("login"@.len() != "action.terminate"@.len());
    reveal_strlit("logout");
    assert("logout"@.len() != "action.terminate"@.len());
    reveal_strlit("ehmi.get_config");
    assert("ehmi.get_config"@.len() != "action.terminate"@.len());
    reveal_strlit("test");
    assert("test"@.len() != "action.terminate"@.len());
    reveal_strlit("set_password");
    assert("set_password"@.len() != "action.terminate"@.len());
    reveal_strlit("profile.get_field");
    assert("profile.get_field"@.len() != "action.terminate"@.len());
    reveal_strlit("profile.set_field");
    assert("profile.set_field"@.len() != "action.terminate"@.len());
    reveal_strlit("item.state");
    assert("item.state"@.len() != "action.terminate"@.len());
    reveal_strlit("state");
    assert("state"@.len() != "action.terminate"@.len());
    reveal_strlit("item.check_access");
    assert("item.check_access"@.len() != "action.terminate"@.len());
    reveal_strlit("check_item_access");
    assert("check_item_access"@.len() != "action.terminate"@.len());
    reveal_strlit("item.state_history");
    assert("item.state_history"@.len() != "action.terminate"@.len());
    reveal_strlit("state_history");
    assert("state_history"@.len() != "action.terminate"@.len());
    reveal_strlit("item.state_log");
    assert("item.state_log"@.len() != "action.terminate"@.len());
    reveal_strlit("state_log");
    assert("state_log"@.len() != "action.terminate"@.len());
    reveal_strlit("log.get");
    assert("log.get"@.len() != "action.terminate"@.len());
    reveal_strlit("log_get");
    assert("log_get"@.len() != "action.terminate"@.len());
    reveal_strlit("api_log.get");
    assert("api_log.get"@.len() != "action.terminate"@.len());
    reveal_strlit("action");
    assert("action"@.len() != "action.terminate"@.len());
    reveal_strlit("action.toggle");
    assert("action.toggle"@.len() != "action.terminate"@.len());
    reveal_strlit("action_toggle");
    assert("action_toggle"@.len() != "action.terminate"@.len());
    reveal_strlit("action.result");
    assert("action.result"@.len() != "action.terminate"@.len());
    reveal_strlit("result");
    assert("result"@.len() != "action.terminate"@.len());
    reveal_strlit("action.kill");
    assert("action.kill"@.len() != "action.terminate"@.len());
    reveal_strlit("kill");
    assert("kill"@.len() != "action.terminate"@.len());
}

proof fn lemma_method_terminate()
    ensures
        api_method_spec("terminate"@) == ApiMethod::ActionTerminate,
{
    reveal_strlit("terminate");
    reveal_strlit("call");
    assert("call"@.len() != "terminate"@.len());
    reveal_strlit("login");
    assert("login"@.len() != "terminate"@.len());
    reveal_strlit("logout");
    assert("logout"@.len() != "terminate"@.len());
    reveal_strlit("ehmi.get_config");
    assert("ehmi.get_config"@.len() != "terminate"@.len());
    reveal_strlit("test");
    assert("test"@.len() != "terminate"@.len());
    reveal_strlit("set_password");
    assert("set_password"@.len() != "terminate"@.len());
    reveal_strlit("profile.get_field");
    assert("profile.get_field"@.len() != "terminate"@.len());
    reveal_strlit("profile.set_field");
    assert("profile.set_field"@.len() != "terminate"@.len());
    reveal_strlit("item.state");
    assert("item.state"@.len() != "terminate"@.len());
    reveal_strlit("state");
    assert("state"@.len() != "terminate"@.len());
    reveal_strlit("item.check_access");
    assert("item.check_access"@.len() != "terminate"@.len());
    reveal_strlit("check_item_access");
    assert("check_item_access"@.len() != "terminate"@.len());
    reveal_strlit("item.state_history");
    assert("item.state_history"@.len() != "terminate"@.len());
    reveal_strlit("state_history");
    assert("state_history"@.len() != "terminate"@.len());
    reveal_strlit("item.state_log");
    assert("item.state_log"@.len() != "terminate"@.len());
    reveal_strlit("state_log");
    assert("state_log"@[0] != "terminate"@[0]);
    reveal_strlit("log.get");
    assert("log.get"@.len() != "terminate"@.len());
    reveal_strlit("log_get");
    assert("log_get"@.len() != "terminate"@.len());
    reveal_strlit("api_log.get");
    assert("api_log.get"@.len() != "terminate"@.len());
    reveal_strlit("action");
    assert("action"@.len() != "terminate"@.len());
    reveal_strlit("action.toggle");
    assert("action.toggle"@.len() != "terminate"@.len());
    reveal_strlit("action_toggle");
    assert("action_toggle"@.len() != "terminate"@.len());
    reveal_strlit("action.result");
    assert("action.result"@.len() != "terminate"@.len());
    reveal_strlit("result");
    assert("result"@.len() != "terminate"@.len());
    reveal_strlit("action.kill");
    assert("action.kill"@.len() != "terminate"@.len());
    reveal_strlit("kill");
    assert("kill"@.len() != "terminate"@.len());
    reveal_strlit("action.terminate");
    assert("action.terminate"@.len() != "terminate"@.len());
}

proof fn lemma_method_run()
    ensures
        api_method_spec("run"@) == ApiMethod::Run,
{
    reveal_strlit("run");
    reveal_strlit("call");
    assert("call"@.len() != "run"@.len());
    reveal_strlit("login");
    assert("login"@.len() != "run"@.len());
    reveal_strlit("logout");
    assert("logout"@.len() != "run"@.len());
    reveal_strlit("ehmi.get_config");
    assert("ehmi.get_config"@.len() != "run"@.len());
    reveal_strlit("test");
    assert("test"@.len() != "run"@.len());
    reveal_strlit("set_password");
    assert("set_password"@.len() != "run"@.len());
    reveal_strlit("profile.get_field");
    assert("profile.get_field"@.len() != "run"@.len());
    reveal_strlit("profile.set_field");
    assert("profile.set_field"@.len() != "run"@.len());
    reveal_strlit("item.state");
    assert("item.state"@.len() != "run"@.len());
    reveal_strlit("state");
    assert("state"@.len() != "run"@.len());
    reveal_strlit("item.check_access");
    assert("item.check_access"@.len() != "run"@.len());
    reveal_strlit("check_item_access");
    assert("check_item_access"@.len() != "run"@.len());
    reveal_strlit("item.state_history");
    assert("item.state_history"@.len() != "run"@.len());
    reveal_strlit("state_history");
    assert("state_history"@.len() != "run"@.len());
    reveal_strlit("item.state_log");
    assert("item.state_log"@.len() != "run"@.len());
    reveal_strlit("state_log");
    assert("state_log"@.len() != "run"@.len());
    reveal_strlit("log.get");
    assert("log.get"@.len() != "run"@.len());
    reveal_strlit("log_get");
    assert("log_get"@.len() != "run"@.len());
    reveal_strlit("api_log.get");
    assert("api_log.get"@.len() != "run"@.len());
    reveal_strlit("action");
    assert("action"@.len() != "run"@.len());
    reveal_strlit("action.toggle");
    assert("action.toggle"@.len() != "run"@.len());
    reveal_strlit("action_toggle");
    assert("action_toggle"@.len() != "run"@.len());
    reveal_strlit("action.result");
    assert("action.result"@.len() != "run"@.len());
    reveal_strlit("result");
    assert("result"@.len() != "run"@.len());
    reveal_strlit("action.kill");
    assert("action.kill"@.len() != "run"@.len());
    reveal_strlit("kill");
    assert("kill"@.len() != "run"@.len());
    reveal_strlit("action.terminate");
    assert("action.terminate"@.len() != "run"@.len());
    reveal_strlit("terminate");
    assert("terminate"@.len() != "run"@.len());
}

proof fn lemma_method_lvar_dot_set()
    ensures
        api_method_spec("lvar.set"@) == ApiMethod::LvarSet,
{
    reveal_strlit("lvar.set");
    reveal_strlit("call");
    assert("call"@.len() != "lvar.set"@.len());
    reveal_strlit("login");
    assert("login"@.len() != "lvar.set"@.len());
    reveal_strlit("logout");
    assert("logout"@.len() != "lvar.set"@.len());
    reveal_strlit("ehmi.get_config");
    assert("ehmi.get_config"@.len() != "lvar.set"@.len());
    reveal_strlit("test");
    assert("test"@.len() != "lvar.set"@.len());
    reveal_strlit("set_password");
    assert("set_password"@.len() != "lvar.set"@.len());
    reveal_strlit("profile.get_field");
    assert("profile.get_field"@.len() != "lvar.set"@.len());
    reveal_strlit("profile.set_field");
    assert("profile.set_field"@.len() != "lvar.set"@.len());
    reveal_strlit("item.state");
    assert("item.state"@.len() != "lvar.set"@.len());
    reveal_strlit("state");
    assert("state"@.len() != "lvar.set"@.len());
    reveal_strlit("item.check_access");
    assert("item.check_access"@.len() != "lvar.set"@.len());
    reveal_strlit("check_item_access");
    assert("check_item_access"@.len() != "lvar.set"@.len());
    reveal_strlit("item.state_history");
    assert("item.state_history"@.len() != "lvar.set"@.len());
    reveal_strlit("state_history");
    assert("state_history"@.len() != "lvar.set"@.len());
    reveal_strlit("item.state_log");
    assert("item.state_log"@.len() != "lvar.set"@.len());
    reveal_strlit("state_log");
    assert("state_log"@.len() != "lvar.set"@.len());
    reveal_strlit("log.get");
    assert("log.get"@.len() != "lvar.set"@.len());
    reveal_strlit("log_get");
    assert("log_get"@.len() != "lvar.set"@.len());
    reveal_strlit("api_log.get");
    assert("api_log.get"@.len() != "lvar.set"@.len());
    reveal_strlit("action");
    assert("action"@.len() != "lvar.set"@.len());
    reveal_strlit("action.toggle");
    assert("action.toggle"@.len() != "lvar.set"@.len());
    reveal_strlit("action_toggle");
    assert("action_toggle"@.len() != "lvar.set"@.len());
    reveal_strlit("action.result");
    assert("action.result"@.len() != "lvar.set"@.len());
    reveal_strlit("result");
    assert("result"@.len() != "lvar.set"@.len());
    reveal_strlit("action.kill");
    assert("action.kill"@.len() != "lvar.set"@.len());
    reveal_strlit("kill");
    assert("kill"@.len() != "lvar.set"@.len());
    reveal_strlit("action.terminate");
    assert("action.terminate"@.len() != "lvar.set"@.len());
    reveal_strlit("terminate");
    assert("terminate"@.len() != "lvar.set"@.len());
    reveal_strlit("run");
    assert("run"@.len() != "lvar.set"@.len());
}

proof fn lemma_method_set()
    ensures
        api_method_spec("set"@) == ApiMethod::LvarSet,
{
    reveal_strlit("set");
    reveal_strlit("call");
    assert("call"@.len() != "set"@.len());
    reveal_strlit("login");
    assert("login"@.len() != "set"@.len());
    reveal_strlit("logout");
    assert("logout"@.len() != "set"@.len());
    reveal_strlit("ehmi.get_config");
    assert("ehmi.get_config"@.len() != "set"@.len());
    reveal_strlit("test");
    assert("test"@.len() != "set"@.len());
    reveal_strlit("set_password");
    assert("set_password"@.len() != "set"@.len());
    reveal_strlit("profile.get_field");
    assert("profile.get_field"@.len() != "set"@.len());
    reveal_strlit("profile.set_field");
    assert("profile.set_field"@.len() != "set"@.len());
    reveal_strlit("item.state");
    assert("item.state"@.len() != "set"@.len());
    reveal_strlit("state");
    assert("state"@.len() != "set"@.len());
    reveal_strlit("item.check_access");
    assert("item.check_access"@.len() != "set"@.len());
    reveal_strlit("check_item_access");
    assert("check_item_access"@.len() != "set"@.len());
    reveal_strlit("item.state_history");
    assert("item.state_history"@.len() != "set"@.len());
    reveal_strlit("state_history");
    assert("state_history"@.len() != "set"@.len());
    reveal_strlit("item.state_log");
    assert("item.state_log"@.len() != "set"@.len());
    reveal_strlit("state_log");
    assert("state_log"@.len() != "set"@.len());
    reveal_strlit("log.get");
    assert("log.get"@.len() != "set"@.len());
    reveal_strlit("log_get");
    assert("log_get"@.len() != "set"@.len());
    reveal_strlit("api_log.get");
    assert("api_log.get"@.len() != "set"@.len());
    reveal_strlit("action");
    assert("action"@.len() != "set"@.len());
    reveal_strlit("action.toggle");
    assert("action.toggle"@.len() != "set"@.len());
    reveal_strlit("action_toggle");
    assert("action_toggle"@.len() != "set"@.len());
    reveal_strlit("action.result");
    assert("action.result"@.len() != "set"@.len());
    reveal_strlit("result");
    assert("result"@.len() != "set"@.len());
    reveal_strlit("action.kill");
    assert("action.kill"@.len() != "set"@.len());
    reveal_strlit("kill");
    assert("kill"@.len() != "set"@.len());
    reveal_strlit("action.terminate");
    assert("action.terminate"@.len() != "set"@.len());
    reveal_strlit("terminate");
    assert("terminate"@.len() != "set"@.len());
    reveal_strlit("run");
    assert("run"@[0] != "set"@[0]);
    reveal_strlit("lvar.set");
    assert("lvar.set"@.len() != "set"@.len());
}

proof fn lemma_method_lvar_dot_reset()
    ensures
        api_method_spec("lvar.reset"@) == ApiMethod::LvarReset,
{
    reveal_strlit("lvar.reset");
    reveal_strlit("call");
    assert("call"@.len() != "lvar.reset"@.len());
    reveal_strlit("login");
    assert("login"@.len() != "lvar.reset"@.len());
    reveal_strlit("logout");
    assert("logout"@.len() != "lvar.reset"@.len());
    reveal_strlit("ehmi.get_config");
    assert("ehmi.get_config"@.len() != "lvar.reset"@.len());
    reveal_strlit("test");
    assert("test"@.len() != "lvar.reset"@.len());
    reveal_strlit("set_password");
    assert("set_password"@.len() != "lvar.reset"@.len());
    reveal_strlit("profile.get_field");
    assert("profile.get_field"@.len() != "lvar.reset"@.len());
    reveal_strlit("profile.set_field");
    assert("profile.set_field"@.len() != "lvar.reset"@.len());
    reveal_strlit("item.state");
    assert("item.state"@[0] != "lvar.reset"@[0]);
    reveal_strlit("state");
    assert("state"@.len() != "lvar.reset"@.len());
    reveal_strlit("item.check_access");
    assert("item.check_access"@.len() != "lvar.reset"@.len());
    reveal_strlit("check_item_access");
    assert("check_item_access"@.len() != "lvar.reset"@.len());
    reveal_strlit("item.state_history");
    assert("item.state_history"@.len() != "lvar.reset"@.len());
    reveal_strlit("state_history");
    assert("state_history"@.len() != "lvar.reset"@.len());
    reveal_strlit("item.state_log");
    assert("item.state_log"@.len() != "lvar.reset"@.len());
    reveal_strlit("state_log");
    assert("state_log"@.len() != "lvar.reset"@.len());
    reveal_strlit("log.get");
    assert("log.get"@.len() != "lvar.reset"@.len());
    reveal_strlit("log_get");
    assert("log_get"@.len() != "lvar.reset"@.len());
    reveal_strlit("api_log.get");
    assert("api_log.get"@.len() != "lvar.reset"@.len());
    reveal_strlit("action");
    assert("action"@.len() != "lvar.reset"@.len());
    reveal_strlit("action.toggle");
    assert("action.toggle"@.len() != "lvar.reset"@.len());
    reveal_strlit("action_toggle");
    assert("action_toggle"@.len() != "lvar.reset"@.len());
    reveal_strlit("action.result");
    assert("action.result"@.len() != "lvar.reset"@.len());
    reveal_strlit("result");
    assert("result"@.len() != "lvar.reset"@.len());
    reveal_strlit("action.kill");
    assert("action.kill"@.len() != "lvar.reset"@.len());
    reveal_strlit("kill");
    assert("kill"@.len() != "lvar.reset"@.len());
    reveal_strlit("action.terminate");
    assert("action.terminate"@.len() != "lvar.reset"@.len());
    reveal_strlit("terminate");
    assert("terminate"@.len() != "lvar.reset"@.len());
    reveal_strlit("run");
    assert("run"@.len() != "lvar.reset"@.len());
    reveal_strlit("lvar.set");
    assert("lvar.set"@.len() != "lvar.reset"@.len());
    reveal_strlit("set");
    assert("set"@.len() != "lvar.reset"@.len());
}

proof fn lemma_method_reset()
    ensures
        api_method_spec("reset"@) == ApiMethod::LvarReset,
{
    reveal_strlit("reset");
    reveal_strlit("call");
    assert("call"@.len() != "reset"@.len());
    reveal_strlit("login");
    assert("login"@[0] != "reset"@[0]);
    reveal_strlit("logout");
    assert("logout"@.len() != "reset"@.len());
    reveal_strlit("ehmi.get_config");
    assert("ehmi.get_config"@.len() != "reset"@.len());
    reveal_strlit("test");
    assert("test"@.len() != "reset"@.len());
    reveal_strlit("set_password");
    assert("set_password"@.len() != "reset"@.len());
    reveal_strlit("profile.get_field");
    assert("profile.get_field"@.len() != "reset"@.len());
    reveal_strlit("profile.set_field");
    assert("profile.set_field"@.len() != "reset"@.len());
    reveal_strlit("item.state");
    assert("item.state"@.len() != "reset"@.len());
    reveal_strlit("state");
    assert("state"@[0] != "reset"@[0]);
    reveal_strlit("item.check_access");
    assert("item.check_access"@.len() != "reset"@.len());
    reveal_strlit("check_item_access");
    assert("check_item_access"@.len() != "reset"@.len());
    reveal_strlit("item.state_history");
    assert("item.state_history"@.len() != "reset"@.len());
    reveal_strlit("state_history");
    assert("state_history"@.len() != "reset"@.len());
    reveal_strlit("item.state_log");
    assert("item.state_log"@.len() != "reset"@.len());
    reveal_strlit("state_log");
    assert("state_log"@.len() != "reset"@.len());
    reveal_strlit("log.get");
    assert("log.get"@.len() != "reset"@.len());
    reveal_strlit("log_get");
    assert("log_get"@.len() != "reset"@.len());
    reveal_strlit("api_log.get");
    assert("api_log.get"@.len() != "reset"@.len());
    reveal_strlit("action");
    assert("action"@.len() != "reset"@.len());
    reveal_strlit("action.toggle");
    assert("action.toggle"@.len() != "reset"@.len());
    reveal_strlit("action_toggle");
    assert("action_toggle"@.len() != "reset"@.len());
    reveal_strlit("action.result");
    assert("action.result"@.len() != "reset"@.len());
    reveal_strlit("result");
    assert("result"@.len() != "reset"@.len());
    reveal_strlit("action.kill");
    assert("action.kill"@.len() != "reset"@.len());
    reveal_strlit("kill");
    assert("kill"@.len() != "reset"@.len());
    reveal_strlit("action.terminate");
    assert("action.terminate"@.len() != "reset"@.len());
    reveal_strlit("terminate");
    assert("terminate"@.len() != "reset"@.len());
    reveal_strlit("run");
    assert("run"@.len() != "reset"@.len());
    reveal_strlit("lvar.set");
    assert("lvar.set"@.len() != "reset"@.len());
    reveal_strlit("set");
    assert("set"@.len() != "reset"@.len());
    reveal_strlit("lvar.reset");
    assert("lvar.reset"@.len() != "reset"@.len());
}

proof fn lemma_method_lvar_dot_clear()
    ensures
        api_method_spec("lvar.clear"@) == ApiMethod::LvarClear,
{
    reveal_strlit("lvar.clear");
    reveal_strlit("call");
    assert("call"@.len() != "lvar.clear"@.len());
    reveal_strlit("login");
    assert("login"@.len() != "lvar.clear"@.len());
    reveal_strlit("logout");
    assert("logout"@.len() != "lvar.clear"@.len());
    reveal_strlit("ehmi.get_config");
    assert("ehmi.get_config"@.len() != "lvar.clear"@.len());
    reveal_strlit("test");
    assert("test"@.len() != "lvar.clear"@.len());
    reveal_strlit("set_password");
    assert("set_password"@.len() != "lvar.clear"@.len());
    reveal_strlit("profile.get_field");
    assert("profile.get_field"@.len() != "lvar.clear"@.len());
    reveal_strlit("profile.set_field");
    assert("profile.set_field"@.len() != "lvar.clear"@.len());
    reveal_strlit("item.state");
    assert("item.state"@[0] != "lvar.clear"@[0]);
    reveal_strlit("state");
    assert("state"@.len() != "lvar.clear"@.len());
    reveal_strlit("item.check_access");
    assert("item.check_access"@.len() != "lvar.clear"@.len());
    reveal_strlit("check_item_access");
    assert("check_item_access"@.len() != "lvar.clear"@.len());
    reveal_strlit("item.state_history");
    assert("item.state_history"@.len() != "lvar.clear"@.len());
    reveal_strlit("state_history");
    assert("state_history"@.len() != "lvar.clear"@.len());
    reveal_strlit("item.state_log");
    assert("item.state_log"@.len() != "lvar.clear"@.len());
    reveal_strlit("state_log");
    assert("state_log"@.len() != "lvar.clear"@.len());
    reveal_strlit("log.get");
    assert("log.get"@.len() != "lvar.clear"@.len());
    reveal_strlit("log_get");
    assert("log_get"@.len() != "lvar.clear"@.len());
    reveal_strlit("api_log.get");
    assert("api_log.get"@.len() != "lvar.clear"@.len());
    reveal_strlit("action");
    assert("action"@.len() != "lvar.clear"@.len());
    reveal_strlit("action.toggle");
    assert("action.toggle"@.len() != "lvar.clear"@.len());
    reveal_strlit("action_toggle");
    assert("action_toggle"@.len() != "lvar.clear"@.len());
    reveal_strlit("action.result");
    assert("action.result"@.len() != "lvar.clear"@.len());
    reveal_strlit("result");
    assert("result"@.len() != "lvar.clear"@.len());
    reveal_strlit("action.kill");
    assert("action.kill"@.len() != "lvar.clear"@.len());
    reveal_strlit("kill");
    assert("kill"@.len() != "lvar.clear"@.len());
    reveal_strlit("action.terminate");
    assert("action.terminate"@.len() != "lvar.clear"@.len());
    reveal_strlit("terminate");
    assert("terminate"@.len() != "lvar.clear"@.len());
    reveal_strlit("run");
    assert("run"@.len() != "lvar.clear"@.len());
    reveal_strlit("lvar.set");
    assert("lvar.set"@.len() != "lvar.clear"@.len());
    reveal_strlit("set");
    assert("set"@.len() != "lvar.clear"@.len());
    reveal_strlit("lvar.reset");
    assert("lvar.reset"@[5] != "lvar.clear"@[5]);
    reveal_strlit("reset");
    assert("reset"@.len() != "lvar.clear"@.len());
}

proof fn lemma_method_clear()
    ensures
        api_method_spec("clear"@) == ApiMethod::LvarClear,
{
    reveal_strlit("clear");
    reveal_strlit("call");
    assert("call"@.len() != "clear"@.len());
    reveal_strlit("login");
    assert("login"@[0] != "clear"@[0]);
    reveal_strlit("logout");
    assert("logout"@.len() != "clear"@.len());
    reveal_strlit("ehmi.get_config");
    assert("ehmi.get_config"@.len() != "clear"@.len());
    reveal_strlit("test");
    assert("test"@.len() != "clear"@.len());
    reveal_strlit("set_password");
    assert("set_password"@.len() != "clear"@.len());
    reveal_strlit("profile.get_field");
    assert("profile.get_field"@.len() != "clear"@.len());
    reveal_strlit("profile.set_field");
    assert("profile.set_field"@.len() != "clear"@.len());
    reveal_strlit("item.state");
    assert("item.state"@.len() != "clear"@.len());
    reveal_strlit("state");
    assert("state"@[0] != "clear"@[0]);
    reveal_strlit("item.check_access");
    assert("item.check_access"@.len() != "clear"@.len());
    reveal_strlit("check_item_access");
    assert("check_item_access"@.len() != "clear"@.len());
    reveal_strlit("item.state_history");
    assert("item.state_history"@.len() != "clear"@.len());
    reveal_strlit("state_history");
    assert("state_history"@.len() != "clear"@.len());
    reveal_strlit("item.state_log");
    assert("item.state_log"@.len() != "clear"@.len());
    reveal_strlit("state_log");
    assert("state_log"@.len() != "clear"@.len());
    reveal_strlit("log.get");
    assert("log.get"@.len() != "clear"@.len());
    reveal_strlit("log_get");
    assert("log_get"@.len() != "clear"@.len());
    reveal_strlit("api_log.get");
    assert("api_log.get"@.len() != "clear"@.len());
    reveal_strlit("action");
    assert("action"@.len() != "clear"@.len());
    reveal_strlit("action.toggle");
    assert("action.toggle"@.len() != "clear"@.len());
    reveal_strlit("action_toggle");
    assert("action_toggle"@.len() != "clear"@.len());
    reveal_strlit("action.result");
    assert("action.result"@.len() != "clear"@.len());
    reveal_strlit("result");
    assert("result"@.len() != "clear"@.len());
    reveal_strlit("action.kill");
    assert("action.kill"@.len() != "clear"@.len());
    reveal_strlit("kill");
    assert("kill"@.len() != "clear"@.len());
    reveal_strlit("action.terminate");
    assert("action.terminate"@.len() != "clear"@.len());
    reveal_strlit("terminate");
    assert("terminate"@.len() != "clear"@.len());
    reveal_strlit("run");
    assert("run"@.len() != "clear"@.len());
    reveal_strlit("lvar.set");
    assert("lvar.set"@.len() != "clear"@.len());
    reveal_strlit("set");
    assert("set"@.len() != "clear"@.len());
    reveal_strlit("lvar.reset");
    assert("lvar.reset"@.len() != "clear"@.len());
    reveal_strlit("reset");
    assert("reset"@[0] != "clear"@[0]);
    reveal_strlit("lvar.clear");
    assert("lvar.clear"@.len() != "clear"@.len());
}

proof fn lemma_method_lvar_dot_toggle()
    ensures
        api_method_spec("lvar.toggle"@) == ApiMethod::LvarToggle,
{
    reveal_strlit("lvar.toggle");
    reveal_strlit("call");
    assert("call"@.len() != "lvar.toggle"@.len());
    reveal_strlit("login");
    assert("login"@.len() != "lvar.toggle"@.len());
    reveal_strlit("logout");
    assert("logout"@.len() != "lvar.toggle"@.len());
    reveal_strlit("ehmi.get_config");
    assert("ehmi.get_config"@.len() != "lvar.toggle"@.len());
    reveal_strlit("test");
    assert("test"@.len() != "lvar.toggle"@.len());
    reveal_strlit("set_password");
    assert("set_password"@.len() != "lvar.toggle"@.len());
    reveal_strlit("profile.get_field");
    assert("profile.get_field"@.len() != "lvar.toggle"@.len());
    reveal_strlit("profile.set_field");
    assert("profile.set_field"@.len() != "lvar.toggle"@.len());
    reveal_strlit("item.state");
    assert("item.state"@.len() != "lvar.toggle"@.len());
    reveal_strlit("state");
    assert("state"@.len() != "lvar.toggle"@.len());
    reveal_strlit("item.check_access");
    assert("item.check_access"@.len() != "lvar.toggle"@.len());
    reveal_strlit("check_item_access");
    assert("check_item_access"@.len() != "lvar.toggle"@.len());
    reveal_strlit("item.state_history");
    assert("item.state_history"@.len() != "lvar.toggle"@.len());
    reveal_strlit("state_history");
    assert("state_history"@.len() != "lvar.toggle"@.len());
    reveal_strlit("item.state_log");
    assert("item.state_log"@.len() != "lvar.toggle"@.len());
    reveal_strlit("state_log");
    assert("state_log"@.len() != "lvar.toggle"@.len());
    reveal_strlit("log.get");
    assert("log.get"@.len() != "lvar.toggle"@.len());
    reveal_strlit("log_get");
    assert("log_get"@.len() != "lvar.toggle"@.len());
    reveal_strlit("api_log.get");
    assert("api_log.get"@[0] != "lvar.toggle"@[0]);
    reveal_strlit("action");
    assert("action"@.len() != "lvar.toggle"@.len());
    reveal_strlit("action.toggle");
    assert("action.toggle"@.len() != "lvar.toggle"@.len());
    reveal_strlit("action_toggle");
    assert("action_toggle"@.len() != "lvar.toggle"@.len());
    reveal_strlit("action.result");
    assert("action.result"@.len() != "lvar.toggle"@.len());
    reveal_strlit("result");
    assert("result"@.len() != "lvar.toggle"@.len());
    reveal_strlit("action.kill");
    assert("action.kill"@[0] != "lvar.toggle"@[0]);
    reveal_strlit("kill");
    assert("kill"@.len() != "lvar.toggle"@.len());
    reveal_strlit("action.terminate");
    assert("action.terminate"@.len() != "lvar.toggle"@.len());
    reveal_strlit("terminate");
    assert("terminate"@.len() != "lvar.toggle"@.len());
    reveal_strlit("run");
    assert("run"@.len() != "lvar.toggle"@.len());
    reveal_strlit("lvar.set");
    assert("lvar.set"@.len() != "lvar.toggle"@.len());
    reveal_strlit("set");
    assert("set"@.len() != "lvar.toggle"@.len());
    reveal_strlit("lvar.reset");
    assert("lvar.reset"@.len() != "lvar.toggle"@.len());
    reveal_strlit("reset");
    assert("reset"@.len() != "lvar.toggle"@.len());
    reveal_strlit("lvar.clear");
    assert("lvar.clear"@.len() != "lvar.toggle"@.len());
    reveal_strlit("clear");
    assert("clear"@.len() != "lvar.toggle"@.len());
}

proof fn lemma_method_toggle()
    ensures
        api_method_spec("toggle"@) == ApiMethod::LvarToggle,
{
    reveal_strlit("toggle");
    reveal_strlit("call");
    assert("call"@.len() != "toggle"@.len());
    reveal_strlit("login");
    assert("login"@.len() != "toggle"@.len());
    reveal_strlit("logout");
    assert("logout"@[0] != "toggle"@[0]);
    reveal_strlit("ehmi.get_config");
    assert("ehmi.get_config"@.len() != "toggle"@.len());
    reveal_strlit("test");
    assert("test"@.len() != "toggle"@.len());
    reveal_strlit("set_password");
    assert("set_password"@.len() != "toggle"@.len());
    reveal_strlit("profile.get_field");
    assert("profile.get_field"@.len() != "toggle"@.len());
    reveal_strlit("profile.set_field");
    assert("profile.set_field"@.len() != "toggle"@.len());
    reveal_strlit("item.state");
    assert("item.state"@.len() != "toggle"@.len());
    reveal_strlit("state");
    assert("state"@.len() != "toggle"@.len());
    reveal_strlit("item.check_access");
    assert("item.check_access"@.len() != "toggle"@.len());
    reveal_strlit("check_item_access");
    assert("check_item_access"@.len() != "toggle"@.len());
    reveal_strlit("item.state_history");
    assert("item.state_history"@.len() != "toggle"@.len());
    reveal_strlit("state_history");
    assert("state_history"@.len() != "toggle"@.len());
    reveal_strlit("item.state_log");
    assert("item.state_log"@.len() != "toggle"@.len());
    reveal_strlit("state_log");
    assert("state_log"@.len() != "toggle"@.len());
    reveal_strlit("log.get");
    assert("log.get"@.len() != "toggle"@.len());
    reveal_strlit("log_get");
    assert("log_get"@.len() != "toggle"@.len());
    reveal_strlit("api_log.get");
    assert("api_log.get"@.len() != "toggle"@.len());
    reveal_strlit("action");
    assert("action"@[0] != "toggle"@[0]);
    reveal_strlit("action.toggle");
    assert("action.toggle"@.len() != "toggle"@.len());
    reveal_strlit("action_toggle");
    assert("action_toggle"@.len() != "toggle"@.len());
    reveal_strlit("action.result");
    assert("action.result"@.len() != "toggle"@.len());
    reveal_strlit("result");
    assert("result"@[0] != "toggle"@[0]);
    reveal_strlit("action.kill");
    assert("action.kill"@.len() != "toggle"@.len());
    reveal_strlit("kill");
    assert("kill"@.len() != "toggle"@.len());
    reveal_strlit("action.terminate");
    assert("action.terminate"@.len() != "toggle"@.len());
    reveal_strlit("terminate");
    assert("terminate"@.len() != "toggle"@.len());
    reveal_strlit("run");
    assert("run"@.len() != "toggle"@.len());
    reveal_strlit("lvar.set");
    assert("lvar.set"@.len() != "toggle"@.len());
    reveal_strlit("set");
    assert("set"@.len() != "toggle"@.len());
    reveal_strlit("lvar.reset");
    assert("lvar.reset"@.len() != "toggle"@.len());
    reveal_strlit("reset");
    assert("reset"@.len() != "toggle"@.len());
    reveal_strlit("lvar.clear");
    assert("lvar.clear"@.len() != "toggle"@.len());
    reveal_strlit("clear");
    assert("clear"@.len() != "toggle"@.len());
    reveal_strlit("lvar.toggle");
    assert("lvar.toggle"@.len() != "toggle"@.len());
}

proof fn lemma_method_lvar_dot_incr()
    ensures
        api_method_spec("lvar.incr"@) == ApiMethod::LvarIncr,
{
    reveal_strlit("lvar.incr");
    reveal_strlit("call");
    assert("call"@.len() != "lvar.incr"@.len());
    reveal_strlit("login");
    assert("login"@.len() != "lvar.incr"@.len());
    reveal_strlit("logout");
    assert("logout"@.len() != "lvar.incr"@.len());
    reveal_strlit("ehmi.get_config");
    assert("ehmi.get_config"@.len() != "lvar.incr"@.len());
    reveal_strlit("test");
    assert("test"@.len() != "lvar.incr"@.len());
    reveal_strlit("set_password");
    assert("set_password"@.len() != "lvar.incr"@.len());
    reveal_strlit("profile.get_field");
    assert("profile.get_field"@.len() != "lvar.incr"@.len());
    reveal_strlit("profile.set_field");
    assert("profile.set_field"@.len() != "lvar.incr"@.len());
    reveal_strlit("item.state");
    assert("item.state"@.len() != "lvar.incr"@.len());
    reveal_strlit("state");
    assert("state"@.len() != "lvar.incr"@.len());
    reveal_strlit("item.check_access");
    assert("item.check_access"@.len() != "lvar.incr"@.len());
    reveal_strlit("check_item_access");
    assert("check_item_access"@.len() != "lvar.incr"@.len());
    reveal_strlit("item.state_history");
    assert("item.state_history"@.len() != "lvar.incr"@.len());
    reveal_strlit("state_history");
    assert("state_history"@.len() != "lvar.incr"@.len());
    reveal_strlit("item.state_log");
    assert("item.state_log"@.len() != "lvar.incr"@.len());
    reveal_strlit("state_log");
    assert("state_log"@[0] != "lvar.incr"@[0]);
    reveal_strlit("log.get");
    assert("log.get"@.len() != "lvar.incr"@.len());
    reveal_strlit("log_get");
    assert("log_get"@.len() != "lvar.incr"@.len());
    reveal_strlit("api_log.get");
    assert("api_log.get"@.len() != "lvar.incr"@.len());
    reveal_strlit("action");
    assert("action"@.len() != "lvar.incr"@.len());
    reveal_strlit("action.toggle");
    assert("action.toggle"@.len() != "lvar.incr"@.len());
    reveal_strlit("action_toggle");
    assert("action_toggle"@.len() != "lvar.incr"@.len());
    reveal_strlit("action.result");
    assert("action.result"@.len() != "lvar.incr"@.len());
    reveal_strlit("result");
    assert("result"@.len() != "lvar.incr"@.len());
    reveal_strlit("action.kill");
    assert("action.kill"@.len() != "lvar.incr"@.len());
    reveal_strlit("kill");
    assert("kill"@.len() != "lvar.incr"@.len());
    reveal_strlit("action.terminate");
    assert("action.terminate"@.len() != "lvar.incr"@.len());
    reveal_strlit("terminate");
    assert("terminate"@[0] != "lvar.incr"@[0]);
    reveal_strlit("run");
    assert("run"@.len() != "lvar.incr"@.len());
    reveal_strlit("lvar.set");
    assert("lvar.set"@.len() != "lvar.incr"@.len());
    reveal_strlit("set");
    assert("set"@.len() != "lvar.incr"@.len());
    reveal_strlit("lvar.reset");
    assert("lvar.reset"@.len() != "lvar.incr"@.len());
    reveal_strlit("reset");
    assert("reset"@.len() != "lvar.incr"@.len());
    reveal_strlit("lvar.clear");
    assert("lvar.clear"@.len() != "lvar.incr"@.len());
    reveal_strlit("clear");
    assert("clear"@.len() != "lvar.incr"@.len());
    reveal_strlit("lvar.toggle");
    assert("lvar.toggle"@.len() != "lvar.incr"@.len());
    reveal_strlit("toggle");
    assert("toggle"@.len() != "lvar.incr"@.len());
}

proof fn lemma_method_increment()
    ensures
        api_method_spec("increment"@) == ApiMethod::LvarIncr,
{
    reveal_strlit("increment");
    reveal_strlit("call");
    assert("call"@.len() != "increment"@.len());
    reveal_strlit("login");
    assert("login"@.len() != "increment"@.len());
    reveal_strlit("logout");
    assert("logout"@.len() != "increment"@.len());
    reveal_strlit("ehmi.get_config");
    assert("ehmi.get_config"@.len() != "increment"@.len());
    reveal_strlit("test");
    assert("test"@.len() != "increment"@.len());
    reveal_strlit("set_password");
    assert("set_password"@.len() != "increment"@.len());
    reveal_strlit("profile.get_field");
    assert("profile.get_field"@.len() != "increment"@.len());
    reveal_strlit("profile.set_field");
    assert("profile.set_field"@.len() != "increment"@.len());
    reveal_strlit("item.state");
    assert("item.state"@.len() != "increment"@.len());
    reveal_strlit("state");
    assert("state"@.len() != "increment"@.len());
    reveal_strlit("item.check_access");
    assert("item.check_access"@.len() != "increment"@.len());
    reveal_strlit("check_item_access");
    assert("check_item_access"@.len() != "increment"@.len());
    reveal_strlit("item.state_history");
    assert("item.state_history"@.len() != "increment"@.len());
    reveal_strlit("state_history");
    assert("state_history"@.len() != "increment"@.len());
    reveal_strlit("item.state_log");
    assert("item.state_log"@.len() != "increment"@.len());
    reveal_strlit("state_log");
    assert("state_log"@[0] != "increment"@[0]);
    reveal_strlit("log.get");
    assert("log.get"@.len() != "increment"@.len());
    reveal_strlit("log_get");
    assert("log_get"@.len() != "increment"@.len());
    reveal_strlit("api_log.get");
    assert("api_log.get"@.len() != "increment"@.len());
    reveal_strlit("action");
    assert("action"@.len() != "increment"@.len());
    reveal_strlit("action.toggle");
    assert("action.toggle"@.len() != "increment"@.len());
    reveal_strlit("action_toggle");
    assert("action_toggle"@.len() != "increment"@.len());
    reveal_strlit("action.result");
    assert("action.result"@.len() != "increment"@.len());
    reveal_strlit("result");
    assert("result"@.len() != "increment"@.len());
    reveal_strlit("action.kill");
    assert("action.kill"@.len() != "increment"@.len());
    reveal_strlit("kill");
    assert("kill"@.len() != "increment"@.len());
    reveal_strlit("action.terminate");
    assert("action.terminate"@.len() != "increment"@.len());
    reveal_strlit("terminate");
    assert("terminate"@[0] != "increment"@[0]);
    reveal_strlit("run");
    assert("run"@.len() != "increment"@.len());
    reveal_strlit("lvar.set");
    assert("lvar.set"@.len() != "increment"@.len());
    reveal_strlit("set");
    assert("set"@.len() != "increment"@.len());
    reveal_strlit("lvar.reset");
    assert("lvar.reset"@.len() != "increment"@.len());
    reveal_strlit("reset");
    assert("reset"@.len() != "increment"@.len());
    reveal_strlit("lvar.clear");
    assert("lvar.clear"@.len() != "increment"@.len());
    reveal_strlit("clear");
    assert("clear"@.len() != "increment"@.len());
    reveal_strlit("lvar.toggle");
    assert("lvar.toggle"@.len() != "increment"@.len());
    reveal_strlit("toggle");
    assert("toggle"@.len() != "increment"@.len());
    reveal_strlit("lvar.incr");
    assert("lvar.incr"@[0] != "increment"@[0]);
}

proof fn lemma_method_lvar_dot_decr()
    ensures
        api_method_spec("lvar.decr"@) == ApiMethod::LvarDecr,
{
    reveal_strlit("lvar.decr");
    reveal_strlit("call");
    assert("call"@.len() != "lvar.decr"@.len());
    reveal_strlit("login");
    assert("login"@.len() != "lvar.decr"@.len());
    reveal_strlit("logout");
    assert("logout"@.len() != "lvar.decr"@.len());
    reveal_strlit("ehmi.get_config");
    assert("ehmi.get_config"@.len() != "lvar.decr"@.len());
    reveal_strlit("test");
    assert("test"@.len() != "lvar.decr"@.len());
    reveal_strlit("set_password");
    assert("set_password"@.len() != "lvar.decr"@.len());
    reveal_strlit("profile.get_field");
    assert("profile.get_field"@.len() != "lvar.decr"@.len());
    reveal_strlit("profile.set_field");
    assert("profile.set_field"@.len() != "lvar.decr"@.len());
    reveal_strlit("item.state");
    assert("item.state"@.len() != "lvar.decr"@.len());
    reveal_strlit("state");
    assert("state"@.len() != "lvar.decr"@.len());
    reveal_strlit("item.check_access");
    assert("item.check_access"@.len() != "lvar.decr"@.len());
    reveal_strlit("check_item_access");
    assert("check_item_access"@.len() != "lvar.decr"@.len());
    reveal_strlit("item.state_history");
    assert("item.state_history"@.len() != "lvar.decr"@.len());
    reveal_strlit("state_history");
    assert("state_history"@.len() != "lvar.decr"@.len());
    reveal_strlit("item.state_log");
    assert("item.state_log"@.len() != "lvar.decr"@.len());
    reveal_strlit("state_log");
    assert("state_log"@[0] != "lvar.decr"@[0]);
    reveal_strlit("log.get");
    assert("log.get"@.len() != "lvar.decr"@.len());
    reveal_strlit("log_get");
    assert("log_get"@.len() != "lvar.decr"@.len());
    reveal_strlit("api_log.get");
    assert("api_log.get"@.len() != "lvar.decr"@.len());
    reveal_strlit("action");
    assert("action"@.len() != "lvar.decr"@.len());
    reveal_strlit("action.toggle");
    assert("action.toggle"@.len() != "lvar.decr"@.len());
    reveal_strlit("action_toggle");
    assert("action_toggle"@.len() != "lvar.decr"@.len());
    reveal_strlit("action.result");
    assert("action.result"@.len() != "lvar.decr"@.len());
    reveal_strlit("result");
    assert("result"@.len() != "lvar.decr"@.len());
    reveal_strlit("action.kill");
    assert("action.kill"@.len() != "lvar.decr"@.len());
    reveal_strlit("kill");
    assert("kill"@.len() != "lvar.decr"@.len());
    reveal_strlit("action.terminate");
    assert("action.terminate"@.len() != "lvar.decr"@.len());
    reveal_strlit("terminate");
    assert("terminate"@[0] != "lvar.decr"@[0]);
    reveal_strlit("run");
    assert("run"@.len() != "lvar.decr"@.len());
    reveal_strlit("lvar.set");
    assert("lvar.set"@.len() != "lvar.decr"@.len());
    reveal_strlit("set");
    assert("set"@.len() != "lvar.decr"@.len());
    reveal_strlit("lvar.reset");
    assert("lvar.reset"@.len() != "lvar.decr"@.len());
    reveal_strlit("reset");
    assert("reset"@.len() != "lvar.decr"@.len());
    reveal_strlit("lvar.clear");
    assert("lvar.clear"@.len() != "lvar.decr"@.len());
    reveal_strlit("clear");
    assert("clear"@.len() != "lvar.decr"@.len());
    reveal_strlit("lvar.toggle");
    assert("lvar.toggle"@.len() != "lvar.decr"@.len());
    reveal_strlit("toggle");
    assert("toggle"@.len() != "lvar.decr"@.len());
    reveal_strlit("lvar.incr");
    assert("lvar.incr"@[5] != "lvar.decr"@[5]);
    reveal_strlit("increment");
    assert("increment"@[0] != "lvar.decr"@[0]);
}

proof fn lemma_method_decrement()
    ensures
        api_method_spec("decrement"@) == ApiMethod::LvarDecr,
{
    reveal_strlit("decrement");
    reveal_strlit("call");
    assert("call"@.len() != "decrement"@.len());
    reveal_strlit("login");
    assert("login"@.len() != "decrement"@.len());
    reveal_strlit("logout");
    assert("logout"@.len() != "decrement"@.len());
    reveal_strlit("ehmi.get_config");
    assert("ehmi.get_config"@.len() != "decrement"@.len());
    reveal_strlit("test");
    assert("test"@.len() != "decrement"@.len());
    reveal_strlit("set_password");
    assert("set_password"@.len() != "decrement"@.len());
    reveal_strlit("profile.get_field");
    assert("profile.get_field"@.len() != "decrement"@.len());
    reveal_strlit("profile.set_field");
    assert("profile.set_field"@.len() != "decrement"@.len());
    reveal_strlit("item.state");
    assert("item.state"@.len() != "decrement"@.len());
    reveal_strlit("state");
    assert("state"@.len() != "decrement"@.len());
    reveal_strlit("item.check_access");
    assert("item.check_access"@.len() != "decrement"@.len());
    reveal_strlit("check_item_access");
    assert("check_item_access"@.len() != "decrement"@.len());
    reveal_strlit("item.state_history");
    assert("item.state_history"@.len() != "decrement"@.len());
    reveal_strlit("state_history");
    assert("state_history"@.len() != "decrement"@.len());
    reveal_strlit("item.state_log");
    assert("item.state_log"@.len() != "decrement"@.len());
    reveal_strlit("state_log");
    assert("state_log"@[0] != "decrement"@[0]);
    reveal_strlit("log.get");
    assert("log.get"@.len() != "decrement"@.len());
    reveal_strlit("log_get");
    assert("log_get"@.len() != "decrement"@.len());
    reveal_strlit("api_log.get");
    assert("api_log.get"@.len() != "decrement"@.len());
    reveal_strlit("action");
    assert("action"@.len() != "decrement"@.len());
    reveal_strlit("action.toggle");
    assert("action.toggle"@.len() != "decrement"@.len());
    reveal_strlit("action_toggle");
    assert("action_toggle"@.len() != "decrement"@.len());
    reveal_strlit("action.result");
    assert("action.result"@.len() != "decrement"@.len());
    reveal_strlit("result");
    assert("result"@.len() != "decrement"@.len());
    reveal_strlit("action.kill");
    assert("action.kill"@.len() != "decrement"@.len());
    reveal_strlit("kill");
    assert("kill"@.len() != "decrement"@.len());
    reveal_strlit("action.terminate");
    assert("action.terminate"@.len() != "decrement"@.len());
    reveal_strlit("terminate");
    assert("terminate"@[0] != "decrement"@[0]);
    reveal_strlit("run");
    assert("run"@.len() != "decrement"@.len());
    reveal_strlit("lvar.set");
    assert("lvar.set"@.len() != "decrement"@.len());
    reveal_strlit("set");
    assert("set"@.len() != "decrement"@.len());
    reveal_strlit("lvar.reset");
    assert("lvar.reset"@.len() != "decrement"@.len());
    reveal_strlit("reset");
    assert("reset"@.len() != "decrement"@.len());
    reveal_strlit("lvar.clear");
    assert("lvar.clear"@.len() != "decrement"@.len());
    reveal_strlit("clear");
    assert("clear"@.len() != "decrement"@.len());
    reveal_strlit("lvar.toggle");
    assert("lvar.toggle"@.len() != "decrement"@.len());
    reveal_strlit("toggle");
    assert("toggle"@.len() != "decrement"@.len());
    reveal_strlit("lvar.incr");
    assert("lvar.incr"@[0] != "decrement"@[0]);
    reveal_strlit("increment");
    assert("increment"@[0] != "decrement"@[0]);
    reveal_strlit("lvar.decr");
    assert("lvar.decr"@[0] != "decrement"@[0]);
}

proof fn lemma_method_session_dot_list_neighbors()
    ensures
        api_method_spec("session.list_neighbors"@) == ApiMethod::SessionListNeighbors,
{
    reveal_strlit("session.list_neighbors");
    reveal_strlit("call");
    assert("call"@.len() != "session.list_neighbors"@.len());
    reveal_strlit("login");
    assert("login"@.len() != "session.list_neighbors"@.len());
    reveal_strlit("logout");
    assert("logout"@.len() != "session.list_neighbors"@.len());
    reveal_strlit("ehmi.get_config");
    assert("ehmi.get_config"@.len() != "session.list_neighbors"@.len());
    reveal_strlit("test");
    assert("test"@.len() != "session.list_neighbors"@.len());
    reveal_strlit("set_password");
    assert("set_password"@.len() != "session.list_neighbors"@.len());
    reveal_strlit("profile.get_field");
    assert("profile.get_field"@.len() != "session.list_neighbors"@.len());
    reveal_strlit("profile.set_field");
    assert("profile.set_field"@.len() != "session.list_neighbors"@.len());
    reveal_strlit("item.state");
    assert("item.state"@.len() != "session.list_neighbors"@.len());
    reveal_strlit("state");
    assert("state"@.len() != "session.list_neighbors"@.len());
    reveal_strlit("item.check_access");
    assert("item.check_access"@.len() != "session.list_neighbors"@.len());
    reveal_strlit("check_item_access");
    assert("check_item_access"@.len() != "session.list_neighbors"@.len());
    reveal_strlit("item.state_history");
    assert("item.state_history"@.len() != "session.list_neighbors"@.len());
    reveal_strlit("state_history");
    assert("state_history"@.len() != "session.list_neighbors"@.len());
    reveal_strlit("item.state_log");
    assert("item.state_log"@.len() != "session.list_neighbors"@.len());
    reveal_strlit("state_log");
    assert("state_log"@.len() != "session.list_neighbors"@.len());
    reveal_strlit("log.get");
    assert("log.get"@.len() != "session.list_neighbors"@.len());
    reveal_strlit("log_get");
    assert("log_get"@.len() != "session.list_neighbors"@.len());
    reveal_strlit("api_log.get");
    assert("api_log.get"@.len() != "session.list_neighbors"@.len());
    reveal_strlit("action");
    assert("action"@.len() != "session.list_neighbors"@.len());
    reveal_strlit("action.toggle");
    assert("action.toggle"@.len() != "session.list_neighbors"@.len());
    reveal_strlit("action_toggle");
    assert("action_toggle"@.len() != "session.list_neighbors"@.len());
    reveal_strlit("action.result");
    assert("action.result"@.len() != "session.list_neighbors"@.len());
    reveal_strlit("result");
    assert("result"@.len() != "session.list_neighbors"@.len());
    reveal_strlit("action.kill");
    assert("action.kill"@.len() != "session.list_neighbors"@.len());
    reveal_strlit("kill");
    assert("kill"@.len() != "session.list_neighbors"@.len());
    reveal_strlit("action.terminate");
    assert("action.terminate"@.len() != "session.list_neighbors"@.len());
    reveal_strlit("terminate");
    assert("terminate"@.len() != "session.list_neighbors"@.len());
    reveal_strlit("run");
    assert("run"@.len() != "session.list_neighbors"@.len());
    reveal_strlit("lvar.set");
    assert("lvar.set"@.len() != "session.list_neighbors"@.len());
    reveal_strlit("set");
    assert("set"@.len() != "session.list_neighbors"@.len());
    reveal_strlit("lvar.reset");
    assert("lvar.reset"@.len() != "session.list_neighbors"@.len());
    reveal_strlit("reset");
    assert("reset"@.len() != "session.list_neighbors"@.len());
    reveal_strlit("lvar.clear");
    assert("lvar.clear"@.len() != "session.list_neighbors"@.len());
    reveal_strlit("clear");
    assert("clear"@.len() != "session.list_neighbors"@.len());
    reveal_strlit("lvar.toggle");
    assert("lvar.toggle"@.len() != "session.list_neighbors"@.len());
    reveal_strlit("toggle");
    assert("toggle"@.len() != "session.list_neighbors"@.len());
    reveal_strlit("lvar.incr");
    assert("lvar.incr"@.len() != "session.list_neighbors"@.len());
    reveal_strlit("increment");
    assert("increment"@.len() != "session.list_neighbors"@.len());
    reveal_strlit("lvar.decr");
    assert("lvar.decr"@.len() != "session.list_neighbors"@.len());
    reveal_strlit("decrement");
    assert("decrement"@.len() != "session.list_neighbors"@.len());
}

proof fn lemma_method_get_neighbor_clients()
    ensures
        api_method_spec("get_neighbor_clients"@) == ApiMethod::SessionListNeighbors,
{
    reveal_strlit("get_neighbor_clients");
    reveal_strlit("call");
    assert("call"@.len() != "get_neighbor_clients"@.len());
    reveal_strlit("login");
    assert("login"@.len() != "get_neighbor_clients"@.len());
    reveal_strlit("logout");
    assert("logout"@.len() != "get_neighbor_clients"@.len());
    reveal_strlit("ehmi.get_config");
    assert("ehmi.get_config"@.len() != "get_neighbor_clients"@.len());
    reveal_strlit("test");
    assert("test"@.len() != "get_neighbor_clients"@.len());
    reveal_strlit("set_password");
    assert("set_password"@.len() != "get_neighbor_clients"@.len());
    reveal_strlit("profile.get_field");
    assert("profile.get_field"@.len() != "get_neighbor_clients"@.len());
    reveal_strlit("profile.set_field");
    assert("profile.set_field"@.len() != "get_neighbor_clients"@.len());
    reveal_strlit("item.state");
    assert("item.state"@.len() != "get_neighbor_clients"@.len());
    reveal_strlit("state");
    assert("state"@.len() != "get_neighbor_clients"@.len());
    reveal_strlit("item.check_access");
    assert("item.check_access"@.len() != "get_neighbor_clients"@.len());
    reveal_strlit("check_item_access");
    assert("check_item_access"@.len() != "get_neighbor_clients"@.len());
    reveal_strlit("item.state_history");
    assert("item.state_history"@.len() != "get_neighbor_clients"@.len());
    reveal_strlit("state_history");
    assert("state_history"@.len() != "get_neighbor_clients"@.len());
    reveal_strlit("item.state_log");
    assert("item.state_log"@.len() != "get_neighbor_clients"@.len());
    reveal_strlit("state_log");
    assert("state_log"@.len() != "get_neighbor_clients"@.len());
    reveal_strlit("log.get");
    assert("log.get"@.len() != "get_neighbor_clients"@.len());
    reveal_strlit("log_get");
    assert("log_get"@.len() != "get_neighbor_clients"@.len());
    reveal_strlit("api_log.get");
    assert("api_log.get"@.len() != "get_neighbor_clients"@.len());
    reveal_strlit("action");
    assert("action"@.len() != "get_neighbor_clients"@.len());
    reveal_strlit("action.toggle");
    assert("action.toggle"@.len() != "get_neighbor_clients"@.len());
    reveal_strlit("action_toggle");
    assert("action_toggle"@.len() != "get_neighbor_clients"@.len());
    reveal_strlit("action.result");
    assert("action.result"@.len() != "get_neighbor_clients"@.len());
    reveal_strlit("result");
    assert("result"@.len() != "get_neighbor_clients"@.len());
    reveal_strlit("action.kill");
    assert("action.kill"@.len() != "get_neighbor_clients"@.len());
    reveal_strlit("kill");
    assert("kill"@.len() != "get_neighbor_clients"@.len());
    reveal_strlit("action.terminate");
    assert("action.terminate"@.len() != "get_neighbor_clients"@.len());
    reveal_strlit("terminate");
    assert("terminate"@.len() != "get_neighbor_clients"@.len());
    reveal_strlit("run");
    assert("run"@.len() != "get_neighbor_clients"@.len());
    reveal_strlit("lvar.set");
    assert("lvar.set"@.len() != "get_neighbor_clients"@.len());
    reveal_strlit("set");
    assert("set"@.len() != "get_neighbor_clients"@.len());
    reveal_strlit("lvar.reset");
    assert("lvar.reset"@.len() != "get_neighbor_clients"@.len());
    reveal_strlit("reset");
    assert("reset"@.len() != "get_neighbor_clients"@.len());
    reveal_strlit("lvar.clear");
    assert("lvar.clear"@.len() != "get_neighbor_clients"@.len());
    reveal_strlit("clear");
    assert("clear"@.len() != "get_neighbor_clients"@.len());
    reveal_strlit("lvar.toggle");
    assert("lvar.toggle"@.len() != "get_neighbor_clients"@.len());
    reveal_strlit("toggle");
    assert("toggle"@.len() != "get_neighbor_clients"@.len());
    reveal_strlit("lvar.incr");
    assert("lvar.incr"@.len() != "get_neighbor_clients"@.len());
    reveal_strlit("increment");
    assert("increment"@.len() != "get_neighbor_clients"@.len());
    reveal_strlit("lvar.decr");
    assert("lvar.decr"@.len() != "get_neighbor_clients"@.len());
    reveal_strlit("decrement");
    assert("decrement"@.len() != "get_neighbor_clients"@.len());
    reveal_strlit("session.list_neighbors");
    assert("session.list_neighbors"@.len() != "get_neighbor_clients"@.len());
}

proof fn lemma_method_session_dot_set_readonly()
    ensures
        api_method_spec("session.set_readonly"@) == ApiMethod::SessionSetReadonly,
{
    reveal_strlit("session.set_readonly");
    reveal_strlit("call");
    assert("call"@.len() != "session.set_readonly"@.len());
    reveal_strlit("login");
    assert("login"@.len() != "session.set_readonly"@.len());
    reveal_strlit("logout");
    assert("logout"@.len() != "session.set_readonly"@.len());
    reveal_strlit("ehmi.get_config");
    assert("ehmi.get_config"@.len() != "session.set_readonly"@.len());
    reveal_strlit("test");
    assert("test"@.len() != "session.set_readonly"@.len());
    reveal_strlit("set_password");
    assert("set_password"@.len() != "session.set_readonly"@.len());
    reveal_strlit("profile.get_field");
    assert("profile.get_field"@.len() != "session.set_readonly"@.len());
    reveal_strlit("profile.set_field");
    assert("profile.set_field"@.len() != "session.set_readonly"@.len());
    reveal_strlit("item.state");
    assert("item.state"@.len() != "session.set_readonly"@.len());
    reveal_strlit("state");
    assert("state"@.len() != "session.set_readonly"@.len());
    reveal_strlit("item.check_access");
    assert("item.check_access"@.len() != "session.set_readonly"@.len());
    reveal_strlit("check_item_access");
    assert("check_item_access"@.len() != "session.set_readonly"@.len());
    reveal_strlit("item.state_history");
    assert("item.state_history"@.len() != "session.set_readonly"@.len());
    reveal_strlit("state_history");
    assert("state_history"@.len() != "session.set_readonly"@.len());
    reveal_strlit("item.state_log");
    assert("item.state_log"@.len() != "session.set_readonly"@.len());
    reveal_strlit("state_log");
    assert("state_log"@.len() != "session.set_readonly"@.len());
    reveal_strlit("log.get");
    assert("log.get"@.len() != "session.set_readonly"@.len());
    reveal_strlit("log_get");
    assert("log_get"@.len() != "session.set_readonly"@.len());
    reveal_strlit("api_log.get");
    assert("api_log.get"@.len() != "session.set_readonly"@.len());
    reveal_strlit("action");
    assert("action"@.len() != "session.set_readonly"@.len());
    reveal_strlit("action.toggle");
    assert("action.toggle"@.len() != "session.set_readonly"@.len());
    reveal_strlit("action_toggle");
    assert("action_toggle"@.len() != "session.set_readonly"@.len());
    reveal_strlit("action.result");
    assert("action.result"@.len() != "session.set_readonly"@.len());
    reveal_strlit("result");
    assert("result"@.len() != "session.set_readonly"@.len());
    reveal_strlit("action.kill");
    assert("action.kill"@.len() != "session.set_readonly"@.len());
    reveal_strlit("kill");
    assert("kill"@.len() != "session.set_readonly"@.len());
    reveal_strlit("action.terminate");
    assert("action.terminate"@.len() != "session.set_readonly"@.len());
    reveal_strlit("terminate");
    assert("terminate"@.len() != "session.set_readonly"@.len());
    reveal_strlit("run");
    assert("run"@.len() != "session.set_readonly"@.len());
    reveal_strlit("lvar.set");
    assert("lvar.set"@.len() != "session.set_readonly"@.len());
    reveal_strlit("set");
    assert("set"@.len() != "session.set_readonly"@.len());
    reveal_strlit("lvar.reset");
    assert("lvar.reset"@.len() != "session.set_readonly"@.len());
    reveal_strlit("reset");
    assert("reset"@.len() != "session.set_readonly"@.len());
    reveal_strlit("lvar.clear");
    assert("lvar.clear"@.len() != "session.set_readonly"@.len());
    reveal_strlit("clear");
    assert("clear"@.len() != "session.set_readonly"@.len());
    reveal_strlit("lvar.toggle");
    assert("lvar.toggle"@.len() != "session.set_readonly"@.len());
    reveal_strlit("toggle");
    assert("toggle"@.len() != "session.set_readonly"@.len());
    reveal_strlit("lvar.incr");
    assert("lvar.incr"@.len() != "session.set_readonly"@.len());
    reveal_strlit("increment");
    assert("increment"@.len() != "session.set_readonly"@.len());
    reveal_strlit("lvar.decr");
    assert("lvar.decr"@.len() != "session.set_readonly"@.len());
    reveal_strlit("decrement");
    assert("decrement"@.len() != "session.set_readonly"@.len());
    reveal_strlit("session.list_neighbors");
    assert("session.list_neighbors"@.len() != "session.set_readonly"@.len());
    reveal_strlit("get_neighbor_clients");
    assert("get_neighbor_clients"@[0] != "session.set_readonly"@[0]);
}

proof fn lemma_method_set_token_readonly()
    ensures
        api_method_spec("set_token_readonly"@) == ApiMethod::SessionSetReadonly,
{
    reveal_strlit("set_token_readonly");
    reveal_strlit("call");
    assert("call"@.len() != "set_token_readonly"@.len());
    reveal_strlit("login");
    assert("login"@.len() != "set_token_readonly"@.len());
    reveal_strlit("logout");
    assert("logout"@.len() != "set_token_readonly"@.len());
    reveal_strlit("ehmi.get_config");
    assert("ehmi.get_config"@.len() != "set_token_readonly"@.len());
    reveal_strlit("test");
    assert("test"@.len() != "set_token_readonly"@.len());
    reveal_strlit("set_password");
    assert("set_password"@.len() != "set_token_readonly"@.len());
    reveal_strlit("profile.get_field");
    assert("profile.get_field"@.len() != "set_token_readonly"@.len());
    reveal_strlit("profile.set_field");
    assert("profile.set_field"@.len() != "set_token_readonly"@.len());
    reveal_strlit("item.state");
    assert("item.state"@.len() != "set_token_readonly"@.len());
    reveal_strlit("state");
    assert("state"@.len() != "set_token_readonly"@.len());
    reveal_strlit("item.check_access");
    assert("item.check_access"@.len() != "set_token_readonly"@.len());
    reveal_strlit("check_item_access");
    assert("check_item_access"@.len() != "set_token_readonly"@.len());
    reveal_strlit("item.state_history");
    assert("item.state_history"@[0] != "set_token_readonly"@[0]);
    reveal_strlit("state_history");
    assert("state_history"@.len() != "set_token_readonly"@.len());
    reveal_strlit("item.state_log");
    assert("item.state_log"@.len() != "set_token_readonly"@.len());
    reveal_strlit("state_log");
    assert("state_log"@.len() != "set_token_readonly"@.len());
    reveal_strlit("log.get");
    assert("log.get"@.len() != "set_token_readonly"@.len());
    reveal_strlit("log_get");
    assert("log_get"@.len() != "set_token_readonly"@.len());
    reveal_strlit("api_log.get");
    assert("api_log.get"@.len() != "set_token_readonly"@.len());
    reveal_strlit("action");
    assert("action"@.len() != "set_token_readonly"@.len());
    reveal_strlit("action.toggle");
    assert("action.toggle"@.len() != "set_token_readonly"@.len());
    reveal_strlit("action_toggle");
    assert("action_toggle"@.len() != "set_token_readonly"@.len());
    reveal_strlit("action.result");
    assert("action.result"@.len() != "set_token_readonly"@.len());
    reveal_strlit("result");
    assert("result"@.len() != "set_token_readonly"@.len());
    reveal_strlit("action.kill");
    assert("action.kill"@.len() != "set_token_readonly"@.len());
    reveal_strlit("kill");
    assert("kill"@.len() != "set_token_readonly"@.len());
    reveal_strlit("action.terminate");
    assert("action.terminate"@.len() != "set_token_readonly"@.len());
    reveal_strlit("terminate");
    assert("terminate"@.len() != "set_token_readonly"@.len());
    reveal_strlit("run");
    assert("run"@.len() != "set_token_readonly"@.len());
    reveal_strlit("lvar.set");
    assert("lvar.set"@.len() != "set_token_readonly"@.len());
    reveal_strlit("set");
    assert("set"@.len() != "set_token_readonly"@.len());
    reveal_strlit("lvar.reset");
    assert("lvar.reset"@.len() != "set_token_readonly"@.len());
    reveal_strlit("reset");
    assert("reset"@.len() != "set_token_readonly"@.len());
    reveal_strlit("lvar.clear");
    assert("lvar.clear"@.len() != "set_token_readonly"@.len());
    reveal_strlit("clear");
    assert("clear"@.len() != "set_token_readonly"@.len());
    reveal_strlit("lvar.toggle");
    assert("lvar.toggle"@.len() != "set_token_readonly"@.len());
    reveal_strlit("toggle");
    assert("toggle"@.len() != "set_token_readonly"@.len());
    reveal_strlit("lvar.incr");
    assert("lvar.incr"@.len() != "set_token_readonly"@.len());
    reveal_strlit("increment");
    assert("increment"@.len() != "set_token_readonly"@.len());
    reveal_strlit("lvar.decr");
    assert("lvar.decr"@.len() != "set_token_readonly"@.len());
    reveal_strlit("decrement");
    assert("decrement"@.len() != "set_token_readonly"@.len());
    reveal_strlit("session.list_neighbors");
    assert("session.list_neighbors"@.len() != "set_token_readonly"@.len());
    reveal_strlit("get_neighbor_clients");
    assert("get_neighbor_clients"@.len() != "set_token_readonly"@.len());
    reveal_strlit("session.set_readonly");
    assert("session.set_readonly"@.len() != "set_token_readonly"@.len());
}

proof fn lemma_method_ehmi_dot_create_config()
    ensures
        api_method_spec("ehmi.create_config"@) == ApiMethod::EhmiCreateConfig,
{
    reveal_strlit("ehmi.create_config");
    reveal_strlit("call");
    assert("call"@.len() != "ehmi.create_config"@.len());
    reveal_strlit("login");
    assert("login"@.len() != "ehmi.create_config"@.len());
    reveal_strlit("logout");
    assert("logout"@.len() != "ehmi.create_config"@.len());
    reveal_strlit("ehmi.get_config");
    assert("ehmi.get_config"@.len() != "ehmi.create_config"@.len());
    reveal_strlit("test");
    assert("test"@.len() != "ehmi.create_config"@.len());
    reveal_strlit("set_password");
    assert("set_password"@.len() != "ehmi.create_config"@.len());
    reveal_strlit("profile.get_field");
    assert("profile.get_field"@.len() != "ehmi.create_config"@.len());
    reveal_strlit("profile.set_field");
    assert("profile.set_field"@.len() != "ehmi.create_config"@.len());
    reveal_strlit("item.state");
    assert("item.state"@.len() != "ehmi.create_config"@.len());
    reveal_strlit("state");
    assert("state"@.len() != "ehmi.create_config"@.len());
    reveal_strlit("item.check_access");
    assert("item.check_access"@.len() != "ehmi.create_config"@.len());
    reveal_strlit("check_item_access");
    assert("check_item_access"@.len() != "ehmi.create_config"@.len());
    reveal_strlit("item.state_history");
    assert("item.state_history"@[0] != "ehmi.create_config"@[0]);
    reveal_strlit("state_history");
    assert("state_history"@.len() != "ehmi.create_config"@.len());
    reveal_strlit("item.state_log");
    assert("item.state_log"@.len() != "ehmi.create_config"@.len());
    reveal_strlit("state_log");
    assert("state_log"@.len() != "ehmi.create_config"@.len());
    reveal_strlit("log.get");
    assert("log.get"@.len() != "ehmi.create_config"@.len());
    reveal_strlit("log_get");
    assert("log_get"@.len() != "ehmi.create_config"@.len());
    reveal_strlit("api_log.get");
    assert("api_log.get"@.len() != "ehmi.create_config"@.len());
    reveal_strlit("action");
    assert("action"@.len() != "ehmi.create_config"@.len());
    reveal_strlit("action.toggle");
    assert("action.toggle"@.len() != "ehmi.create_config"@.len());
    reveal_strlit("action_toggle");
    assert("action_toggle"@.len() != "ehmi.create_config"@.len());
    reveal_strlit("action.result");
    assert("action.result"@.len() != "ehmi.create_config"@.len());
    reveal_strlit("result");
    assert("result"@.len() != "ehmi.create_config"@.len());
    reveal_strlit("action.kill");
    assert("action.kill"@.len() != "ehmi.create_config"@.len());
    reveal_strlit("kill");
    assert("kill"@.len() != "ehmi.create_config"@.len());
    reveal_strlit("action.terminate");
    assert("action.terminate"@.len() != "ehmi.create_config"@.len());
    reveal_strlit("terminate");
    assert("terminate"@.len() != "ehmi.create_config"@.len());
    reveal_strlit("run");
    assert("run"@.len() != "ehmi.create_config"@.len());
    reveal_strlit("lvar.set");
    assert("lvar.set"@.len() != "ehmi.create_config"@.len());
    reveal_strlit("set");
    assert("set"@.len() != "ehmi.create_config"@.len());
    reveal_strlit("lvar.reset");
    assert("lvar.reset"@.len() != "ehmi.create_config"@.len());
    reveal_strlit("reset");
    assert("reset"@.len() != "ehmi.create_config"@.len());
    reveal_strlit("lvar.clear");
    assert("lvar.clear"@.len() != "ehmi.create_config"@.len());
    reveal_strlit("clear");
    assert("clear"@.len() != "ehmi.create_config"@.len());
    reveal_strlit("lvar.toggle");
    assert("lvar.toggle"@.len() != "ehmi.create_config"@.len());
    reveal_strlit("toggle");
    assert("toggle"@.len() != "ehmi.create_config"@.len());
    reveal_strlit("lvar.incr");
    assert("lvar.incr"@.len() != "ehmi.create_config"@.len());
    reveal_strlit("increment");
    assert("increment"@.len() != "ehmi.create_config"@.len());
    reveal_strlit("lvar.decr");
    assert("lvar.decr"@.len() != "ehmi.create_config"@.len());
    reveal_strlit("decrement");
    assert("decrement"@.len() != "ehmi.create_config"@.len());
    reveal_strlit("session.list_neighbors");
    assert("session.list_neighbors"@.len() != "ehmi.create_config"@.len());
    reveal_strlit("get_neighbor_clients");
    assert("get_neighbor_clients"@.len() != "ehmi.create_config"@.len());
    reveal_strlit("session.set_readonly");
    assert("session.set_readonly"@.len() != "ehmi.create_config"@.len());
    reveal_strlit("set_token_readonly");
    assert("set_token_readonly"@[0] != "ehmi.create_config"@[0]);
}

proof fn lemma_method_user_data_dot_get()
    ensures
        api_method_spec("user_data.get"@) == ApiMethod::UserDataGet,
{
    reveal_strlit("user_data.get");
    reveal_strlit("call");
    assert("call"@.len() != "user_data.get"@.len());
    reveal_strlit("login");
    assert("login"@.len() != "user_data.get"@.len());
    reveal_strlit("logout");
    assert("logout"@.len() != "user_data.get"@.len());
    reveal_strlit("ehmi.get_config");
    assert("ehmi.get_config"@.len() != "user_data.get"@.len());
    reveal_strlit("test");
    assert("test"@.len() != "user_data.get"@.len());
    reveal_strlit("set_password");
    assert("set_password"@.len() != "user_data.get"@.len());
    reveal_strlit("profile.get_field");
    assert("profile.get_field"@.len() != "user_data.get"@.len());
    reveal_strlit("profile.set_field");
    assert("profile.set_field"@.len() != "user_data.get"@.len());
    reveal_strlit("item.state");
    assert("item.state"@.len() != "user_data.get"@.len());
    reveal_strlit("state");
    assert("state"@.len() != "user_data.get"@.len());
    reveal_strlit("item.check_access");
    assert("item.check_access"@.len() != "user_data.get"@.len());
    reveal_strlit("check_item_access");
    assert("check_item_access"@.len() != "user_data.get"@.len());
    reveal_strlit("item.state_history");
    assert("item.state_history"@.len() != "user_data.get"@.len());
    reveal_strlit("state_history");
    assert("state_history"@[0] != "user_data.get"@[0]);
    reveal_strlit("item.state_log");
    assert("item.state_log"@.len() != "user_data.get"@.len());
    reveal_strlit("state_log");
    assert("state_log"@.len() != "user_data.get"@.len());
    reveal_strlit("log.get");
    assert("log.get"@.len() != "user_data.get"@.len());
    reveal_strlit("log_get");
    assert("log_get"@.len() != "user_data.get"@.len());
    reveal_strlit("api_log.get");
    assert("api_log.get"@.len() != "user_data.get"@.len());
    reveal_strlit("action");
    assert("action"@.len() != "user_data.get"@.len());
    reveal_strlit("action.toggle");
    assert("action.toggle"@[0] != "user_data.get"@[0]);
    reveal_strlit("action_toggle");
    assert("action_toggle"@[0] != "user_data.get"@[0]);
    reveal_strlit("action.result");
    assert("action.result"@[0] != "user_data.get"@[0]);
    reveal_strlit("result");
    assert("result"@.len() != "user_data.get"@.len());
    reveal_strlit("action.kill");
    assert("action.kill"@.len() != "user_data.get"@.len());
    reveal_strlit("kill");
    assert("kill"@.len() != "user_data.get"@.len());
    reveal_strlit("action.terminate");
    assert("action.terminate"@.len() != "user_data.get"@.len());
    reveal_strlit("terminate");
    assert("terminate"@.len() != "user_data.get"@.len());
    reveal_strlit("run");
    assert("run"@.len() != "user_data.get"@.len());
    reveal_strlit("lvar.set");
    assert("lvar.set"@.len() != "user_data.get"@.len());
    reveal_strlit("set");
    assert("set"@.len() != "user_data.get"@.len());
    reveal_strlit("lvar.reset");
    assert("lvar.reset"@.len() != "user_data.get"@.len());
    reveal_strlit("reset");
    assert("reset"@.len() != "user_data.get"@.len());
    reveal_strlit("lvar.clear");
    assert("lvar.clear"@.len() != "user_data.get"@.len());
    reveal_strlit("clear");
    assert("clear"@.len() != "user_data.get"@.len());
    reveal_strlit("lvar.toggle");
    assert("lvar.toggle"@.len() != "user_data.get"@.len());
    reveal_strlit("toggle");
    assert("toggle"@.len() != "user_data.get"@.len());
    reveal_strlit("lvar.incr");
    assert("lvar.incr"@.len() != "user_data.get"@.len());
    reveal_strlit("increment");
    assert("increment"@.len() != "user_data.get"@.len());
    reveal_strlit("lvar.decr");
    assert("lvar.decr"@.len() != "user_data.get"@.len());
    reveal_strlit("decrement");
    assert("decrement"@.len() != "user_data.get"@.len());
    reveal_strlit("session.list_neighbors");
    assert("session.list_neighbors"@.len() != "user_data.get"@.len());
    reveal_strlit("get_neighbor_clients");
    assert("get_neighbor_clients"@.len() != "user_data.get"@.len());
    reveal_strlit("session.set_readonly");
    assert("session.set_readonly"@.len() != "user_data.get"@.len());
    reveal_strlit("set_token_readonly");
    assert("set_token_readonly"@.len() != "user_data.get"@.len());
    reveal_strlit("ehmi.create_config");
    assert("ehmi.create_config"@.len() != "user_data.get"@.len());
}

proof fn lemma_method_user_data_dot_set()
    ensures
        api_method_spec("user_data.set"@) == ApiMethod::UserDataSet,
{
    reveal_strlit("user_data.set");
    reveal_strlit("call");
    assert("call"@.len() != "user_data.set"@.len());
    reveal_strlit("login");
    assert("login"@.len() != "user_data.set"@.len());
    reveal_strlit("logout");
    assert("logout"@.len() != "user_data.set"@.len());
    reveal_strlit("ehmi.get_config");
    assert("ehmi.get_config"@.len() != "user_data.set"@.len());
    reveal_strlit("test");
    assert("test"@.len() != "user_data.set"@.len());
    reveal_strlit("set_password");
    assert("set_password"@.len() != "user_data.set"@.len());
    reveal_strlit("profile.get_field");
    assert("profile.get_field"@.len() != "user_data.set"@.len());
    reveal_strlit("profile.set_field");
    assert("profile.set_field"@.len() != "user_data.set"@.len());
    reveal_strlit("item.state");
    assert("item.state"@.len() != "user_data.set"@.len());
    reveal_strlit("state");
    assert("state"@.len() != "user_data.set"@.len());
    reveal_strlit("item.check_access");
    assert("item.check_access"@.len() != "user_data.set"@.len());
    reveal_strlit("check_item_access");
    assert("check_item_access"@.len() != "user_data.set"@.len());
    reveal_strlit("item.state_history");
    assert("item.state_history"@.len() != "user_data.set"@.len());
    reveal_strlit("state_history");
    assert("state_history"@[0] != "user_data.set"@[0]);
    reveal_strlit("item.state_log");
    assert("item.state_log"@.len() != "user_data.set"@.len());
    reveal_strlit("state_log");
    assert("state_log"@.len() != "user_data.set"@.len());
    reveal_strlit("log.get");
    assert("log.get"@.len() != "user_data.set"@.len());
    reveal_strlit("log_get");
    assert("log_get"@.len() != "user_data.set"@.len());
    reveal_strlit("api_log.get");
    assert("api_log.get"@.len() != "user_data.set"@.len());
    reveal_strlit("action");
    assert("action"@.len() != "user_data.set"@.len());
    reveal_strlit("action.toggle");
    assert("action.toggle"@[0] != "user_data.set"@[0]);
    reveal_strlit("action_toggle");
    assert("action_toggle"@[0] != "user_data.set"@[0]);
    reveal_strlit("action.result");
    assert("action.result"@[0] != "user_data.set"@[0]);
    reveal_strlit("result");
    assert("result"@.len() != "user_data.set"@.len());
    reveal_strlit("action.kill");
    assert("action.kill"@.len() != "user_data.set"@.len());
    reveal_strlit("kill");
    assert("kill"@.len() != "user_data.set"@.len());
    reveal_strlit("action.terminate");
    assert("action.terminate"@.len() != "user_data.set"@.len());
    reveal_strlit("terminate");
    assert("terminate"@.len() != "user_data.set"@.len());
    reveal_strlit("run");
    assert("run"@.len() != "user_data.set"@.len());
    reveal_strlit("lvar.set");
    assert("lvar.set"@.len() != "user_data.set"@.len());
    reveal_strlit("set");
    assert("set"@.len() != "user_data.set"@.len());
    reveal_strlit("lvar.reset");
    assert("lvar.reset"@.len() != "user_data.set"@.len());
    reveal_strlit("reset");
    assert("reset"@.len() != "user_data.set"@.len());
    reveal_strlit("lvar.clear");
    assert("lvar.clear"@.len() != "user_data.set"@.len());
    reveal_strlit("clear");
    assert("clear"@.len() != "user_data.set"@.len());
    reveal_strlit("lvar.toggle");
    assert("lvar.toggle"@.len() != "user_data.set"@.len());
    reveal_strlit("toggle");
    assert("toggle"@.len() != "user_data.set"@.len());
    reveal_strlit("lvar.incr");
    assert("lvar.incr"@.len() != "user_data.set"@.len());
    reveal_strlit("increment");
    assert("increment"@.len() != "user_data.set"@.len());
    reveal_strlit("lvar.decr");
    assert("lvar.decr"@.len() != "user_data.set"@.len());
    reveal_strlit("decrement");
    assert("decrement"@.len() != "user_data.set"@.len());
    reveal_strlit("session.list_neighbors");
    assert("session.list_neighbors"@.len() != "user_data.set"@.len());
    reveal_strlit("get_neighbor_clients");
    assert("get_neighbor_clients"@.len() != "user_data.set"@.len());
    reveal_strlit("session.set_readonly");
    assert("session.set_readonly"@.len() != "user_data.set"@.len());
    reveal_strlit("set_token_readonly");
    assert("set_token_readonly"@.len() != "user_data.set"@.len());
    reveal_strlit("ehmi.create_config");
    assert("ehmi.create_config"@.len() != "user_data.set"@.len());
    reveal_strlit("user_data.get");
    assert("user_data.get"@[10] != "user_data.set"@[10]);
}

proof fn lemma_method_user_data_dot_delete()
    ensures
        api_method_spec("user_data.delete"@) == ApiMethod::UserDataDelete,
{
    reveal_strlit("user_data.delete");
    reveal_strlit("call");
    assert("call"@.len() != "user_data.delete"@.len());
    reveal_strlit("login");
    assert("login"@.len() != "user_data.delete"@.len());
    reveal_strlit("logout");
    assert("logout"@.len() != "user_data.delete"@.len());
    reveal_strlit("ehmi.get_config");
    assert("ehmi.get_config"@.len() != "user_data.delete"@.len());
    reveal_strlit("test");
    assert("test"@.len() != "user_data.delete"@.len());
    reveal_strlit("set_password");
    assert("set_password"@.len() != "user_data.delete"@.len());
    reveal_strlit("profile.get_field");
    assert("profile.get_field"@.len() != "user_data.delete"@.len());
    reveal_strlit("profile.set_field");
    assert("profile.set_field"@.len() != "user_data.delete"@.len());
    reveal_strlit("item.state");
    assert("item.state"@.len() != "user_data.delete"@.len());
    reveal_strlit("state");
    assert("state"@.len() != "user_data.delete"@.len());
    reveal_strlit("item.check_access");
    assert("item.check_access"@.len() != "user_data.delete"@.len());
    reveal_strlit("check_item_access");
    assert("check_item_access"@.len() != "user_data.delete"@.len());
    reveal_strlit("item.state_history");
    assert("item.state_history"@.len() != "user_data.delete"@.len());
    reveal_strlit("state_history");
    assert("state_history"@.len() != "user_data.delete"@.len());
    reveal_strlit("item.state_log");
    assert("item.state_log"@.len() != "user_data.delete"@.len());
    reveal_strlit("state_log");
    assert("state_log"@.len() != "user_data.delete"@.len());
    reveal_strlit("log.get");
    assert("log.get"@.len() != "user_data.delete"@.len());
    reveal_strlit("log_get");
    assert("log_get"@.len() != "user_data.delete"@.len());
    reveal_strlit("api_log.get");
    assert("api_log.get"@.len() != "user_data.delete"@.len());
    reveal_strlit("action");
    assert("action"@.len() != "user_data.delete"@.len());
    reveal_strlit("action.toggle");
    assert("action.toggle"@.len() != "user_data.delete"@.len());
    reveal_strlit("action_toggle");
    assert("action_toggle"@.len() != "user_data.delete"@.len());
    reveal_strlit("action.result");
    assert("action.result"@.len() != "user_data.delete"@.len());
    reveal_strlit("result");
    assert("result"@.len() != "user_data.delete"@.len());
    reveal_strlit("action.kill");
    assert("action.kill"@.len() != "user_data.delete"@.len());
    reveal_strlit("kill");
    assert("kill"@.len() != "user_data.delete"@.len());
    reveal_strlit("action.terminate");
    assert("action.terminate"@[0] != "user_data.delete"@[0]);
    reveal_strlit("terminate");
    assert("terminate"@.len() != "user_data.delete"@.len());
    reveal_strlit("run");
    assert("run"@.len() != "user_data.delete"@.len());
    reveal_strlit("lvar.set");
    assert("lvar.set"@.len() != "user_data.delete"@.len());
    reveal_strlit("set");
    assert("set"@.len() != "user_data.delete"@.len());
    reveal_strlit("lvar.reset");
    assert("lvar.reset"@.len() != "user_data.delete"@.len());
    reveal_strlit("reset");
    assert("reset"@.len() != "user_data.delete"@.len());
    reveal_strlit("lvar.clear");
    assert("lvar.clear"@.len() != "user_data.delete"@.len());
    reveal_strlit("clear");
    assert("clear"@.len() != "user_data.delete"@.len());
    reveal_strlit("lvar.toggle");
    assert("lvar.toggle"@.len() != "user_data.delete"@.len());
    reveal_strlit("toggle");
    assert("toggle"@.len() != "user_data.delete"@.len());
    reveal_strlit("lvar.incr");
    assert("lvar.incr"@.len() != "user_data.delete"@.len());
    reveal_strlit("increment");
    assert("increment"@.len() != "user_data.delete"@.len());
    reveal_strlit("lvar.decr");
    assert("lvar.decr"@.len() != "user_data.delete"@.len());
    reveal_strlit("decrement");
    assert("decrement"@.len() != "user_data.delete"@.len());
    reveal_strlit("session.list_neighbors");
    assert("session.list_neighbors"@.len() != "user_data.delete"@.len());
    reveal_strlit("get_neighbor_clients");
    assert("get_neighbor_clients"@.len() != "user_data.delete"@.len());
    reveal_strlit("session.set_readonly");
    assert("session.set_readonly"@.len() != "user_data.delete"@.len());
    reveal_strlit("set_token_readonly");
    assert("set_token_readonly"@.len() != "user_data.delete"@.len());
    reveal_strlit("ehmi.create_config");
    assert("ehmi.create_config"@.len() != "user_data.delete"@.len());
    reveal_strlit("user_data.get");
    assert("user_data.get"@.len() != "user_data.delete"@.len());
    reveal_strlit("user_data.set");
    assert("user_data.set"@.len() != "user_data.delete"@.len());
}

proof fn lemma_method_db_dot_list()
    ensures
        api_method_spec("db.list"@) == ApiMethod::DbList,
{
    reveal_strlit("db.list");
    reveal_strlit("call");
    assert("call"@.len() != "db.list"@.len());
    reveal_strlit("login");
    assert("login"@.len() != "db.list"@.len());
    reveal_strlit("logout");
    assert("logout"@.len() != "db.list"@.len());
    reveal_strlit("ehmi.get_config");
    assert("ehmi.get_config"@.len() != "db.list"@.len());
    reveal_strlit("test");
    assert("test"@.len() != "db.list"@.len());
    reveal_strlit("set_password");
    assert("set_password"@.len() != "db.list"@.len());
    reveal_strlit("profile.get_field");
    assert("profile.get_field"@.len() != "db.list"@.len());
    reveal_strlit("profile.set_field");
    assert("profile.set_field"@.len() != "db.list"@.len());
    reveal_strlit("item.state");
    assert("item.state"@.len() != "db.list"@.len());
    reveal_strlit("state");
    assert("state"@.len() != "db.list"@.len());
    reveal_strlit("item.check_access");
    assert("item.check_access"@.len() != "db.list"@.len());
    reveal_strlit("check_item_access");
    assert("check_item_access"@.len() != "db.list"@.len());
    reveal_strlit("item.state_history");
    assert("item.state_history"@.len() != "db.list"@.len());
    reveal_strlit("state_history");
    assert("state_history"@.len() != "db.list"@.len());
    reveal_strlit("item.state_log");
    assert("item.state_log"@.len() != "db.list"@.len());
    reveal_strlit("state_log");
    assert("state_log"@.len() != "db.list"@.len());
    reveal_strlit("log.get");
    assert("log.get"@[0] != "db.list"@[0]);
    reveal_strlit("log_get");
    assert("log_get"@[0] != "db.list"@[0]);
    reveal_strlit("api_log.get");
    assert("api_log.get"@.len() != "db.list"@.len());
    reveal_strlit("action");
    assert("action"@.len() != "db.list"@.len());
    reveal_strlit("action.toggle");
    assert("action.toggle"@.len() != "db.list"@.len());
    reveal_strlit("action_toggle");
    assert("action_toggle"@.len() != "db.list"@.len());
    reveal_strlit("action.result");
    assert("action.result"@.len() != "db.list"@.len());
    reveal_strlit("result");
    assert("result"@.len() != "db.list"@.len());
    reveal_strlit("action.kill");
    assert("action.kill"@.len() != "db.list"@.len());
    reveal_strlit("kill");
    assert("kill"@.len() != "db.list"@.len());
    reveal_strlit("action.terminate");
    assert("action.terminate"@.len() != "db.list"@.len());
    reveal_strlit("terminate");
    assert("terminate"@.len() != "db.list"@.len());
    reveal_strlit("run");
    assert("run"@.len() != "db.list"@.len());
    reveal_strlit("lvar.set");
    assert("lvar.set"@.len() != "db.list"@.len());
    reveal_strlit("set");
    assert("set"@.len() != "db.list"@.len());
    reveal_strlit("lvar.reset");
    assert("lvar.reset"@.len() != "db.list"@.len());
    reveal_strlit("reset");
    assert("reset"@.len() != "db.list"@.len());
    reveal_strlit("lvar.clear");
    assert("lvar.clear"@.len() != "db.list"@.len());
    reveal_strlit("clear");
    assert("clear"@.len() != "db.list"@.len());
    reveal_strlit("lvar.toggle");
    assert("lvar.toggle"@.len() != "db.list"@.len());
    reveal_strlit("toggle");
    assert("toggle"@.len() != "db.list"@.len());
    reveal_strlit("lvar.incr");
    assert("lvar.incr"@.len() != "db.list"@.len());
    reveal_strlit("increment");
    assert("increment"@.len() != "db.list"@.len());
    reveal_strlit("lvar.decr");
    assert("lvar.decr"@.len() != "db.list"@.len());
    reveal_strlit("decrement");
    assert("decrement"@.len() != "db.list"@.len());
    reveal_strlit("session.list_neighbors");
    assert("session.list_neighbors"@.len() != "db.list"@.len());
    reveal_strlit("get_neighbor_clients");
    assert("get_neighbor_clients"@.len() != "db.list"@.len());
    reveal_strlit("session.set_readonly");
    assert("session.set_readonly"@.len() != "db.list"@.len());
    reveal_strlit("set_token_readonly");
    assert("set_token_readonly"@.len() != "db.list"@.len());
    reveal_strlit("ehmi.create_config");
    assert("ehmi.create_config"@.len() != "db.list"@.len());
    reveal_strlit("user_data.get");
    assert("user_data.get"@.len() != "db.list"@.len());
    reveal_strlit("user_data.set");
    assert("user_data.set"@.len() != "db.list"@.len());
    reveal_strlit("user_data.delete");
    assert("user_data.delete"@.len() != "db.list"@.len());
}

proof fn lemma_method_pvt_dot_put()
    ensures
        api_method_spec("pvt.put"@) == ApiMethod::PvtPut,
{
    reveal_strlit("pvt.put");
    reveal_strlit("call");
    assert("call"@.len() != "pvt.put"@.len());
    reveal_strlit("login");
    assert("login"@.len() != "pvt.put"@.len());
    reveal_strlit("logout");
    assert("logout"@.len() != "pvt.put"@.len());
    reveal_strlit("ehmi.get_config");
    assert("ehmi.get_config"@.len() != "pvt.put"@.len());
    reveal_strlit("test");
    assert("test"@.len() != "pvt.put"@.len());
    reveal_strlit("set_password");
    assert("set_password"@.len() != "pvt.put"@.len());
    reveal_strlit("profile.get_field");
    assert("profile.get_field"@.len() != "pvt.put"@.len());
    reveal_strlit("profile.set_field");
    assert("profile.set_field"@.len() != "pvt.put"@.len());
    reveal_strlit("item.state");
    assert("item.state"@.len() != "pvt.put"@.len());
    reveal_strlit("state");
    assert("state"@.len() != "pvt.put"@.len());
    reveal_strlit("item.check_access");
    assert("item.check_access"@.len() != "pvt.put"@.len());
    reveal_strlit("check_item_access");
    assert("check_item_access"@.len() != "pvt.put"@.len());
    reveal_strlit("item.state_history");
    assert("item.state_history"@.len() != "pvt.put"@.len());
    reveal_strlit("state_history");
    assert("state_history"@.len() != "pvt.put"@.len());
    reveal_strlit("item.state_log");
    assert("item.state_log"@.len() != "pvt.put"@.len());
    reveal_strlit("state_log");
    assert("state_log"@.len() != "pvt.put"@.len());
    reveal_strlit("log.get");
    assert("log.get"@[0] != "pvt.put"@[0]);
    reveal_strlit("log_get");
    assert("log_get"@[0] != "pvt.put"@[0]);
    reveal_strlit("api_log.get");
    assert("api_log.get"@.len() != "pvt.put"@.len());
    reveal_strlit("action");
    assert("action"@.len() != "pvt.put"@.len());
    reveal_strlit("action.toggle");
    assert("action.toggle"@.len() != "pvt.put"@.len());
    reveal_strlit("action_toggle");
    assert("action_toggle"@.len() != "pvt.put"@.len());
    reveal_strlit("action.result");
    assert("action.result"@.len() != "pvt.put"@.len());
    reveal_strlit("result");
    assert("result"@.len() != "pvt.put"@.len());
    reveal_strlit("action.kill");
    assert("action.kill"@.len() != "pvt.put"@.len());
    reveal_strlit("kill");
    assert("kill"@.len() != "pvt.put"@.len());
    reveal_strlit("action.terminate");
    assert("action.terminate"@.len() != "pvt.put"@.len());
    reveal_strlit("terminate");
    assert("terminate"@.len() != "pvt.put"@.len());
    reveal_strlit("run");
    assert("run"@.len() != "pvt.put"@.len());
    reveal_strlit("lvar.set");
    assert("lvar.set"@.len() != "pvt.put"@.len());
    reveal_strlit("set");
    assert("set"@.len() != "pvt.put"@.len());
    reveal_strlit("lvar.reset");
    assert("lvar.reset"@.len() != "pvt.put"@.len());
    reveal_strlit("reset");
    assert("reset"@.len() != "pvt.put"@.len());
    reveal_strlit("lvar.clear");
    assert("lvar.clear"@.len() != "pvt.put"@.len());
    reveal_strlit("clear");
    assert("clear"@.len() != "pvt.put"@.len());
    reveal_strlit("lvar.toggle");
    assert("lvar.toggle"@.len() != "pvt.put"@.len());
    reveal_strlit("toggle");
    assert("toggle"@.len() != "pvt.put"@.len());
    reveal_strlit("lvar.incr");
    assert("lvar.incr"@.len() != "pvt.put"@.len());
    reveal_strlit("increment");
    assert("increment"@.len() != "pvt.put"@.len());
    reveal_strlit("lvar.decr");
    assert("lvar.decr"@.len() != "pvt.put"@.len());
    reveal_strlit("decrement");
    assert("decrement"@.len() != "pvt.put"@.len());
    reveal_strlit("session.list_neighbors");
    assert("session.list_neighbors"@.len() != "pvt.put"@.len());
    reveal_strlit("get_neighbor_clients");
    assert("get_neighbor_clients"@.len() != "pvt.put"@.len());
    reveal_strlit("session.set_readonly");
    assert("session.set_readonly"@.len() != "pvt.put"@.len());
    reveal_strlit("set_token_readonly");
    assert("set_token_readonly"@.len() != "pvt.put"@.len());
    reveal_strlit("ehmi.create_config");
    assert("ehmi.create_config"@.len() != "pvt.put"@.len());
    reveal_strlit("user_data.get");
    assert("user_data.get"@.len() != "pvt.put"@.len());
    reveal_strlit("user_data.set");
    assert("user_data.set"@.len() != "pvt.put"@.len());
    reveal_strlit("user_data.delete");
    assert("user_data.delete"@.len() != "pvt.put"@.len());
    reveal_strlit("db.list");
    assert("db.list"@[0] != "pvt.put"@[0]);
}

proof fn lemma_method_pvt_dot_get()
    ensures
        api_method_spec("pvt.get"@) == ApiMethod::PvtGet,
{
    reveal_strlit("pvt.get");
    reveal_strlit("call");
    assert("call"@.len() != "pvt.get"@.len());
    reveal_strlit("login");
    assert("login"@.len() != "pvt.get"@.len());
    reveal_strlit("logout");
    assert("logout"@.len() != "pvt.get"@.len());
    reveal_strlit("ehmi.get_config");
    assert("ehmi.get_config"@.len() != "pvt.get"@.len());
    reveal_strlit("test");
    assert("test"@.len() != "pvt.get"@.len());
    reveal_strlit("set_password");
    assert("set_password"@.len() != "pvt.get"@.len());
    reveal_strlit("profile.get_field");
    assert("profile.get_field"@.len() != "pvt.get"@.len());
    reveal_strlit("profile.set_field");
    assert("profile.set_field"@.len() != "pvt.get"@.len());
    reveal_strlit("item.state");
    assert("item.state"@.len() != "pvt.get"@.len());
    reveal_strlit("state");
    assert("state"@.len() != "pvt.get"@.len());
    reveal_strlit("item.check_access");
    assert("item.check_access"@.len() != "pvt.get"@.len());
    reveal_strlit("check_item_access");
    assert("check_item_access"@.len() != "pvt.get"@.len());
    reveal_strlit("item.state_history");
    assert("item.state_history"@.len() != "pvt.get"@.len());
    reveal_strlit("state_history");
    assert("state_history"@.len() != "pvt.get"@.len());
    reveal_strlit("item.state_log");
    assert("item.state_log"@.len() != "pvt.get"@.len());
    reveal_strlit("state_log");
    assert("state_log"@.len() != "pvt.get"@.len());
    reveal_strlit("log.get");
    assert("log.get"@[0] != "pvt.get"@[0]);
    reveal_strlit("log_get");
    assert("log_get"@[0] != "pvt.get"@[0]);
    reveal_strlit("api_log.get");
    assert("api_log.get"@.len() != "pvt.get"@.len());
    reveal_strlit("action");
    assert("action"@.len() != "pvt.get"@.len());
    reveal_strlit("action.toggle");
    assert("action.toggle"@.len() != "pvt.get"@.len());
    reveal_strlit("action_toggle");
    assert("action_toggle"@.len() != "pvt.get"@.len());
    reveal_strlit("action.result");
    assert("action.result"@.len() != "pvt.get"@.len());
    reveal_strlit("result");
    assert("result"@.len() != "pvt.get"@.len());
    reveal_strlit("action.kill");
    assert("action.kill"@.len() != "pvt.get"@.len());
    reveal_strlit("kill");
    assert("kill"@.len() != "pvt.get"@.len());
    reveal_strlit("action.terminate");
    assert("action.terminate"@.len() != "pvt.get"@.len());
    reveal_strlit("terminate");
    assert("terminate"@.len() != "pvt.get"@.len());
    reveal_strlit("run");
    assert("run"@.len() != "pvt.get"@.len());
    reveal_strlit("lvar.set");
    assert("lvar.set"@.len() != "pvt.get"@.len());
    reveal_strlit("set");
    assert("set"@.len() != "pvt.get"@.len());
    reveal_strlit("lvar.reset");
    assert("lvar.reset"@.len() != "pvt.get"@.len());
    reveal_strlit("reset");
    assert("reset"@.len() != "pvt.get"@.len());
    reveal_strlit("lvar.clear");
    assert("lvar.clear"@.len() != "pvt.get"@.len());
    reveal_strlit("clear");
    assert("clear"@.len() != "pvt.get"@.len());
    reveal_strlit("lvar.toggle");
    assert("lvar.toggle"@.len() != "pvt.get"@.len());
    reveal_strlit("toggle");
    assert("toggle"@.len() != "pvt.get"@.len());
    reveal_strlit("lvar.incr");
    assert("lvar.incr"@.len() != "pvt.get"@.len());
    reveal_strlit("increment");
    assert("increment"@.len() != "pvt.get"@.len());
    reveal_strlit("lvar.decr");
    assert("lvar.decr"@.len() != "pvt.get"@.len());
    reveal_strlit("decrement");
    assert("decrement"@.len() != "pvt.get"@.len());
    reveal_strlit("session.list_neighbors");
    assert("session.list_neighbors"@.len() != "pvt.get"@.len());
    reveal_strlit("get_neighbor_clients");
    assert("get_neighbor_clients"@.len() != "pvt.get"@.len());
    reveal_strlit("session.set_readonly");
    assert("session.set_readonly"@.len() != "pvt.get"@.len());
    reveal_strlit("set_token_readonly");
    assert("set_token_readonly"@.len() != "pvt.get"@.len());
    reveal_strlit("ehmi.create_config");
    assert("ehmi.create_config"@.len() != "pvt.get"@.len());
    reveal_strlit("user_data.get");
    assert("user_data.get"@.len() != "pvt.get"@.len());
    reveal_strlit("user_data.set");
    assert("user_data.set"@.len() != "pvt.get"@.len());
    reveal_strlit("user_data.delete");
    assert("user_data.delete"@.len() != "pvt.get"@.len());
    reveal_strlit("db.list");
    assert("db.list"@[0] != "pvt.get"@[0]);
    reveal_strlit("pvt.put");
    assert("pvt.put"@[4] != "pvt.get"@[4]);
}

proof fn lemma_method_pvt_dot_unlink()
    ensures
        api_method_spec("pvt.unlink"@) == ApiMethod::PvtUnlink,
{
    reveal_strlit("pvt.unlink");
    reveal_strlit("call");
    assert("call"@.len() != "pvt.unlink"@.len());
    reveal_strlit("login");
    assert("login"@.len() != "pvt.unlink"@.len());
    reveal_strlit("logout");
    assert("logout"@.len() != "pvt.unlink"@.len());
    reveal_strlit("ehmi.get_config");
    assert("ehmi.get_config"@.len() != "pvt.unlink"@.len());
    reveal_strlit("test");
    assert("test"@.len() != "pvt.unlink"@.len());
    reveal_strlit("set_password");
    assert("set_password"@.len() != "pvt.unlink"@.len());
    reveal_strlit("profile.get_field");
    assert("profile.get_field"@.len() != "pvt.unlink"@.len());
    reveal_strlit("profile.set_field");
    assert("profile.set_field"@.len() != "pvt.unlink"@.len());
    reveal_strlit("item.state");
    assert("item.state"@[0] != "pvt.unlink"@[0]);
    reveal_strlit("state");
    assert("state"@.len() != "pvt.unlink"@.len());
    reveal_strlit("item.check_access");
    assert("item.check_access"@.len() != "pvt.unlink"@.len());
    reveal_strlit("check_item_access");
    assert("check_item_access"@.len() != "pvt.unlink"@.len());
    reveal_strlit("item.state_history");
    assert("item.state_history"@.len() != "pvt.unlink"@.len());
    reveal_strlit("state_history");
    assert("state_history"@.len() != "pvt.unlink"@.len());
    reveal_strlit("item.state_log");
    assert("item.state_log"@.len() != "pvt.unlink"@.len());
    reveal_strlit("state_log");
    assert("state_log"@.len() != "pvt.unlink"@.len());
    reveal_strlit("log.get");
    assert("log.get"@.len() != "pvt.unlink"@.len());
    reveal_strlit("log_get");
    assert("log_get"@.len() != "pvt.unlink"@.len());
    reveal_strlit("api_log.get");
    assert("api_log.get"@.len() != "pvt.unlink"@.len());
    reveal_strlit("action");
    assert("action"@.len() != "pvt.unlink"@.len());
    reveal_strlit("action.toggle");
    assert("action.toggle"@.len() != "pvt.unlink"@.len());
    reveal_strlit("action_toggle");
    assert("action_toggle"@.len() != "pvt.unlink"@.len());
    reveal_strlit("action.result");
    assert("action.result"@.len() != "pvt.unlink"@.len());
    reveal_strlit("result");
    assert("result"@.len() != "pvt.unlink"@.len());
    reveal_strlit("action.kill");
    assert("action.kill"@.len() != "pvt.unlink"@.len());
    reveal_strlit("kill");
    assert("kill"@.len() != "pvt.unlink"@.len());
    reveal_strlit("action.terminate");
    assert("action.terminate"@.len() != "pvt.unlink"@.len());
    reveal_strlit("terminate");
    assert("terminate"@.len() != "pvt.unlink"@.len());
    reveal_strlit("run");
    assert("run"@.len() != "pvt.unlink"@.len());
    reveal_strlit("lvar.set");
    assert("lvar.set"@.len() != "pvt.unlink"@.len());
    reveal_strlit("set");
    assert("set"@.len() != "pvt.unlink"@.len());
    reveal_strlit("lvar.reset");
    assert("lvar.reset"@[0] != "pvt.unlink"@[0]);
    reveal_strlit("reset");
    assert("reset"@.len() != "pvt.unlink"@.len());
    reveal_strlit("lvar.clear");
    assert("lvar.clear"@[0] != "pvt.unlink"@[0]);
    reveal_strlit("clear");
    assert("clear"@.len() != "pvt.unlink"@.len());
    reveal_strlit("lvar.toggle");
    assert("lvar.toggle"@.len() != "pvt.unlink"@.len());
    reveal_strlit("toggle");
    assert("toggle"@.len() != "pvt.unlink"@.len());
    reveal_strlit("lvar.incr");
    assert("lvar.incr"@.len() != "pvt.unlink"@.len());
    reveal_strlit("increment");
    assert("increment"@.len() != "pvt.unlink"@.len());
    reveal_strlit("lvar.decr");
    assert("lvar.decr"@.len() != "pvt.unlink"@.len());
    reveal_strlit("decrement");
    assert("decrement"@.len() != "pvt.unlink"@.len());
    reveal_strlit("session.list_neighbors");
    assert("session.list_neighbors"@.len() != "pvt.unlink"@.len());
    reveal_strlit("get_neighbor_clients");
    assert("get_neighbor_clients"@.len() != "pvt.unlink"@.len());
    reveal_strlit("session.set_readonly");
    assert("session.set_readonly"@.len() != "pvt.unlink"@.len());
    reveal_strlit("set_token_readonly");
    assert("set_token_readonly"@.len() != "pvt.unlink"@.len());
    reveal_strlit("ehmi.create_config");
    assert("ehmi.create_config"@.len() != "pvt.unlink"@.len());
    reveal_strlit("user_data.get");
    assert("user_data.get"@.len() != "pvt.unlink"@.len());
    reveal_strlit("user_data.set");
    assert("user_data.set"@.len() != "pvt.unlink"@.len());
    reveal_strlit("user_data.delete");
    assert("user_data.delete"@.len() != "pvt.unlink"@.len());
    reveal_strlit("db.list");
    assert("db.list"@.len() != "pvt.unlink"@.len());
    reveal_strlit("pvt.put");
    assert("pvt.put"@.len() != "pvt.unlink"@.len());
    reveal_strlit("pvt.get");
    assert("pvt.get"@.len() != "pvt.unlink"@.len());
}

proof fn lemma_method_pvt_dot_list()
    ensures
        api_method_spec("pvt.list"@) == ApiMethod::PvtList,
{
    reveal_strlit("pvt.list");
    reveal_strlit("call");
    assert("call"@.len() != "pvt.list"@.len());
    reveal_strlit("login");
    assert("login"@.len() != "pvt.list"@.len());
    reveal_strlit("logout");
    assert("logout"@.len() != "pvt.list"@.len());
    reveal_strlit("ehmi.get_config");
    assert("ehmi.get_config"@.len() != "pvt.list"@.len());
    reveal_strlit("test");
    assert("test"@.len() != "pvt.list"@.len());
    reveal_strlit("set_password");
    assert("set_password"@.len() != "pvt.list"@.len());
    reveal_strlit("profile.get_field");
    assert("profile.get_field"@.len() != "pvt.list"@.len());
    reveal_strlit("profile.set_field");
    assert("profile.set_field"@.len() != "pvt.list"@.len());
    reveal_strlit("item.state");
    assert("item.state"@.len() != "pvt.list"@.len());
    reveal_strlit("state");
    assert("state"@.len() != "pvt.list"@.len());
    reveal_strlit("item.check_access");
    assert("item.check_access"@.len() != "pvt.list"@.len());
    reveal_strlit("check_item_access");
    assert("check_item_access"@.len() != "pvt.list"@.len());
    reveal_strlit("item.state_history");
    assert("item.state_history"@.len() != "pvt.list"@.len());
    reveal_strlit("state_history");
    assert("state_history"@.len() != "pvt.list"@.len());
    reveal_strlit("item.state_log");
    assert("item.state_log"@.len() != "pvt.list"@.len());
    reveal_strlit("state_log");
    assert("state_log"@.len() != "pvt.list"@.len());
    reveal_strlit("log.get");
    assert("log.get"@.len() != "pvt.list"@.len());
    reveal_strlit("log_get");
    assert("log_get"@.len() != "pvt.list"@.len());
    reveal_strlit("api_log.get");
    assert("api_log.get"@.len() != "pvt.list"@.len());
    reveal_strlit("action");
    assert("action"@.len() != "pvt.list"@.len());
    reveal_strlit("action.toggle");
    assert("action.toggle"@.len() != "pvt.list"@.len());
    reveal_strlit("action_toggle");
    assert("action_toggle"@.len() != "pvt.list"@.len());
    reveal_strlit("action.result");
    assert("action.result"@.len() != "pvt.list"@.len());
    reveal_strlit("result");
    assert("result"@.len() != "pvt.list"@.len());
    reveal_strlit("action.kill");
    assert("action.kill"@.len() != "pvt.list"@.len());
    reveal_strlit("kill");
    assert("kill"@.len() != "pvt.list"@.len());
    reveal_strlit("action.terminate");
    assert("action.terminate"@.len() != "pvt.list"@.len());
    reveal_strlit("terminate");
    assert("terminate"@.len() != "pvt.list"@.len());
    reveal_strlit("run");
    assert("run"@.len() != "pvt.list"@.len());
    reveal_strlit("lvar.set");
    assert("lvar.set"@[0] != "pvt.list"@[0]);
    reveal_strlit("set");
    assert("set"@.len() != "pvt.list"@.len());
    reveal_strlit("lvar.reset");
    assert("lvar.reset"@.len() != "pvt.list"@.len());
    reveal_strlit("reset");
    assert("reset"@.len() != "pvt.list"@.len());
    reveal_strlit("lvar.clear");
    assert("lvar.clear"@.len() != "pvt.list"@.len());
    reveal_strlit("clear");
    assert("clear"@.len() != "pvt.list"@.len());
    reveal_strlit("lvar.toggle");
    assert("lvar.toggle"@.len() != "pvt.list"@.len());
    reveal_strlit("toggle");
    assert("toggle"@.len() != "pvt.list"@.len());
    reveal_strlit("lvar.incr");
    assert("lvar.incr"@.len() != "pvt.list"@.len());
    reveal_strlit("increment");
    assert("increment"@.len() != "pvt.list"@.len());
    reveal_strlit("lvar.decr");
    assert("lvar.decr"@.len() != "pvt.list"@.len());
    reveal_strlit("decrement");
    assert("decrement"@.len() != "pvt.list"@.len());
    reveal_strlit("session.list_neighbors");
    assert("session.list_neighbors"@.len() != "pvt.list"@.len());
    reveal_strlit("get_neighbor_clients");
    assert("get_neighbor_clients"@.len() != "pvt.list"@.len());
    reveal_strlit("session.set_readonly");
    assert("session.set_readonly"@.len() != "pvt.list"@.len());
    reveal_strlit("set_token_readonly");
    assert("set_token_readonly"@.len() != "pvt.list"@.len());
    reveal_strlit("ehmi.create_config");
    assert("ehmi.create_config"@.len() != "pvt.list"@.len());
    reveal_strlit("user_data.get");
    assert("user_data.get"@.len() != "pvt.list"@.len());
    reveal_strlit("user_data.set");
    assert("user_data.set"@.len() != "pvt.list"@.len());
    reveal_strlit("user_data.delete");
    assert("user_data.delete"@.len() != "pvt.list"@.len());
    reveal_strlit("db.list");
    assert("db.list"@.len() != "pvt.list"@.len());
    reveal_strlit("pvt.put");
    assert("pvt.put"@.len() != "pvt.list"@.len());
    reveal_strlit("pvt.get");
    assert("pvt.get"@.len() != "pvt.list"@.len());
    reveal_strlit("pvt.unlink");
    assert("pvt.unlink"@.len() != "pvt.list"@.len());
}

} // verus!
