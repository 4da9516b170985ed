//! Decisions of cloud deployment: configuration variables from the command
//! line and the environment, the deployment file version, the targets of
//! extra bus calls, and the checks and completion of the files uploaded to
//! nodes.
use crate::data::{parse_text_value, text_value, Datum, SDatum};
use crate::filewriter::{sha256, sha256_digest};
use vstd::slice::slice_to_vec;
use vstd::utf8::encode_utf8;
use crate::extract::{normalized, ExtractBoolOrStr, ExtractError};
use crate::paths::{file_name, path_file_name, path_push, pushed};
use crate::target::{pairs_view, params_insert, set_param};
use crate::text::{chars_of, find_char, find_run, find_run_in, has_prefix, lemma_find_first, push_str, split_once, str_eq, string_of, sub_chars};
use crate::urls::{url_like, IsUrl};
use vstd::prelude::*;

verus! {

/// The deployment file version this manager reads.
pub const DEPLOY_VERSION: u16 = 4;

/// Why a deployment was refused.
#[derive(PartialEq, Eq, Debug, Clone)]
pub enum DeployError {
    /// a variable argument is not `name=value`
    InvalidVariable(String),
    /// the deployment file has another version
    UnsupportedVersion(u16),
    /// the extraction request was refused
    Extract(ExtractError),
    /// a file has neither a source nor text or URL content
    NoContent,
    /// the URL names no file, and the target is a directory
    MissingUrlFileName,
    /// the content is text, and the target is a directory
    NoTargetName,
    /// the source names no file, and the target is a directory
    MissingSourceFileName,
    /// a node to deploy to is offline
    NodeOffline(String),
}

/// The name and text value of a variable argument `name=value`.
pub open spec fn config_var_of(var: Seq<char>) -> Option<(Seq<char>, Seq<char>)> {
    match split_once(var, '=') {
        (n, Some(v)) => Some((n, v)),
        (_, None) => None,
    }
}

/// Reads a variable argument `name=value`; the value is parsed as a bus
/// value.
pub fn parse_config_var(var: &str) -> (r: Result<(String, Datum), DeployError>)
    ensures
        match config_var_of(var@) {
            Some((n, v)) => r matches Ok((rn, rv)) && rn@ == n && rv@ == text_value(v),
            None => r matches Err(DeployError::InvalidVariable(e)) && e@ == var@,
        },
{
    let c = chars_of(var);
    proof {
        lemma_find_first(c@, '=');
    }
    match find_char(&c, '=') {
        None => Err(DeployError::InvalidVariable(var.to_string())),
        Some(i) => {
            let name = string_of(&sub_chars(&c, 0, i));
            let value = string_of(&sub_chars(&c, i + 1, c.len()));
            assert(value@ =~= var@.skip(i + 1));
            Ok((name, parse_text_value(value.as_str())))
        },
    }
}

/// The variable that an environment variable `ECD_<name>` sets.
pub fn env_config_var(name: &str, value: &str) -> (r: Option<(String, Datum)>)
    ensures
        "ECD_"@.is_prefix_of(name@) ==> (r matches Some((n, v)) && n@ == name@.skip(4) && v@ == text_value(value@)),
        !"ECD_"@.is_prefix_of(name@) ==> r is None,
{
    let c = chars_of(name);
    let p = chars_of("ECD_");
    proof {
        reveal_strlit("ECD_");
    }
    if has_prefix(&c, &p) {
        let n = sub_chars(&c, 4, c.len());
        assert(n@ =~= name@.skip(4));
        Some((string_of(&n), parse_text_value(value)))
    } else {
        None
    }
}

/// Accepts only deployment files of [`DEPLOY_VERSION`].
pub fn check_deploy_version(version: u16) -> (r: Result<(), DeployError>)
    ensures
        version == 4 ==> r is Ok,
        version != 4 ==> r == Err::<(), DeployError>(DeployError::UnsupportedVersion(version)),
{
    if version == DEPLOY_VERSION {
        Ok(())
    } else {
        Err(DeployError::UnsupportedVersion(version))
    }
}

/// The service and method of an extra bus call `target::method`, the
/// core's where no target is named.
pub open spec fn bus_target_of(method: Seq<char>) -> (Seq<char>, Seq<char>) {
    match find_run(method, "::"@) {
        Some(i) => (method.take(i), method.skip(i + 2)),
        None => ("eva.core"@, method),
    }
}

/// Splits an extra bus call into its target service and method.
pub fn bus_call_target(method: &str) -> (r: (String, String))
    ensures
        (r.0@, r.1@) == bus_target_of(method@),
{
    let c = chars_of(method);
    let sep = chars_of("::");
    proof {
        reveal_strlit("::");
    }
    match find_run_in(&c, &sep) {
        Some(i) => {
            proof {
                crate::text::lemma_find_run(c@, sep@);
            }
            let t = sub_chars(&c, 0, i);
            let m = sub_chars(&c, i + 2, c.len());
            assert(m@ =~= method@.skip(i + 2));
            (string_of(&t), string_of(&m))
        },
        None => ("eva.core".to_string(), method.to_string()),
    }
}

/// A file to upload to a node.
pub struct Upload {
    pub src: Option<String>,
    pub text: Option<String>,
    pub url: Option<String>,
    pub target: String,
    pub svc: String,
    pub permissions: Option<u32>,
    pub extract: ExtractBoolOrStr,
}

pub open spec fn opt_view(o: Option<String>) -> Option<Seq<char>> {
    match o {
        Some(s) => Some(s@),
        None => None,
    }
}

/// A source path resolved against the deployment file's directory: an
/// absolute path or a URL is kept, a relative path is put under `base`.
pub open spec fn resolved_src(src: Seq<char>, base: Seq<char>) -> Seq<char> {
    if !(src.len() > 0 && src[0] == '/') && !url_like(src) {
        pushed(base, src)
    } else {
        src
    }
}

/// What the first checks of an upload give: the extraction kind read from
/// the URL or the source, the file manager service where none is named, and
/// the source resolved against `base`; a file needs a source, a text or a
/// URL.
pub open spec fn prepared_of(
    src: Option<Seq<char>>,
    text: Option<Seq<char>>,
    url: Option<Seq<char>>,
    svc: Seq<char>,
    extract: ExtractBoolOrStr,
    default_svc: Seq<char>,
    base: Seq<char>,
) -> Result<(Option<Seq<char>>, Seq<char>, ExtractBoolOrStr), DeployError> {
    match normalized(extract, if url is Some { url } else { src }) {
        Err(e) => Err(DeployError::Extract(e)),
        Ok(x) => {
            let svc2 = if svc.len() == 0 { default_svc } else { svc };
            match src {
                Some(s) => Ok((Some(resolved_src(s, base)), svc2, x)),
                None => if text is None && url is None {
                    Err(DeployError::NoContent)
                } else {
                    Ok((None, svc2, x))
                },
            }
        },
    }
}

/// The first checks of an upload: the extraction request is normalized,
/// the service defaults to `default_svc`, and a relative source is put
/// under the directory `base` of the deployment file. (Whether a local
/// source exists is checked next, on the disk.)
pub fn prepare_upload(u: Upload, default_svc: &str, base: &str) -> (r: Result<Upload, DeployError>)
    ensures
        match prepared_of(opt_view(u.src), opt_view(u.text), opt_view(u.url), u.svc@, u.extract, default_svc@, base@) {
            Err(e) => r == Err::<Upload, DeployError>(e),
            Ok((src, svc, x)) => r matches Ok(p) && opt_view(p.src) == src && p.svc@ == svc && p.extract == x
                && opt_view(p.text) == opt_view(u.text) && opt_view(p.url) == opt_view(u.url) && p.target@
                == u.target@ && p.permissions == u.permissions,
        },
{
    let Upload { src, text, url, target, svc, permissions, extract } = u;
    let x = match &url {
        Some(l) => extract.normalize(Some(l.as_str())),
        None => match &src {
            Some(s) => extract.normalize(Some(s.as_str())),
            None => extract.normalize(None),
        },
    };
    let x = match x {
        Err(e) => {
            return Err(DeployError::Extract(e));
        },
        Ok(x) => x,
    };
    let svc = if svc.as_str().unicode_len() == 0 {
        default_svc.to_string()
    } else {
        svc
    };
    let src = match src {
        Some(s) => {
            let c = chars_of(s.as_str());
            if !(c.len() > 0 && c[0] == '/') && !s.as_str().is_url() {
                Some(path_push(base, s.as_str()))
            } else {
                Some(s)
            }
        },
        None => {
            if text.is_none() && url.is_none() {
                return Err(DeployError::NoContent);
            }
            None
        },
    };
    Ok(Upload { src, text, url, target, svc, permissions, extract: x })
}

/// The target after completion: a directory target (ending in `/`) of a
/// file that is not unpacked gets the file name of the URL, else of the
/// source.
pub open spec fn completed_target_of(
    target: Seq<char>,
    src: Option<Seq<char>>,
    url: Option<Seq<char>>,
    no_extract: bool,
) -> Result<Seq<char>, DeployError> {
    if target.len() > 0 && target[target.len() - 1] == '/' && no_extract {
        match url {
            Some(l) => match path_file_name(l) {
                None => Err(DeployError::MissingUrlFileName),
                Some(f) => Ok(target + f),
            },
            None => match src {
                None => Err(DeployError::NoTargetName),
                Some(s) => match path_file_name(s) {
                    None => Err(DeployError::MissingSourceFileName),
                    Some(f) => Ok(target + f),
                },
            },
        }
    } else {
        Ok(target)
    }
}

/// Completes the target of an upload whose target is a directory.
pub fn complete_upload_target(u: Upload) -> (r: Result<Upload, DeployError>)
    ensures
        match completed_target_of(
            u.target@,
            opt_view(u.src),
            opt_view(u.url),
            u.extract == ExtractBoolOrStr::Bool(false) || u.extract == ExtractBoolOrStr::Extr(
                crate::extract::Extract::No,
            ),
        ) {
            Err(e) => r == Err::<Upload, DeployError>(e),
            Ok(t) => r matches Ok(p) && p.target@ == t && opt_view(p.src) == opt_view(u.src) && opt_view(
                p.url,
            ) == opt_view(u.url) && opt_view(p.text) == opt_view(u.text) && p.svc@ == u.svc@ && p.extract
                == u.extract && p.permissions == u.permissions,
        },
{
    let t = chars_of(u.target.as_str());
    if t.len() > 0 && t[t.len() - 1] == '/' && u.extract.is_no() {
        let name = match &u.url {
            Some(l) => match file_name(l.as_str()) {
                None => {
                    return Err(DeployError::MissingUrlFileName);
                },
                Some(f) => f,
            },
            None => match &u.src {
                None => {
                    return Err(DeployError::NoTargetName);
                },
                Some(s) => match file_name(s.as_str()) {
                    None => {
                        return Err(DeployError::MissingSourceFileName);
                    },
                    Some(f) => f,
                },
            },
        };
        let Upload { src, text, url, target, svc, permissions, extract } = u;
        let mut target = target;
        push_str(&mut target, name.as_str());
        Ok(Upload { src, text, url, target, svc, permissions, extract })
    } else {
        Ok(u)
    }
}

/// What a node's section of a deployment file holds, as far as the order
/// of the calls made for it goes: the number of files, the resources that
/// are set, and whether extra tasks run before and after (for the
/// direction at hand).
pub struct NodeSection {
    pub uploads: usize,
    pub items: bool,
    pub svcs: bool,
    pub acls: bool,
    pub keys: bool,
    pub users: bool,
    pub sources: bool,
    pub extra_before: bool,
    pub extra_after: bool,
}

/// A call made for a node.
#[derive(PartialEq, Eq, Structural, Copy, Clone, Debug)]
pub enum DeployStep {
    ExtraBefore,
    /// A file is uploaded (or, undeploying, unlinked), by its position.
    File(usize),
    Items,
    Svcs,
    /// Wait for the deployed services to come online.
    WaitSvcs,
    Acls,
    Keys,
    Users,
    Sources,
    ExtraAfter,
}

/// `step` where `present`, else nothing.
pub open spec fn step_if(present: bool, step: DeployStep) -> Seq<DeployStep> {
    if present {
        seq![step]
    } else {
        Seq::empty()
    }
}

/// The file steps, in file order.
pub open spec fn file_steps(n: nat) -> Seq<DeployStep> {
    Seq::new(n, |i: int| DeployStep::File(i as usize))
}

/// The calls for a node: deploying, extra tasks first, the files, the
/// items, the services (then waiting for them), ACLs, keys, users,
/// generator sources, extra tasks last; undeploying, extra tasks first,
/// items, generator sources, users, keys, ACLs, services, the files,
/// extra tasks last.
pub open spec fn node_steps_spec(n: NodeSection, deploy: bool) -> Seq<DeployStep> {
    if deploy {
        step_if(n.extra_before, DeployStep::ExtraBefore) + file_steps(n.uploads as nat) + step_if(
            n.items,
            DeployStep::Items,
        ) + (if n.svcs {
            seq![DeployStep::Svcs, DeployStep::WaitSvcs]
        } else {
            Seq::empty()
        }) + step_if(n.acls, DeployStep::Acls) + step_if(n.keys, DeployStep::Keys) + step_if(
            n.users,
            DeployStep::Users,
        ) + step_if(n.sources, DeployStep::Sources) + step_if(n.extra_after, DeployStep::ExtraAfter)
    } else {
        step_if(n.extra_before, DeployStep::ExtraBefore) + step_if(n.items, DeployStep::Items)
            + step_if(n.sources, DeployStep::Sources) + step_if(n.users, DeployStep::Users)
            + step_if(n.keys, DeployStep::Keys) + step_if(n.acls, DeployStep::Acls) + step_if(
            n.svcs,
            DeployStep::Svcs,
        ) + file_steps(n.uploads as nat) + step_if(n.extra_after, DeployStep::ExtraAfter)
    }
}

fn push_if(v: &mut Vec<DeployStep>, present: bool, step: DeployStep)
    ensures
        final(v)@ == old(v)@ + step_if(present, step),
{
    if present {
        v.push(step);
    } else {
        assert(old(v)@ + step_if(present, step) =~= old(v)@);
    }
}

fn push_files(v: &mut Vec<DeployStep>, n: usize)
    ensures
        final(v)@ == old(v)@ + file_steps(n as nat),
{
    let mut i: usize = 0;
    while i < n
        invariant
            i <= n,
            v@ == old(v)@ + file_steps(i as nat),
        decreases n - i,
    {
        let ghost before = v@;
        v.push(DeployStep::File(i));
        i = i + 1;
        assert(v@ =~= old(v)@ + file_steps(i as nat));
    }
}

/// The calls made for a node, in order.
pub fn node_steps(n: &NodeSection, deploy: bool) -> (r: Vec<DeployStep>)
    ensures
        r@ == node_steps_spec(*n, deploy),
{
    let mut v: Vec<DeployStep> = Vec::new();
    push_if(&mut v, n.extra_before, DeployStep::ExtraBefore);
    if deploy {
        push_files(&mut v, n.uploads);
        push_if(&mut v, n.items, DeployStep::Items);
        let ghost before = v@;
        if n.svcs {
            v.push(DeployStep::Svcs);
            v.push(DeployStep::WaitSvcs);
            assert(v@ =~= before + seq![DeployStep::Svcs, DeployStep::WaitSvcs]);
        } else {
            assert(v@ =~= before + Seq::<DeployStep>::empty());
        }
        push_if(&mut v, n.acls, DeployStep::Acls);
        push_if(&mut v, n.keys, DeployStep::Keys);
        push_if(&mut v, n.users, DeployStep::Users);
        push_if(&mut v, n.sources, DeployStep::Sources);
    } else {
        push_if(&mut v, n.items, DeployStep::Items);
        push_if(&mut v, n.sources, DeployStep::Sources);
        push_if(&mut v, n.users, DeployStep::Users);
        push_if(&mut v, n.keys, DeployStep::Keys);
        push_if(&mut v, n.acls, DeployStep::Acls);
        push_if(&mut v, n.svcs, DeployStep::Svcs);
        push_files(&mut v, n.uploads);
    }
    push_if(&mut v, n.extra_after, DeployStep::ExtraAfter);
    assert(v@ =~= node_steps_spec(*n, deploy));
    v
}

/// The order the nodes are gone through: as listed to deploy, the other
/// way round to undeploy.
pub fn node_order(count: usize, deploy: bool) -> (r: Vec<usize>)
    ensures
        r@.len() == count,
        forall|i: int|
            0 <= i < count ==> #[trigger] r@[i] == (if deploy {
                i
            } else {
                count - 1 - i
            }),
{
    let mut r: Vec<usize> = Vec::new();
    let mut i: usize = 0;
    while i < count
        invariant
            i <= count,
            r@.len() == i,
            forall|j: int|
                0 <= j < i ==> #[trigger] r@[j] == (if deploy {
                    j
                } else {
                    count - 1 - j
                }),
        decreases count - i,
    {
        if deploy {
            r.push(i);
        } else {
            r.push(count - 1 - i);
        }
        i = i + 1;
    }
    r
}

/// The services tested before a deployment, each once and sorted by name
/// with the method it is tested by: where several resources name the same
/// service, the last one wins, in the order files, ACLs, keys, users,
/// generator sources.
pub open spec fn test_inserts(
    upload_svcs: Seq<Seq<char>>,
    acl_svc: Option<Seq<char>>,
    key_svc: Option<Seq<char>>,
    user_svc: Option<Seq<char>>,
    source_svc: Option<Seq<char>>,
) -> Seq<(Seq<char>, Seq<char>)> {
    upload_svcs.map_values(|s: Seq<char>| (s, "test"@)) + opt_pair(acl_svc, "acl.deploy"@)
        + opt_pair(key_svc, "key.deploy"@) + opt_pair(user_svc, "user.deploy"@) + opt_pair(
        source_svc,
        "source.deploy"@,
    )
}

/// The service and method, where the resource is set.
pub open spec fn opt_pair(svc: Option<Seq<char>>, method: Seq<char>) -> Seq<(Seq<char>, Seq<char>)> {
    match svc {
        Some(s) => seq![(s, method)],
        None => Seq::empty(),
    }
}

/// The map that the inserts leave, sorted by name.
pub open spec fn inserted(s: Seq<(Seq<char>, Seq<char>)>) -> Seq<(Seq<char>, Seq<char>)>
    decreases s.len(),
{
    if s.len() == 0 {
        Seq::empty()
    } else {
        params_insert(inserted(s.drop_last()), s.last().0, s.last().1)
    }
}

/// The entries whose service is not among those the node deploys.
pub open spec fn not_deployed(m: Seq<(Seq<char>, Seq<char>)>, deployed: Seq<Seq<char>>) -> Seq<
    (Seq<char>, Seq<char>),
>
    decreases m.len(),
{
    if m.len() == 0 {
        Seq::empty()
    } else if deployed.contains(m.last().0) {
        not_deployed(m.drop_last(), deployed)
    } else {
        not_deployed(m.drop_last(), deployed).push(m.last())
    }
}

fn insert_all(m: &mut Vec<(String, String)>, items: Vec<(String, String)>)
    ensures
        pairs_view(final(m)@) == inserted_from(pairs_view(old(m)@), pairs_view(items@)),
{
    let ghost start = pairs_view(m@);
    let mut i: usize = 0;
    while i < items.len()
        invariant
            i <= items@.len(),
            pairs_view(m@) == inserted_from(start, pairs_view(items@).take(i as int)),
        decreases items@.len() - i,
    {
        let (k, v) = (items[i].0.clone(), items[i].1.clone());
        set_param(m, k, v);
        proof {
            let t = pairs_view(items@).take(i + 1);
            assert(t.drop_last() =~= pairs_view(items@).take(i as int));
            assert(t.last() == (items@[i as int].0@, items@[i as int].1@));
        }
        i = i + 1;
    }
    assert(pairs_view(items@).take(items@.len() as int) =~= pairs_view(items@));
}

/// `m` after the inserts `s`, in order.
pub open spec fn inserted_from(m: Seq<(Seq<char>, Seq<char>)>, s: Seq<(Seq<char>, Seq<char>)>) -> Seq<
    (Seq<char>, Seq<char>),
>
    decreases s.len(),
{
    if s.len() == 0 {
        m
    } else {
        params_insert(inserted_from(m, s.drop_last()), s.last().0, s.last().1)
    }
}

proof fn lemma_inserted_from_empty(s: Seq<(Seq<char>, Seq<char>)>)
    ensures
        inserted_from(Seq::empty(), s) == inserted(s),
    decreases s.len(),
{
    if s.len() > 0 {
        lemma_inserted_from_empty(s.drop_last());
    }
}

fn has_text(v: &Vec<String>, s: &str) -> (r: bool)
    ensures
        r == v@.map_values(|x: String| x@).contains(s@),
{
    let ghost vv = v@.map_values(|x: String| x@);
    let mut i: usize = 0;
    while i < v.len()
        invariant
            i <= v@.len(),
            vv == v@.map_values(|x: String| x@),
            forall|j: int| 0 <= j < i ==> vv[j] != s@,
        decreases v@.len() - i,
    {
        if str_eq(v[i].as_str(), s) {
            assert(vv[i as int] == s@);
            return true;
        }
        i = i + 1;
    }
    false
}

/// The services to test before a deployment and the methods they are
/// tested by (`test`, or the deployment method of the resource with no
/// resources), sorted by name, without the services that the node deploys
/// itself.
pub fn services_to_test(
    upload_svcs: &Vec<String>,
    acl_svc: Option<String>,
    key_svc: Option<String>,
    user_svc: Option<String>,
    source_svc: Option<String>,
    deployed: &Vec<String>,
) -> (r: Vec<(String, String)>)
    ensures
        pairs_view(r@) == not_deployed(
            inserted(
                test_inserts(
                    upload_svcs@.map_values(|x: String| x@),
                    crate::apilog::opt_view(acl_svc),
                    crate::apilog::opt_view(key_svc),
                    crate::apilog::opt_view(user_svc),
                    crate::apilog::opt_view(source_svc),
                ),
            ),
            deployed@.map_values(|x: String| x@),
        ),
{
    let ghost ins = test_inserts(
        upload_svcs@.map_values(|x: String| x@),
        crate::apilog::opt_view(acl_svc),
        crate::apilog::opt_view(key_svc),
        crate::apilog::opt_view(user_svc),
        crate::apilog::opt_view(source_svc),
    );
    let mut items: Vec<(String, String)> = Vec::new();
    let mut i: usize = 0;
    while i < upload_svcs.len()
        invariant
            i <= upload_svcs@.len(),
            pairs_view(items@) == upload_svcs@.map_values(|x: String| x@).take(i as int).map_values(
                |s: Seq<char>| (s, "test"@),
            ),
        decreases upload_svcs@.len() - i,
    {
        let ghost before = items@;
        let name = upload_svcs[i].clone();
        let t = "test".to_string();
        assert(name@ == upload_svcs@[i as int]@);
        items.push((name, t));
        assert(pairs_view(items@) =~= pairs_view(before).push((upload_svcs@[i as int]@, "test"@)));
        assert(upload_svcs@.map_values(|x: String| x@).take(i + 1).map_values(
            |s: Seq<char>| (s, "test"@),
        ) =~= upload_svcs@.map_values(|x: String| x@).take(i as int).map_values(
            |s: Seq<char>| (s, "test"@),
        ).push((upload_svcs@[i as int]@, "test"@)));
        i = i + 1;
    }
    assert(upload_svcs@.map_values(|x: String| x@).take(upload_svcs@.len() as int) =~= upload_svcs@.map_values(
        |x: String| x@,
    ));
    push_opt(&mut items, acl_svc, "acl.deploy");
    push_opt(&mut items, key_svc, "key.deploy");
    push_opt(&mut items, user_svc, "user.deploy");
    push_opt(&mut items, source_svc, "source.deploy");
    assert(pairs_view(items@) =~= ins);
    let mut m: Vec<(String, String)> = Vec::new();
    assert(pairs_view(m@) =~= Seq::<(Seq<char>, Seq<char>)>::empty());
    insert_all(&mut m, items);
    proof {
        lemma_inserted_from_empty(ins);
    }
    let ghost mv = pairs_view(m@);
    let ghost dv = deployed@.map_values(|x: String| x@);
    let mut r: Vec<(String, String)> = Vec::new();
    let mut j: usize = 0;
    while j < m.len()
        invariant
            j <= m@.len(),
            mv == pairs_view(m@),
            dv == deployed@.map_values(|x: String| x@),
            pairs_view(r@) == not_deployed(mv.take(j as int), dv),
        decreases m@.len() - j,
    {
        assert(mv.take(j + 1).drop_last() =~= mv.take(j as int));
        assert(mv.take(j + 1).last() == (m@[j as int].0@, m@[j as int].1@));
        if !has_text(deployed, m[j].0.as_str()) {
            let ghost before = r@;
            r.push((m[j].0.clone(), m[j].1.clone()));
            assert(pairs_view(r@) =~= pairs_view(before).push(mv[j as int]));
        }
        j = j + 1;
    }
    assert(mv.take(m@.len() as int) =~= mv);
    r
}

fn push_opt(items: &mut Vec<(String, String)>, svc: Option<String>, method: &str)
    ensures
        pairs_view(final(items)@) == pairs_view(old(items)@) + opt_pair(crate::apilog::opt_view(svc), method@),
{
    match svc {
        Some(s) => {
            let ghost before = items@;
            items.push((s, method.to_string()));
            assert(pairs_view(items@) =~= pairs_view(before).push((s@, method@)));
        },
        None => {
            assert(pairs_view(items@) =~= pairs_view(items@) + Seq::<(Seq<char>, Seq<char>)>::empty());
        },
    }
}

/// Whether a deployed service has started: it is online with a process.
pub fn svc_started(status: &str, has_pid: bool) -> (r: bool)
    ensures
        r == (status@ == "online"@ && has_pid),
{
    str_eq(status, "online") && has_pid
}

proof fn lemma_contains_concat(a: Seq<DeployStep>, b: Seq<DeployStep>, x: DeployStep)
    ensures
        (a + b).contains(x) <==> a.contains(x) || b.contains(x),
{
    if a.contains(x) {
        let i = choose|i: int| 0 <= i < a.len() && a[i] == x;
        assert((a + b)[i] == x);
    }
    if b.contains(x) {
        let i = choose|i: int| 0 <= i < b.len() && b[i] == x;
        assert((a + b)[a.len() + i] == x);
    }
    if (a + b).contains(x) {
        let i = choose|i: int| 0 <= i < (a + b).len() && (a + b)[i] == x;
        if i < a.len() {
            assert(a[i] == x);
        } else {
            assert(b[i - a.len()] == x);
        }
    }
}

/// Undeploying a node makes the calls that deploying it makes, the wait
/// for services aside: each resource, file and extra task that one
/// direction handles, the other handles too.
pub proof fn law_undeploy_mirrors_deploy(n: NodeSection, step: DeployStep)
    requires
        step != DeployStep::WaitSvcs,
    ensures
        node_steps_spec(n, true).contains(step) <==> node_steps_spec(n, false).contains(step),
{
    let eb = step_if(n.extra_before, DeployStep::ExtraBefore);
    let f = file_steps(n.uploads as nat);
    let it = step_if(n.items, DeployStep::Items);
    let sv2 = if n.svcs {
        seq![DeployStep::Svcs, DeployStep::WaitSvcs]
    } else {
        Seq::empty()
    };
    let sv = step_if(n.svcs, DeployStep::Svcs);
    let ac = step_if(n.acls, DeployStep::Acls);
    let ke = step_if(n.keys, DeployStep::Keys);
    let us = step_if(n.users, DeployStep::Users);
    let so = step_if(n.sources, DeployStep::Sources);
    let ea = step_if(n.extra_after, DeployStep::ExtraAfter);
    let d = node_steps_spec(n, true);
    let u = node_steps_spec(n, false);
    assert(d == eb + f + it + sv2 + ac + ke + us + so + ea);
    assert(u == eb + it + so + us + ke + ac + sv + f + ea);
    lemma_contains_concat(eb, f, step);
    lemma_contains_concat(eb + f, it, step);
    lemma_contains_concat(eb + f + it, sv2, step);
    lemma_contains_concat(eb + f + it + sv2, ac, step);
    lemma_contains_concat(eb + f + it + sv2 + ac, ke, step);
    lemma_contains_concat(eb + f + it + sv2 + ac + ke, us, step);
    lemma_contains_concat(eb + f + it + sv2 + ac + ke + us, so, step);
    lemma_contains_concat(eb + f + it + sv2 + ac + ke + us + so, ea, step);
    lemma_contains_concat(eb, it, step);
    lemma_contains_concat(eb + it, so, step);
    lemma_contains_concat(eb + it + so, us, step);
    lemma_contains_concat(eb + it + so + us, ke, step);
    lemma_contains_concat(eb + it + so + us + ke, ac, step);
    lemma_contains_concat(eb + it + so + us + ke + ac, sv, step);
    lemma_contains_concat(eb + it + so + us + ke + ac + sv, f, step);
    lemma_contains_concat(eb + it + so + us + ke + ac + sv + f, ea, step);
    if n.svcs {
        assert(sv2.contains(step) <==> sv.contains(step)) by {
            if sv2.contains(step) {
                let i = choose|i: int| 0 <= i < sv2.len() && sv2[i] == step;
                assert(i == 0);
                assert(sv[0] == step);
            }
            if sv.contains(step) {
                assert(sv2[0] == step);
            }
        }
    } else {
        assert(sv2 =~= sv);
    }
}


/// The place of a call in a deployment: extra tasks first, then files,
/// items, services and the wait for them, ACLs, keys, users, generator
/// sources, and extra tasks last.
pub open spec fn deploy_rank(x: DeployStep) -> int {
    match x {
        DeployStep::ExtraBefore => 0,
        DeployStep::File(_) => 1,
        DeployStep::Items => 2,
        DeployStep::Svcs => 3,
        DeployStep::WaitSvcs => 4,
        DeployStep::Acls => 5,
        DeployStep::Keys => 6,
        DeployStep::Users => 7,
        DeployStep::Sources => 8,
        DeployStep::ExtraAfter => 9,
    }
}

/// The place of a call in an undeployment: extra tasks first, then items,
/// generator sources, users, keys, ACLs, services, files, and extra tasks
/// last.
pub open spec fn undeploy_rank(x: DeployStep) -> int {
    match x {
        DeployStep::ExtraBefore => 0,
        DeployStep::Items => 1,
        DeployStep::Sources => 2,
        DeployStep::Users => 3,
        DeployStep::Keys => 4,
        DeployStep::Acls => 5,
        DeployStep::Svcs => 6,
        DeployStep::WaitSvcs => 6,
        DeployStep::File(_) => 7,
        DeployStep::ExtraAfter => 8,
    }
}

/// Whether the calls come in the order of their places.
pub open spec fn in_rank_order(s: Seq<DeployStep>, r: spec_fn(DeployStep) -> int) -> bool {
    forall|i: int, j: int| 0 <= i < j < s.len() ==> r(#[trigger] s[i]) <= r(#[trigger] s[j])
}

pub open spec fn ranks_within(s: Seq<DeployStep>, r: spec_fn(DeployStep) -> int, lo: int, hi: int) -> bool {
    forall|i: int| 0 <= i < s.len() ==> lo <= r(#[trigger] s[i]) <= hi
}

proof fn lemma_ranked_concat(
    a: Seq<DeployStep>,
    b: Seq<DeployStep>,
    r: spec_fn(DeployStep) -> int,
    ahi: int,
    blo: int,
    bhi: int,
    k: int,
    x: DeployStep,
)
    requires
        in_rank_order(a, r),
        in_rank_order(b, r),
        ranks_within(a, r, 0, ahi),
        ranks_within(b, r, blo, bhi),
        0 <= ahi <= blo <= bhi,
        0 <= k <= a.len(),
        forall|i: int| k <= i < a.len() ==> a[i] != x,
        forall|j: int| 0 <= j < b.len() ==> b[j] != x,
    ensures
        in_rank_order(a + b, r),
        ranks_within(a + b, r, 0, bhi),
        forall|i: int| k <= i < (a + b).len() ==> (a + b)[i] != x,
{
    let c = a + b;
    assert forall|i: int, j: int| 0 <= i < j < c.len() implies r(#[trigger] c[i]) <= r(#[trigger] c[j]) by {
        if j < a.len() {
            assert(c[i] == a[i] && c[j] == a[j]);
        } else if i >= a.len() {
            assert(c[i] == b[i - a.len()] && c[j] == b[j - a.len()]);
        } else {
            assert(c[i] == a[i] && c[j] == b[j - a.len()]);
        }
    }
    assert forall|i: int| 0 <= i < c.len() implies 0 <= r(#[trigger] c[i]) <= bhi by {
        if i < a.len() {
            assert(c[i] == a[i]);
        } else {
            assert(c[i] == b[i - a.len()]);
        }
    }
    assert forall|i: int| k <= i < c.len() implies c[i] != x by {
        if i < a.len() {
            assert(c[i] == a[i]);
        } else {
            assert(c[i] == b[i - a.len()]);
        }
    }
}

proof fn lemma_single_ranked(p: bool, y: DeployStep, r: spec_fn(DeployStep) -> int)
    ensures
        in_rank_order(step_if(p, y), r),
        ranks_within(step_if(p, y), r, r(y), r(y)),
{
}

proof fn lemma_files_ranked(n: nat, r: spec_fn(DeployStep) -> int, k: int)
    requires
        forall|u: usize| #[trigger] r(DeployStep::File(u)) == k,
    ensures
        in_rank_order(file_steps(n), r),
        ranks_within(file_steps(n), r, k, k),
{
    let f = file_steps(n);
    assert forall|i: int| 0 <= i < f.len() implies k <= r(#[trigger] f[i]) <= k by {
        assert(f[i] == DeployStep::File(i as usize));
    }
    assert forall|i: int, j: int| 0 <= i < j < f.len() implies r(#[trigger] f[i]) <= r(#[trigger] f[j]) by {
        assert(f[i] == DeployStep::File(i as usize));
        assert(f[j] == DeployStep::File(j as usize));
    }
}

/// What the order of a node's calls gives for its extra tasks: given the
/// calls as the calls before the tasks to run after, then those tasks.
proof fn lemma_extras_placed(
    n: NodeSection,
    s: Seq<DeployStep>,
    prefix: Seq<DeployStep>,
)
    requires
        s == prefix + step_if(n.extra_after, DeployStep::ExtraAfter),
        forall|i: int| 0 <= i < prefix.len() ==> prefix[i] != DeployStep::ExtraAfter,
        n.extra_before ==> s.len() > 0 && s[0] == DeployStep::ExtraBefore,
        forall|i: int|
            (if n.extra_before { 1int } else { 0int }) <= i < s.len() ==> s[i]
                != DeployStep::ExtraBefore,
    ensures
        n.extra_after ==> s.len() > 0 && s[s.len() - 1] == DeployStep::ExtraAfter && forall|i: int|
            0 <= i < s.len() - 1 ==> s[i] != DeployStep::ExtraAfter,
        !n.extra_after ==> !s.contains(DeployStep::ExtraAfter),
        n.extra_before ==> s.len() > 0 && s[0] == DeployStep::ExtraBefore && forall|i: int|
            1 <= i < s.len() ==> s[i] != DeployStep::ExtraBefore,
        !n.extra_before ==> !s.contains(DeployStep::ExtraBefore),
{
    if n.extra_after {
        assert(s[s.len() - 1] == DeployStep::ExtraAfter);
        assert forall|i: int| 0 <= i < s.len() - 1 implies s[i] != DeployStep::ExtraAfter by {
            assert(s[i] == prefix[i]);
        }
    } else {
        assert(s =~= prefix);
        if s.contains(DeployStep::ExtraAfter) {
            let i = choose|i: int| 0 <= i < s.len() && s[i] == DeployStep::ExtraAfter;
            assert(prefix[i] != DeployStep::ExtraAfter);
        }
    }
    if !n.extra_before {
        if s.contains(DeployStep::ExtraBefore) {
            let i = choose|i: int| 0 <= i < s.len() && s[i] == DeployStep::ExtraBefore;
            assert(s[i] != DeployStep::ExtraBefore);
        }
    }
}

proof fn lemma_svcs_ranked(svcs: bool)
    ensures
        ({
            let sv2 = if svcs {
                seq![DeployStep::Svcs, DeployStep::WaitSvcs]
            } else {
                Seq::empty()
            };
            in_rank_order(sv2, |y: DeployStep| deploy_rank(y)) && ranks_within(
                sv2,
                |y: DeployStep| deploy_rank(y),
                3,
                4,
            )
        }),
{
}

#[verifier::spinoff_prover]
#[verifier::rlimit(100)]
proof fn lemma_deploy_steps_order(n: NodeSection)
    ensures
        in_rank_order(node_steps_spec(n, true), |x: DeployStep| deploy_rank(x)),
        ({
            let s = node_steps_spec(n, true);
            &&& n.extra_after ==> s.len() > 0 && s[s.len() - 1] == DeployStep::ExtraAfter && forall|i: int|
                0 <= i < s.len() - 1 ==> s[i] != DeployStep::ExtraAfter
            &&& !n.extra_after ==> !s.contains(DeployStep::ExtraAfter)
            &&& n.extra_before ==> s.len() > 0 && s[0] == DeployStep::ExtraBefore && forall|i: int|
                1 <= i < s.len() ==> s[i] != DeployStep::ExtraBefore
            &&& !n.extra_before ==> !s.contains(DeployStep::ExtraBefore)
        }),
{
    let eb = step_if(n.extra_before, DeployStep::ExtraBefore);
    let f = file_steps(n.uploads as nat);
    let it = step_if(n.items, DeployStep::Items);
    let sv2 = if n.svcs {
        seq![DeployStep::Svcs, DeployStep::WaitSvcs]
    } else {
        Seq::empty()
    };
    let ac = step_if(n.acls, DeployStep::Acls);
    let ke = step_if(n.keys, DeployStep::Keys);
    let us = step_if(n.users, DeployStep::Users);
    let so = step_if(n.sources, DeployStep::Sources);
    let ea = step_if(n.extra_after, DeployStep::ExtraAfter);
    let x = DeployStep::ExtraBefore;
    let k = eb.len() as int;
    let r = |y: DeployStep| deploy_rank(y);
    let s = node_steps_spec(n, true);
    lemma_single_ranked(n.extra_before, x, r);
    lemma_single_ranked(n.items, DeployStep::Items, r);
    lemma_single_ranked(n.acls, DeployStep::Acls, r);
    lemma_single_ranked(n.keys, DeployStep::Keys, r);
    lemma_single_ranked(n.users, DeployStep::Users, r);
    lemma_single_ranked(n.sources, DeployStep::Sources, r);
    lemma_single_ranked(n.extra_after, DeployStep::ExtraAfter, r);
    lemma_files_ranked(n.uploads as nat, r, 1);
    lemma_svcs_ranked(n.svcs);
    let a1 = eb + f;
    let a2 = a1 + it;
    let a3 = a2 + sv2;
    let a4 = a3 + ac;
    let a5 = a4 + ke;
    let a6 = a5 + us;
    let a7 = a6 + so;
    assert(s == a7 + ea);
    lemma_ranked_concat(eb, f, r, 0, 1, 1, k, x);
    lemma_ranked_concat(a1, it, r, 1, 2, 2, k, x);
    lemma_ranked_concat(a2, sv2, r, 2, 3, 4, k, x);
    lemma_ranked_concat(a3, ac, r, 4, 5, 5, k, x);
    lemma_ranked_concat(a4, ke, r, 5, 6, 6, k, x);
    lemma_ranked_concat(a5, us, r, 6, 7, 7, k, x);
    lemma_ranked_concat(a6, so, r, 7, 8, 8, k, x);
    lemma_ranked_concat(a7, ea, r, 8, 9, 9, k, x);
    assert forall|i: int| 0 <= i < a7.len() implies a7[i] != DeployStep::ExtraAfter by {
        assert(0 <= r(a7[i]) <= 8);
    }
    if n.extra_before {
        assert(s[0] == eb[0]);
    }
    lemma_extras_placed(n, s, a7);
}

#[verifier::spinoff_prover]
#[verifier::rlimit(50)]
proof fn lemma_undeploy_steps_order(n: NodeSection)
    ensures
        in_rank_order(node_steps_spec(n, false), |x: DeployStep| undeploy_rank(x)),
        ({
            let s = node_steps_spec(n, false);
            &&& n.extra_after ==> s.len() > 0 && s[s.len() - 1] == DeployStep::ExtraAfter && forall|i: int|
                0 <= i < s.len() - 1 ==> s[i] != DeployStep::ExtraAfter
            &&& !n.extra_after ==> !s.contains(DeployStep::ExtraAfter)
            &&& n.extra_before ==> s.len() > 0 && s[0] == DeployStep::ExtraBefore && forall|i: int|
                1 <= i < s.len() ==> s[i] != DeployStep::ExtraBefore
            &&& !n.extra_before ==> !s.contains(DeployStep::ExtraBefore)
        }),
{
    let eb = step_if(n.extra_before, DeployStep::ExtraBefore);
    let f = file_steps(n.uploads as nat);
    let it = step_if(n.items, DeployStep::Items);
    let sv = step_if(n.svcs, DeployStep::Svcs);
    let ac = step_if(n.acls, DeployStep::Acls);
    let ke = step_if(n.keys, DeployStep::Keys);
    let us = step_if(n.users, DeployStep::Users);
    let so = step_if(n.sources, DeployStep::Sources);
    let ea = step_if(n.extra_after, DeployStep::ExtraAfter);
    let x = DeployStep::ExtraBefore;
    let k = eb.len() as int;
    let r = |y: DeployStep| undeploy_rank(y);
    let s = node_steps_spec(n, false);
    lemma_single_ranked(n.extra_before, x, r);
    lemma_single_ranked(n.items, DeployStep::Items, r);
    lemma_single_ranked(n.svcs, DeployStep::Svcs, r);
    lemma_single_ranked(n.acls, DeployStep::Acls, r);
    lemma_single_ranked(n.keys, DeployStep::Keys, r);
    lemma_single_ranked(n.users, DeployStep::Users, r);
    lemma_single_ranked(n.sources, DeployStep::Sources, r);
    lemma_single_ranked(n.extra_after, DeployStep::ExtraAfter, r);
    lemma_files_ranked(n.uploads as nat, r, 7);
    let a1 = eb + it;
    let a2 = a1 + so;
    let a3 = a2 + us;
    let a4 = a3 + ke;
    let a5 = a4 + ac;
    let a6 = a5 + sv;
    let a7 = a6 + f;
    assert(s == a7 + ea);
    lemma_ranked_concat(eb, it, r, 0, 1, 1, k, x);
    lemma_ranked_concat(a1, so, r, 1, 2, 2, k, x);
    lemma_ranked_concat(a2, us, r, 2, 3, 3, k, x);
    lemma_ranked_concat(a3, ke, r, 3, 4, 4, k, x);
    lemma_ranked_concat(a4, ac, r, 4, 5, 5, k, x);
    lemma_ranked_concat(a5, sv, r, 5, 6, 6, k, x);
    lemma_ranked_concat(a6, f, r, 6, 7, 7, k, x);
    lemma_ranked_concat(a7, ea, r, 7, 8, 8, k, x);
    assert forall|i: int| 0 <= i < a7.len() implies a7[i] != DeployStep::ExtraAfter by {
        assert(0 <= r(a7[i]) <= 7);
    }
    if n.extra_before {
        assert(s[0] == eb[0]);
    }
    lemma_extras_placed(n, s, a7);
}

/// The order of a node's calls: deploying, they come in the order of
/// [`deploy_rank`], undeploying in that of [`undeploy_rank`]; either way
/// the tasks to run before come first and only there, and the tasks to
/// run after come last and only there: nothing is deployed or removed
/// after them.
pub proof fn law_node_steps_order(n: NodeSection, deploy: bool)
    ensures
        deploy ==> in_rank_order(node_steps_spec(n, deploy), |x: DeployStep| deploy_rank(x)),
        !deploy ==> in_rank_order(node_steps_spec(n, deploy), |x: DeployStep| undeploy_rank(x)),
        ({
            let s = node_steps_spec(n, deploy);
            &&& n.extra_after ==> s.len() > 0 && s[s.len() - 1] == DeployStep::ExtraAfter && forall|i: int|
                0 <= i < s.len() - 1 ==> s[i] != DeployStep::ExtraAfter
            &&& !n.extra_after ==> !s.contains(DeployStep::ExtraAfter)
            &&& n.extra_before ==> s.len() > 0 && s[0] == DeployStep::ExtraBefore && forall|i: int|
                1 <= i < s.len() ==> s[i] != DeployStep::ExtraBefore
            &&& !n.extra_before ==> !s.contains(DeployStep::ExtraBefore)
        }),
{
    if deploy {
        lemma_deploy_steps_order(n);
    } else {
        lemma_undeploy_steps_order(n);
    }
}

/// Every node of a deployment must be online before anything is done.
pub fn check_node_online(node: &str, online: bool) -> (r: Result<(), DeployError>)
    ensures
        online ==> r is Ok,
        !online ==> (r matches Err(DeployError::NodeOffline(n)) && n@ == node@),
{
    if online {
        Ok(())
    } else {
        Err(DeployError::NodeOffline(node.to_owned()))
    }
}

/// Where the content of an uploaded file comes from.
pub enum UploadContent {
    /// a local file, with its permission bits
    Local(Vec<u8>, u32),
    /// a file fetched from a URL by the manager
    Fetched(Vec<u8>),
    /// text given in the deployment file
    Text(String),
    /// a URL that the node fetches itself
    Url(String),
}

/// The parameters of a `file.put` call.
pub struct FilePut {
    /// the bytes sent: the content, or the URL for the node to fetch
    pub content: Vec<u8>,
    pub permissions: Option<u32>,
    /// the SHA-256 digest of the content sent, where the node gets content
    pub sha256: Option<Vec<u8>>,
    /// whether the node fetches the URL it is sent
    pub download: bool,
}

/// The model of [`FilePut`].
pub struct FilePutModel {
    pub content: Seq<u8>,
    pub permissions: Option<u32>,
    pub sha256: Option<Seq<u8>>,
    pub download: bool,
}

pub open spec fn file_put_view(p: FilePut) -> FilePutModel {
    FilePutModel {
        content: p.content@,
        permissions: p.permissions,
        sha256: match p.sha256 {
            Some(h) => Some(h@),
            None => None,
        },
        download: p.download,
    }
}

/// The `file.put` parameters of an upload: the permissions set in the
/// deployment file win over a local file's own; content that is sent goes
/// with its digest, and a URL that the node fetches goes without one.
pub open spec fn file_put_spec(
    content: UploadContent,
    permissions: Option<u32>,
) -> FilePutModel {
    let bytes = match content {
        UploadContent::Local(b, _) => b@,
        UploadContent::Fetched(b) => b@,
        UploadContent::Text(t) => encode_utf8(t@),
        UploadContent::Url(u) => encode_utf8(u@),
    };
    let own = match content {
        UploadContent::Local(_, m) => Some(m),
        _ => None,
    };
    let download = content is Url;
    FilePutModel {
        content: bytes,
        permissions: if permissions is Some {
            permissions
        } else {
            own
        },
        sha256: if download {
            None
        } else {
            Some(sha256(bytes))
        },
        download,
    }
}

/// Builds the `file.put` parameters of an upload.
pub fn file_put_params(content: UploadContent, permissions: Option<u32>) -> (r: FilePut)
    ensures
        file_put_view(r) == file_put_spec(content, permissions),
{
    let ghost c = content;
    let (bytes, own, download): (Vec<u8>, Option<u32>, bool) = match content {
        UploadContent::Local(b, m) => (b, Some(m), false),
        UploadContent::Fetched(b) => (b, None, false),
        UploadContent::Text(t) => (slice_to_vec(t.as_str().as_bytes()), None, false),
        UploadContent::Url(u) => (slice_to_vec(u.as_str().as_bytes()), None, true),
    };
    let perms = match permissions {
        Some(p) => Some(p),
        None => own,
    };
    let sha = if download {
        None
    } else {
        Some(sha256_digest(bytes.as_slice()))
    };
    FilePut { content: bytes, permissions: perms, sha256: sha, download }
}

} // verus!
