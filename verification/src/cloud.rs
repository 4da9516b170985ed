//! Decisions of the cloud manager's update commands: which nodes and
//! s-points a cloud update covers, how their outcomes are recorded and
//! reported, whether a node updates itself to an offered build, and which
//! files a repository mirror holds.
use crate::decimal::{nat_text, parse_u64, push_u64, unsigned_text_value};
use crate::paths::{file_name, path_file_name, paths_equal, same_path};
use crate::text::{
    chars_of, chars_eq, find_char, find_first, has_prefix, lemma_find_first, push_str, split_once,
    str_eq, string_of, sub_chars, trim_chars, trim_text,
};
use vstd::prelude::*;

verus! {

/// Why an update command was refused.
#[derive(PartialEq, Eq, Structural, Copy, Clone, Debug)]
pub enum UpdateError {
    /// give either nodes to update or `--all`
    NodesOrAll,
    /// the forced version names no build
    NoBuild,
    /// the forced build is not a number
    InvalidBuild,
}

/// Whether a text is one of the names that stand for every node.
pub open spec fn is_wildcard(n: Seq<char>) -> bool {
    n == "#"@ || n == "*"@
}

/// The node that a request `node/s-point` is for.
pub open spec fn spoint_node_of(n: Seq<char>) -> Option<Seq<char>> {
    match find_first(n, '/') {
        Some(i) => Some(n.take(i)),
        None => None,
    }
}

/// What a cloud update asks for: every node, or the nodes and s-points
/// named.
pub struct UpdateRequest {
    update_all: bool,
    requested: Vec<String>,
    spoint_nodes: Vec<String>,
}

/// The model of an [`UpdateRequest`].
pub struct UpdateRequestModel {
    pub update_all: bool,
    pub requested: Seq<Seq<char>>,
    pub spoint_nodes: Seq<Seq<char>>,
}

pub open spec fn strings_view(v: Seq<String>) -> Seq<Seq<char>> {
    v.map_values(|s: String| s@)
}

impl View for UpdateRequest {
    type V = UpdateRequestModel;

    closed spec fn view(&self) -> UpdateRequestModel {
        UpdateRequestModel {
            update_all: self.update_all,
            requested: strings_view(self.requested@),
            spoint_nodes: strings_view(self.spoint_nodes@),
        }
    }
}

/// The nodes named by the `node/s-point` requests, in order.
pub open spec fn spoint_nodes_of(names: Seq<Seq<char>>) -> Seq<Seq<char>>
    decreases names.len(),
{
    if names.len() == 0 {
        Seq::empty()
    } else {
        let prev = spoint_nodes_of(names.drop_last());
        match spoint_node_of(names.last()) {
            Some(n) => prev.push(n),
            None => prev,
        }
    }
}

/// The request that the arguments make, or their refusal.
pub open spec fn request_of(nodes: Seq<Seq<char>>, all: bool) -> Result<UpdateRequestModel, UpdateError> {
    if (nodes.len() == 0 && !all) || (nodes.len() > 0 && all) {
        Err(UpdateError::NodesOrAll)
    } else {
        Ok(UpdateRequestModel {
            update_all: all || exists|i: int| 0 <= i < nodes.len() && is_wildcard(#[trigger] nodes[i]),
            requested: nodes,
            spoint_nodes: spoint_nodes_of(nodes),
        })
    }
}

fn holds(v: &Vec<String>, x: &str) -> (r: bool)
    ensures
        r == strings_view(v@).contains(x@),
{
    let mut i: usize = 0;
    while i < v.len()
        invariant
            i <= v.len(),
            forall|j: int| 0 <= j < i ==> #[trigger] v@[j]@ != x@,
        decreases v.len() - i,
    {
        if str_eq(v[i].as_str(), x) {
            assert(strings_view(v@)[i as int] == x@);
            return true;
        }
        i = i + 1;
    }
    assert forall|j: int| 0 <= j < strings_view(v@).len() implies strings_view(v@)[j] != x@ by {
        assert(strings_view(v@)[j] == v@[j]@);
    }
    false
}

impl UpdateRequest {
    /// The request that the command's arguments make: the nodes (or
    /// `node/s-point` pairs) named, or `--all`; `#` or `*` among the names
    /// also asks for every node.
    pub fn new(nodes: &Vec<String>, all: bool) -> (r: Result<UpdateRequest, UpdateError>)
        ensures
            match request_of(strings_view(nodes@), all) {
                Ok(m) => r matches Ok(q) && q@ == m,
                Err(e) => r == Err::<UpdateRequest, UpdateError>(e),
            },
    {
        if (nodes.len() == 0 && !all) || (nodes.len() > 0 && all) {
            return Err(UpdateError::NodesOrAll);
        }
        let ghost ns = strings_view(nodes@);
        let mut update_all = all;
        let mut requested: Vec<String> = Vec::new();
        let mut spoint_nodes: Vec<String> = Vec::new();
        let mut i: usize = 0;
        assert(ns.take(0) =~= Seq::<Seq<char>>::empty());
        while i < nodes.len()
            invariant
                i <= nodes.len(),
                ns == strings_view(nodes@),
                update_all == (all || exists|j: int| 0 <= j < i && is_wildcard(#[trigger] ns[j])),
                strings_view(requested@) == ns.take(i as int),
                strings_view(spoint_nodes@) == spoint_nodes_of(ns.take(i as int)),
            decreases nodes.len() - i,
        {
            let n = nodes[i].as_str();
            assert(ns[i as int] == n@);
            proof {
                reveal_strlit("#");
                reveal_strlit("*");
            }
            if str_eq(n, "#") || str_eq(n, "*") {
                update_all = true;
            }
            let c = chars_of(n);
            proof {
                lemma_find_first(c@, '/');
            }
            let ghost sb = spoint_nodes@;
            match find_char(&c, '/') {
                Some(p) => {
                    spoint_nodes.push(string_of(&sub_chars(&c, 0, p)));
                    assert(strings_view(spoint_nodes@) =~= strings_view(sb).push(n@.take(p as int)));
                },
                None => {},
            }
            let ghost rb = requested@;
            requested.push(nodes[i].clone());
            assert(strings_view(requested@) =~= strings_view(rb).push(n@));
            assert(ns.take(i + 1).drop_last() =~= ns.take(i as int));
            assert(ns.take(i + 1) =~= ns.take(i as int).push(n@));
            i = i + 1;
        }
        assert(ns.take(nodes.len() as int) =~= ns);
        Ok(UpdateRequest { update_all, requested, spoint_nodes })
    }

    /// Whether every node is asked for.
    pub fn update_all(&self) -> (r: bool)
        ensures
            r == self@.update_all,
    {
        self.update_all
    }

    /// Whether a node of the cloud is considered: it has a replication
    /// service, is not this node, is online and is asked for (by name or
    /// for its s-points).
    pub fn wants_node(&self, name: &str, has_svc: bool, online: bool, system_name: &str) -> (r: bool)
        ensures
            r == (has_svc && name@ != system_name@ && online && (self@.update_all
                || self@.requested.contains(name@) || self@.spoint_nodes.contains(name@))),
    {
        has_svc && !str_eq(name, system_name) && online && (self.update_all || holds(
            &self.requested,
            name,
        ) || holds(&self.spoint_nodes, name))
    }

    /// Whether a considered node is updated: it is managed, asked for by
    /// name, and runs an older build of the same major version
    /// (`upgradable`, as [`upgradable`] decides it).
    pub fn is_node_candidate(&self, name: &str, managed: bool, upgradable: bool) -> (r: bool)
        ensures
            r == (managed && (self@.update_all || self@.requested.contains(name@)) && upgradable),
    {
        managed && (self.update_all || holds(&self.requested, name)) && upgradable
    }

    /// Whether the s-points of a node are looked at.
    pub fn wants_spoints_of(&self, node: &str) -> (r: bool)
        ensures
            r == (self@.update_all || self@.spoint_nodes.contains(node@)),
    {
        self.update_all || holds(&self.spoint_nodes, node)
    }

    /// Whether an s-point of `node` is updated: it is asked for by its id,
    /// by `node/*` or `node/#`, or every node is, and it runs an older build
    /// of the same major version (`upgradable`, as [`upgradable`] decides
    /// it).
    pub fn is_spoint_candidate(&self, node: &str, name: &str, upgradable: bool) -> (r: bool)
        ensures
            r == ((self@.update_all || self@.requested.contains(spoint_id_of(node@, name@))
                || self@.requested.contains(node@ + "/*"@) || self@.requested.contains(
                node@ + "/#"@,
            )) && upgradable),
    {
        let id = spoint_id(node, name);
        let mut star = node.to_string();
        push_str(&mut star, "/*");
        let mut hash = node.to_string();
        push_str(&mut hash, "/#");
        (self.update_all || holds(&self.requested, id.as_str()) || holds(&self.requested, star.as_str())
            || holds(&self.requested, hash.as_str())) && upgradable
    }
}

/// The id of an s-point: its node, `/`, and its name without the
/// `eva.spoint.` prefix.
pub open spec fn spoint_id_of(node: Seq<char>, name: Seq<char>) -> Seq<char> {
    node + "/"@ + if "eva.spoint."@.is_prefix_of(name) {
        name.skip(11)
    } else {
        name
    }
}

/// The id of the s-point `name` of `node`.
pub fn spoint_id(node: &str, name: &str) -> (r: String)
    ensures
        r@ == spoint_id_of(node@, name@),
{
    let c = chars_of(name);
    let p = chars_of("eva.spoint.");
    proof {
        reveal_strlit("eva.spoint.");
    }
    let mut r = node.to_string();
    push_str(&mut r, "/");
    if has_prefix(&c, &p) {
        let rest = sub_chars(&c, 11, c.len());
        assert(rest@ =~= name@.skip(11));
        push_str(&mut r, string_of(&rest).as_str());
    } else {
        push_str(&mut r, name);
    }
    r
}

/// How the update of a node or s-point ended.
#[derive(PartialEq, Eq, Structural, Copy, Clone, Debug)]
pub enum UpdateResultKind {
    Success,
    StartFail,
    UpdateFail,
    Offline,
}

impl UpdateResultKind {
    /// The word the report shows for the outcome.
    pub fn as_str(&self) -> (r: &'static str)
        ensures
            r@ == match self {
                UpdateResultKind::Success => "success"@,
                UpdateResultKind::StartFail => "failed to begin"@,
                UpdateResultKind::UpdateFail => "not updated"@,
                UpdateResultKind::Offline => "OFFLINE"@,
            },
    {
        match self {
            UpdateResultKind::Success => "success",
            UpdateResultKind::StartFail => "failed to begin",
            UpdateResultKind::UpdateFail => "not updated",
            UpdateResultKind::Offline => "OFFLINE",
        }
    }
}

/// The outcome of the update of a node or s-point, with the version it ran
/// where known.
pub struct UpdateResult {
    pub ver: Option<(String, u64)>,
    pub kind: UpdateResultKind,
}

impl UpdateResult {
    /// Updated; now running `ver`.
    pub fn success(version: String, build: u64) -> (r: UpdateResult)
        ensures
            r.kind == UpdateResultKind::Success,
            r.ver matches Some((v, b)) && v@ == version@ && b == build,
    {
        UpdateResult { ver: Some((version, build)), kind: UpdateResultKind::Success }
    }

    /// Still running `ver` after the wait.
    pub fn upd_fail(version: String, build: u64) -> (r: UpdateResult)
        ensures
            r.kind == UpdateResultKind::UpdateFail,
            r.ver matches Some((v, b)) && v@ == version@ && b == build,
    {
        UpdateResult { ver: Some((version, build)), kind: UpdateResultKind::UpdateFail }
    }

    /// Refused the update command while running `ver`.
    pub fn start_fail(version: String, build: u64) -> (r: UpdateResult)
        ensures
            r.kind == UpdateResultKind::StartFail,
            r.ver matches Some((v, b)) && v@ == version@ && b == build,
    {
        UpdateResult { ver: Some((version, build)), kind: UpdateResultKind::StartFail }
    }

    /// An outcome with no version known.
    pub fn fail(kind: UpdateResultKind) -> (r: UpdateResult)
        ensures
            r.kind == kind,
            r.ver is None,
    {
        UpdateResult { ver: None, kind }
    }

    pub fn version(&self) -> (r: Option<&str>)
        ensures
            match self.ver {
                Some((v, _)) => r matches Some(rv) && rv@ == v@,
                None => r is None,
            },
    {
        match &self.ver {
            Some((v, _)) => Some(v.as_str()),
            None => None,
        }
    }

    pub fn build(&self) -> (r: Option<u64>)
        ensures
            r == match self.ver {
                Some((_, b)) => Some(b),
                None => None::<u64>,
            },
    {
        match &self.ver {
            Some((_, b)) => Some(*b),
            None => None,
        }
    }

    pub fn is_success(&self) -> (r: bool)
        ensures
            r == (self.kind == UpdateResultKind::Success),
    {
        match self.kind {
            UpdateResultKind::Success => true,
            _ => false,
        }
    }
}

/// Whether the s-points of a node are updated after the node's own
/// outcome: they are where the node was not updated itself or succeeded.
pub fn spoint_proceeds(node_result: Option<&UpdateResult>) -> (r: bool)
    ensures
        r == match node_result {
            Some(res) => res.kind == UpdateResultKind::Success,
            None => true,
        },
{
    match node_result {
        Some(res) => res.is_success(),
        None => true,
    }
}

/// Whether a cloud update succeeded: every outcome is a success.
pub fn all_succeeded(results: &Vec<UpdateResult>) -> (r: bool)
    ensures
        r == forall|i: int| 0 <= i < results.len() ==> #[trigger] results@[i].kind == UpdateResultKind::Success,
{
    let mut i: usize = 0;
    while i < results.len()
        invariant
            i <= results.len(),
            forall|j: int| 0 <= j < i ==> #[trigger] results@[j].kind == UpdateResultKind::Success,
        decreases results.len() - i,
    {
        if !results[i].is_success() {
            return false;
        }
        i = i + 1;
    }
    true
}

/// The version and build forced by `version:build`.
pub open spec fn forced_version_of(s: Seq<char>) -> Result<(Seq<char>, u64), UpdateError> {
    match split_once(s, ':') {
        (_, None) => Err(UpdateError::NoBuild),
        (v, Some(b)) => match unsigned_text_value(b, u64::MAX as nat) {
            None => Err(UpdateError::InvalidBuild),
            Some(n) => Ok((v, n as u64)),
        },
    }
}

/// Reads a forced target `version:build`.
pub fn parse_forced_version(s: &str) -> (r: Result<(String, u64), UpdateError>)
    ensures
        match forced_version_of(s@) {
            Ok((v, b)) => r matches Ok((rv, rb)) && rv@ == v && rb == b,
            Err(e) => r == Err::<(String, u64), UpdateError>(e),
        },
{
    let c = chars_of(s);
    proof {
        lemma_find_first(c@, ':');
    }
    match find_char(&c, ':') {
        None => Err(UpdateError::NoBuild),
        Some(i) => {
            let v = string_of(&sub_chars(&c, 0, i));
            let b = string_of(&sub_chars(&c, i + 1, c.len()));
            assert(b@ =~= s@.skip(i + 1));
            match parse_u64(b.as_str()) {
                None => Err(UpdateError::InvalidBuild),
                Some(n) => Ok((v, n)),
            }
        },
    }
}

/// What a node does with an offered build.
#[derive(PartialEq, Eq, Structural, Copy, Clone, Debug)]
pub enum UpdatePlan {
    /// the offered build is newer: update
    Update,
    /// this node runs a newer build than offered
    LocalNewer,
    /// the same build: nothing to update
    UpToDate,
}

/// Compares the offered build with the running one.
pub fn update_plan(new_build: u64, current_build: u64) -> (r: UpdatePlan)
    ensures
        r == if new_build > current_build {
            UpdatePlan::Update
        } else if new_build < current_build {
            UpdatePlan::LocalNewer
        } else {
            UpdatePlan::UpToDate
        },
{
    if new_build > current_build {
        UpdatePlan::Update
    } else if new_build < current_build {
        UpdatePlan::LocalNewer
    } else {
        UpdatePlan::UpToDate
    }
}

/// The name of the update script of a build: `update-<build>.sh`.
pub fn update_script_name(build: u64) -> (r: String)
    ensures
        r@ == "update-"@ + nat_text(build as nat) + ".sh"@,
{
    let mut r = "update-".to_string();
    push_u64(&mut r, build);
    push_str(&mut r, ".sh");
    r
}

/// The name of the distribution archive:
/// `eva-<version>-<build>-<arch>.tgz`.
pub fn distro_name(version: &str, build: u64, arch: &str) -> (r: String)
    ensures
        r@ == "eva-"@ + version@ + "-"@ + nat_text(build as nat) + "-"@ + arch@ + ".tgz"@,
{
    let mut r = "eva-".to_string();
    push_str(&mut r, version);
    push_str(&mut r, "-");
    push_u64(&mut r, build);
    push_str(&mut r, "-");
    push_str(&mut r, arch);
    push_str(&mut r, ".tgz");
    r
}

/// The URL of a file of a release in a repository:
/// `<repository>/<version>/nightly/<file>`.
pub fn release_url(repository: &str, version: &str, file: &str) -> (r: String)
    ensures
        r@ == repository@ + "/"@ + version@ + "/nightly/"@ + file@,
{
    let mut r = repository.to_string();
    push_str(&mut r, "/");
    push_str(&mut r, version);
    push_str(&mut r, "/nightly/");
    push_str(&mut r, file);
    r
}

/// The URL of the update manifest of a build:
/// `<repository>/<version>/nightly/manifest-<build>.json`.
pub fn manifest_url(repository: &str, version: &str, build: u64) -> (r: String)
    ensures
        r@ == repository@ + "/"@ + version@ + "/nightly/manifest-"@ + nat_text(build as nat) + ".json"@,
{
    let mut r = repository.to_string();
    push_str(&mut r, "/");
    push_str(&mut r, version);
    push_str(&mut r, "/nightly/manifest-");
    push_u64(&mut r, build);
    push_str(&mut r, ".json");
    r
}

/// The URL of the newest version information: the test channel's or the
/// stable one's.
pub fn update_info_url(repository: &str, test: bool) -> (r: String)
    ensures
        r@ == repository@ + if test {
            "/update_info_test.json"@
        } else {
            "/update_info.json"@
        },
{
    let mut r = repository.to_string();
    if test {
        push_str(&mut r, "/update_info_test.json");
    } else {
        push_str(&mut r, "/update_info.json");
    }
    r
}

/// The repository that the cloud manager uses unless a mirror is set.
pub const DEFAULT_REPOSITORY_URL: &'static str = "https://pub.bma.ai/eva4";

/// Whether a file of the manifest is mirrored: every file, or, where only
/// the current architecture is mirrored, the files whose names do not
/// begin with `eva-` and the distribution of this architecture.
pub open spec fn mirror_wants_spec(path: Seq<char>, current_arch_only: bool, distro: Seq<char>) -> bool {
    !current_arch_only || !(match path_file_name(path) {
        Some(n) => "eva-"@.is_prefix_of(n),
        None => false,
    }) || paths_equal(path, distro)
}

/// Whether a file of the manifest is mirrored.
pub fn mirror_wants(path: &str, current_arch_only: bool, distro: &str) -> (r: bool)
    ensures
        r == mirror_wants_spec(path@, current_arch_only, distro@),
{
    if !current_arch_only {
        return true;
    }
    let eva_named = match file_name(path) {
        Some(n) => has_prefix(&chars_of(n.as_str()), &chars_of("eva-")),
        None => false,
    };
    !eva_named || same_path(path, distro)
}

/// Whether a file is downloaded again: unless forced, a file that exists
/// and checks out against the manifest is kept.
pub fn mirror_download_needed(force: bool, present: bool, verified: bool) -> (r: bool)
    ensures
        r == (force || !present || !verified),
{
    force || !present || !verified
}

/// `url` without its trailing slashes.
pub open spec fn trim_slashes(url: Seq<char>) -> Seq<char>
    decreases url.len(),
{
    if url.len() > 0 && url.last() == '/' {
        trim_slashes(url.drop_last())
    } else {
        url
    }
}

/// The mirror set as the repository: `default` restores the default
/// repository (shown by name), any other URL is stored with `/eva`
/// appended after its trailing slashes are cut; the text shown and the
/// repository stored.
pub fn mirror_repository(url: &str) -> (r: (String, String))
    ensures
        url@ == "default"@ ==> r.0@ == "https://pub.bma.ai (default)"@ && r.1@
            == DEFAULT_REPOSITORY_URL@,
        url@ != "default"@ ==> r.0@ == trim_slashes(url@) && r.1@ == trim_slashes(url@) + "/eva"@,
{
    if str_eq(url, "default") {
        return ("https://pub.bma.ai (default)".to_string(), DEFAULT_REPOSITORY_URL.to_string());
    }
    let c = chars_of(url);
    let mut n = c.len();
    assert(c@.take(n as int) =~= url@);
    while n > 0 && c[n - 1] == '/'
        invariant
            n <= c@.len(),
            trim_slashes(c@.take(n as int)) == trim_slashes(url@),
        decreases n,
    {
        assert(c@.take(n as int).drop_last() =~= c@.take(n - 1));
        n = n - 1;
    }
    let t = string_of(&sub_chars(&c, 0, n));
    assert(t@ =~= c@.take(n as int));
    let mut stored = t.clone();
    push_str(&mut stored, "/eva");
    (t, stored)
}

/// Whether the answer to a confirmation prompt confirms: `YES`, with
/// whitespace around it ignored.
pub fn confirmed(answer: &str) -> (r: bool)
    ensures
        r == (trim_text(answer@) == "YES"@),
{
    let t = trim_chars(&chars_of(answer));
    chars_eq(&t, &chars_of("YES"))
}


/// The major version of a version text, as `eva_client` reads it: the
/// text before the first `.`, read as `u16::from_str` does.
pub open spec fn major_of(ver: Seq<char>) -> Option<nat> {
    unsigned_text_value(split_once(ver, '.').0, u16::MAX as nat)
}

/// Whether two version texts have the same major version, where both have
/// one.
pub open spec fn major_match(local_ver: Seq<char>, ver: Seq<char>) -> Option<bool> {
    match (major_of(local_ver), major_of(ver)) {
        (Some(a), Some(b)) => Some(a == b),
        _ => None,
    }
}

/// Calls `eva_client::VersionInfo::major_matches` on the version
/// `local_ver` (the build plays no part): whether `ver` has the same major
/// version ([`major_match`]), where both can be read.
#[verifier::external_body]
fn major_matches(local_ver: &str, ver: &str) -> (r: Option<bool>)
    ensures
        r == major_match(local_ver@, ver@),
{
    eva_client::VersionInfo { build: 0, version: local_ver.to_owned() }.major_matches(ver).ok()
}

/// Whether a node or s-point that runs `node_ver`, build `node_build`, is
/// updated to the offered `offered_ver`, build `offered_build`: the same
/// major version, and an older build (never the same build, never a
/// downgrade); a version that cannot be read is not updated.
pub fn upgradable(offered_ver: &str, offered_build: u64, node_ver: &str, node_build: u64) -> (r: bool)
    ensures
        r == (major_match(offered_ver@, node_ver@) == Some(true) && node_build < offered_build),
{
    let m = major_matches(offered_ver, node_ver);
    match m {
        Some(true) => node_build < offered_build,
        _ => false,
    }
}


/// `#` and `*` among the names ask for every node, as `--all` does; a
/// request that names neither, without `--all`, asks only for the nodes it
/// names.
pub proof fn law_wildcards_select_all(nodes: Seq<Seq<char>>, all: bool)
    ensures
        request_of(nodes, all) matches Ok(m) ==> ((nodes.contains("#"@) || nodes.contains("*"@) || all)
            ==> m.update_all),
        request_of(nodes, all) matches Ok(m) ==> ((!nodes.contains("#"@) && !nodes.contains("*"@) && !all)
            ==> !m.update_all),
{
    if nodes.contains("#"@) {
        let i = choose|i: int| 0 <= i < nodes.len() && nodes[i] == "#"@;
        assert(is_wildcard(nodes[i]));
    }
    if nodes.contains("*"@) {
        let i = choose|i: int| 0 <= i < nodes.len() && nodes[i] == "*"@;
        assert(is_wildcard(nodes[i]));
    }
    if !nodes.contains("#"@) && !nodes.contains("*"@) {
        assert forall|i: int| 0 <= i < nodes.len() implies !is_wildcard(#[trigger] nodes[i]) by {
            if nodes[i] == "#"@ {
                assert(nodes.contains("#"@));
            }
            if nodes[i] == "*"@ {
                assert(nodes.contains("*"@));
            }
        }
    }
}

} // verus!
