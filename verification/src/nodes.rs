//! The replication service's registry of remote nodes: which nodes are
//! known, their link state and replicated items, and the decisions taken
//! when a node is discovered, added, removed or marked online or offline.
//! Each decision returns what the service then does outside: tasks to start
//! or stop, node-state events to publish, topics to (un)subscribe.
use crate::text::{push_str, str_eq};
use eva_common::acl::Acl;
use eva_common::events::ReplicationInventoryItem;
use std::time::{Duration, Instant};
use vstd::prelude::*;

verus! {

#[verifier::external_type_specification]
#[verifier::external_body]
pub struct ExInstant(std::time::Instant);

/// The version and build that a node reported when it was last reloaded.
pub struct NodeVersion {
    pub version: String,
    pub build: u64,
}

/// Settings that a node created on discovery takes.
pub struct NodeDefaults {
    pub ping_interval: Duration,
    pub reload_interval: Duration,
    pub timeout: Duration,
    pub key_id: String,
}

/// A remote node.
pub struct Node {
    name: String,
    ping_interval: Duration,
    reload_interval: Duration,
    compress: bool,
    enabled: bool,
    timeout: Duration,
    trusted: bool,
    sttc: bool,
    online: bool,
    link_uptime: Option<Instant>,
    last_reload: Option<Instant>,
    oids: Vec<String>,
    key_id: String,
    admin_key_id: Option<String>,
    info: Option<NodeVersion>,
}

/// The model of a [`Node`].
pub struct NodeModel {
    pub name: Seq<char>,
    pub ping_interval: Duration,
    pub reload_interval: Duration,
    pub compress: bool,
    pub enabled: bool,
    pub timeout: Duration,
    pub trusted: bool,
    pub sttc: bool,
    pub online: bool,
    pub link_uptime: Option<Instant>,
    pub last_reload: Option<Instant>,
    /// the paths of the items replicated from the node
    pub oids: Seq<Seq<char>>,
    pub key_id: Seq<char>,
    pub admin_key_id: Option<Seq<char>>,
    pub info: Option<(Seq<char>, u64)>,
}

pub open spec fn strings_view(v: Seq<String>) -> Seq<Seq<char>> {
    v.map_values(|s: String| s@)
}

pub open spec fn opt_string_view(o: Option<String>) -> Option<Seq<char>> {
    match o {
        Some(s) => Some(s@),
        None => None,
    }
}

pub open spec fn version_view(o: Option<NodeVersion>) -> Option<(Seq<char>, u64)> {
    match o {
        Some(v) => Some((v.version@, v.build)),
        None => None,
    }
}

impl View for Node {
    type V = NodeModel;

    closed spec fn view(&self) -> NodeModel {
        NodeModel {
            name: self.name@,
            ping_interval: self.ping_interval,
            reload_interval: self.reload_interval,
            compress: self.compress,
            enabled: self.enabled,
            timeout: self.timeout,
            trusted: self.trusted,
            sttc: self.sttc,
            online: self.online,
            link_uptime: self.link_uptime,
            last_reload: self.last_reload,
            oids: strings_view(self.oids@),
            key_id: self.key_id@,
            admin_key_id: opt_string_view(self.admin_key_id),
            info: version_view(self.info),
        }
    }
}

/// Whether no text occurs twice in `s`.
pub open spec fn distinct(s: Seq<Seq<char>>) -> bool {
    forall|i: int, j: int| 0 <= i < s.len() && 0 <= j < s.len() && i != j ==> #[trigger] s[i] != #[trigger] s[j]
}

impl Node {
    /// Whether the node's replicated items are recorded once each.
    pub open spec fn wf(&self) -> bool {
        distinct(self@.oids)
    }

    /// A node named `name`, enabled and trusted, offline, with no items
    /// yet, and the given defaults.
    pub fn new(name: &str, sttc: bool, defaults: &NodeDefaults) -> (r: Node)
        ensures
            r.wf(),
            r@ == (NodeModel {
                name: name@,
                ping_interval: defaults.ping_interval,
                reload_interval: defaults.reload_interval,
                compress: false,
                enabled: true,
                timeout: defaults.timeout,
                trusted: true,
                sttc,
                online: false,
                link_uptime: None,
                last_reload: None,
                oids: Seq::empty(),
                key_id: defaults.key_id@,
                admin_key_id: None,
                info: None,
            }),
    {
        let r = Node {
            name: name.to_string(),
            ping_interval: defaults.ping_interval,
            reload_interval: defaults.reload_interval,
            compress: false,
            enabled: true,
            timeout: defaults.timeout,
            trusted: true,
            sttc,
            online: false,
            link_uptime: None,
            last_reload: None,
            oids: Vec::new(),
            key_id: defaults.key_id.clone(),
            admin_key_id: None,
            info: None,
        };
        assert(strings_view(r.oids@) =~= Seq::<Seq<char>>::empty());
        r
    }

    /// A node with all of its settings given, as a configuration declares
    /// it: offline, with no items yet.
    pub fn configured(
        name: &str,
        ping_interval: Duration,
        reload_interval: Duration,
        compress: bool,
        enabled: bool,
        timeout: Duration,
        trusted: bool,
        key_id: &str,
        admin_key_id: Option<String>,
    ) -> (r: Node)
        ensures
            r.wf(),
            r@ == (NodeModel {
                name: name@,
                ping_interval,
                reload_interval,
                compress,
                enabled,
                timeout,
                trusted,
                sttc: false,
                online: false,
                link_uptime: None,
                last_reload: None,
                oids: Seq::empty(),
                key_id: key_id@,
                admin_key_id: opt_string_view(admin_key_id),
                info: None,
            }),
    {
        let r = Node {
            name: name.to_string(),
            ping_interval,
            reload_interval,
            compress,
            enabled,
            timeout,
            trusted,
            sttc: false,
            online: false,
            link_uptime: None,
            last_reload: None,
            oids: Vec::new(),
            key_id: key_id.to_string(),
            admin_key_id,
            info: None,
        };
        assert(strings_view(r.oids@) =~= Seq::<Seq<char>>::empty());
        r
    }

    pub fn name(&self) -> (r: &str)
        ensures
            r@ == self@.name,
    {
        self.name.as_str()
    }

    pub fn online(&self) -> (r: bool)
        ensures
            r == self@.online,
    {
        self.online
    }

    pub fn set_static(&mut self)
        ensures
            final(self)@ == (NodeModel { sttc: true, ..old(self)@ }),
    {
        self.sttc = true;
    }

    pub fn is_static(&self) -> (r: bool)
        ensures
            r == self@.sttc,
    {
        self.sttc
    }

    pub fn compress(&self) -> (r: bool)
        ensures
            r == self@.compress,
    {
        self.compress
    }

    pub fn enabled(&self) -> (r: bool)
        ensures
            r == self@.enabled,
    {
        self.enabled
    }

    pub fn trusted(&self) -> (r: bool)
        ensures
            r == self@.trusted,
    {
        self.trusted
    }

    pub fn timeout(&self) -> (r: Duration)
        ensures
            r == self@.timeout,
    {
        self.timeout
    }

    pub fn ping_interval(&self) -> (r: Duration)
        ensures
            r == self@.ping_interval,
    {
        self.ping_interval
    }

    pub fn reload_interval(&self) -> (r: Duration)
        ensures
            r == self@.reload_interval,
    {
        self.reload_interval
    }

    pub fn key_id(&self) -> (r: &str)
        ensures
            r@ == self@.key_id,
    {
        self.key_id.as_str()
    }

    pub fn admin_key_id(&self) -> (r: Option<&str>)
        ensures
            match r {
                Some(k) => self@.admin_key_id == Some(k@),
                None => self@.admin_key_id is None,
            },
    {
        match &self.admin_key_id {
            Some(k) => Some(k.as_str()),
            None => None,
        }
    }

    /// Whether the node is managed: it has an administrative key.
    pub fn managed(&self) -> (r: bool)
        ensures
            r == self@.admin_key_id is Some,
    {
        self.admin_key_id.is_some()
    }

    /// When the node's link came up, while it is online.
    pub fn link_uptime(&self) -> (r: Option<Instant>)
        ensures
            r == self@.link_uptime,
    {
        self.link_uptime
    }

    /// When the node was last reloaded.
    pub fn last_reload(&self) -> (r: Option<Instant>)
        ensures
            r == self@.last_reload,
    {
        self.last_reload
    }

    /// The version and build the node reported.
    pub fn info(&self) -> (r: Option<(&str, u64)>)
        ensures
            match r {
                Some((v, b)) => self@.info == Some((v@, b)),
                None => self@.info is None,
            },
    {
        match &self.info {
            Some(i) => Some((i.version.as_str(), i.build)),
            None => None,
        }
    }

    /// The paths of the items replicated from the node.
    pub fn oids(&self) -> (r: &Vec<String>)
        ensures
            strings_view(r@) == self@.oids,
    {
        &self.oids
    }
}

/// The state of a node as events report it.
#[derive(PartialEq, Eq, Structural, Copy, Clone, Debug)]
pub enum NodeStatus {
    Online,
    Offline,
    Removed,
}

/// Why a registry operation failed.
#[derive(PartialEq, Eq, Structural, Copy, Clone, Debug)]
pub enum NodeError {
    /// no node of that name
    NotFound,
}

/// The status reported for a node whose link is `online`.
pub open spec fn link_status(online: bool) -> NodeStatus {
    if online {
        NodeStatus::Online
    } else {
        NodeStatus::Offline
    }
}

/// What adding a node asks of the service: whether to start the node's
/// reloader and pinger, the events to publish in order, and the node of the
/// same name that was replaced (whose tasks are to be stopped).
pub struct AppendEffects {
    pub start_tasks: bool,
    pub events: Vec<NodeStatus>,
    pub replaced: Option<Node>,
}

/// What removing a node asks of the service: stop the removed node's tasks,
/// unsubscribe from its item topics, then publish [`NodeStatus::Removed`].
pub struct Removal {
    pub node: Node,
    pub unsubscribe: Vec<String>,
}

/// The known nodes, by name.
pub struct NodeRegistry {
    nodes: Vec<Node>,
}

pub open spec fn nodes_view(v: Seq<Node>) -> Seq<NodeModel> {
    v.map_values(|n: Node| n@)
}

impl View for NodeRegistry {
    type V = Seq<NodeModel>;

    closed spec fn view(&self) -> Seq<NodeModel> {
        nodes_view(self.nodes@)
    }
}

/// The index of the node named `name`.
pub open spec fn node_index(s: Seq<NodeModel>, name: Seq<char>) -> Option<int>
    decreases s.len(),
{
    if s.len() == 0 {
        None
    } else {
        match node_index(s.drop_last(), name) {
            Some(i) => Some(i),
            None => if s.last().name == name {
                Some(s.len() - 1)
            } else {
                None
            },
        }
    }
}

/// The node named `name`.
pub open spec fn lookup(s: Seq<NodeModel>, name: Seq<char>) -> Option<NodeModel> {
    match node_index(s, name) {
        Some(i) => Some(s[i]),
        None => None,
    }
}

/// Whether no two nodes share a name and each node records its items once.
pub open spec fn registry_wf(s: Seq<NodeModel>) -> bool {
    &&& forall|i: int, j: int|
        0 <= i < s.len() && 0 <= j < s.len() && i != j ==> #[trigger] s[i].name != #[trigger] s[j].name
    &&& forall|i: int| 0 <= i < s.len() ==> distinct(#[trigger] s[i].oids)
}

/// The registry after `n` is stored under its name, replacing a node of
/// the same name.
pub open spec fn stored(s: Seq<NodeModel>, n: NodeModel) -> Seq<NodeModel> {
    match node_index(s, n.name) {
        Some(i) => s.update(i, n),
        None => s.push(n),
    }
}

/// The registry without the node named `name`.
pub open spec fn without(s: Seq<NodeModel>, name: Seq<char>) -> Seq<NodeModel> {
    match node_index(s, name) {
        Some(i) => s.remove(i),
        None => s,
    }
}

/// The events that adding a node publishes: a disabled node is first
/// reported removed; every added node is then reported offline.
pub open spec fn append_events(enabled: bool) -> Seq<NodeStatus> {
    if enabled {
        seq![NodeStatus::Offline]
    } else {
        seq![NodeStatus::Removed, NodeStatus::Offline]
    }
}

/// The item-state topic of each item path.
pub open spec fn topics_of(prefix: Seq<char>, paths: Seq<Seq<char>>) -> Seq<Seq<char>> {
    paths.map_values(|p: Seq<char>| prefix + p)
}

pub proof fn lemma_node_index(s: Seq<NodeModel>, name: Seq<char>)
    ensures
        match node_index(s, name) {
            Some(i) => 0 <= i < s.len() && s[i].name == name && forall|j: int|
                0 <= j < i ==> #[trigger] s[j].name != name,
            None => forall|j: int| 0 <= j < s.len() ==> #[trigger] s[j].name != name,
        },
    decreases s.len(),
{
    if s.len() > 0 {
        let t = s.drop_last();
        lemma_node_index(t, name);
        assert forall|j: int| 0 <= j < t.len() implies t[j] == s[j] by {}
    }
}

/// In a registry with unique names, a node's index is the only one with its
/// name.
pub proof fn lemma_node_index_unique(s: Seq<NodeModel>, name: Seq<char>, k: int)
    requires
        registry_wf(s),
        0 <= k < s.len(),
        s[k].name == name,
    ensures
        node_index(s, name) == Some(k),
{
    lemma_node_index(s, name);
}

/// Storing a node keeps names unique; the stored node is then found under
/// its name and every other name finds what it found before.
pub proof fn law_stored_node_is_found(s: Seq<NodeModel>, n: NodeModel)
    requires
        registry_wf(s),
        distinct(n.oids),
    ensures
        registry_wf(stored(s, n)),
        lookup(stored(s, n), n.name) == Some(n),
        forall|m: Seq<char>| m != n.name ==> #[trigger] lookup(stored(s, n), m) == lookup(s, m),
{
    lemma_node_index(s, n.name);
    let t = stored(s, n);
    assert forall|m: Seq<char>| m != n.name implies #[trigger] lookup(t, m) == lookup(s, m) by {
        lemma_node_index(s, m);
        lemma_node_index(t, m);
        match node_index(s, m) {
            Some(k) => {
                lemma_node_index_unique(t, m, k);
            },
            None => {},
        }
    }
    match node_index(s, n.name) {
        Some(i) => lemma_node_index_unique(t, n.name, i),
        None => lemma_node_index_unique(t, n.name, s.len() as int),
    }
}

/// Removing a node keeps names unique; the node is then gone and every
/// other name finds what it found before.
pub proof fn law_removed_node_is_gone(s: Seq<NodeModel>, name: Seq<char>)
    requires
        registry_wf(s),
    ensures
        registry_wf(without(s, name)),
        lookup(without(s, name), name) is None,
        forall|m: Seq<char>| m != name ==> #[trigger] lookup(without(s, name), m) == lookup(s, m),
{
    lemma_node_index(s, name);
    let t = without(s, name);
    match node_index(s, name) {
        None => {},
        Some(i) => {
            assert forall|a: int, b: int|
                0 <= a < t.len() && 0 <= b < t.len() && a != b implies #[trigger] t[a].name
                != #[trigger] t[b].name by {
                let a0 = if a < i { a } else { a + 1 };
                let b0 = if b < i { b } else { b + 1 };
                assert(t[a] == s[a0]);
                assert(t[b] == s[b0]);
            }
            assert forall|a: int| 0 <= a < t.len() implies distinct(#[trigger] t[a].oids) by {
                let a0 = if a < i { a } else { a + 1 };
                assert(t[a] == s[a0]);
            }
        },
    }
    lemma_node_index(t, name);
    assert forall|m: Seq<char>| m != name implies #[trigger] lookup(t, m) == lookup(s, m) by {
        lemma_node_index(s, m);
        lemma_node_index(t, m);
        match node_index(s, m) {
            Some(k) => {
                match node_index(s, name) {
                    Some(i) => {
                        let k1 = if k < i { k } else { k - 1 };
                        assert(t[k1] == s[k]);
                        lemma_node_index_unique(t, m, k1);
                    },
                    None => {},
                }
            },
            None => {
                match node_index(s, name) {
                    Some(i) => {
                        match node_index(t, m) {
                            Some(k1) => {
                                let k = if k1 < i { k1 } else { k1 + 1 };
                                assert(t[k1] == s[k]);
                            },
                            None => {},
                        }
                    },
                    None => {},
                }
            },
        }
    }
}

/// A node after its link state is set: the link is up since `now` when
/// online, and has no uptime when offline.
pub open spec fn marked(n: NodeModel, online: bool, now: Instant) -> NodeModel {
    NodeModel {
        online,
        link_uptime: if online {
            Some(now)
        } else {
            None
        },
        ..n
    }
}

/// The node that discovery creates for `name`.
pub open spec fn default_node(name: Seq<char>, sttc: bool, d: NodeDefaults) -> NodeModel {
    NodeModel {
        name,
        ping_interval: d.ping_interval,
        reload_interval: d.reload_interval,
        compress: false,
        enabled: true,
        timeout: d.timeout,
        trusted: true,
        sttc,
        online: false,
        link_uptime: None,
        last_reload: None,
        oids: Seq::empty(),
        key_id: d.key_id@,
        admin_key_id: None,
        info: None,
    }
}

/// What marking a node's link state asks of the service.
pub enum MarkOutcome {
    /// publish the node's state
    Publish(NodeStatus),
    /// the node was removed (see [`Removal`])
    Removed(Removal),
    /// nothing to do
    Nothing,
}

/// What a node seen on the bus asks of the service.
pub enum Discovery {
    /// the service's own name: nothing to do
    Own,
    /// a known node that is enabled and offline: trigger its reload
    TriggerReload,
    /// a known node that is online or disabled: nothing to do
    Known,
    /// a new node was added
    Appended(AppendEffects),
    /// discovery is disabled: nothing to do
    Refused,
}

/// The item-state topics of the item paths `oids`.
fn item_topics(prefix: &str, oids: &Vec<String>) -> (r: Vec<String>)
    ensures
        strings_view(r@) == topics_of(prefix@, strings_view(oids@)),
{
    let mut r: Vec<String> = Vec::new();
    let mut i: usize = 0;
    while i < oids.len()
        invariant
            i <= oids.len(),
            r.len() == i,
            forall|j: int| 0 <= j < i ==> #[trigger] r@[j]@ == prefix@ + oids@[j]@,
        decreases oids.len() - i,
    {
        let mut t = prefix.to_string();
        push_str(&mut t, oids[i].as_str());
        r.push(t);
        i = i + 1;
    }
    assert(strings_view(r@) =~= topics_of(prefix@, strings_view(oids@)));
    r
}

/// The paths of `old` that `items` holds (`keep`) or lacks (`!keep`), in
/// the order of `old`.
pub open spec fn kept(old: Seq<Seq<char>>, items: Seq<Seq<char>>, keep: bool) -> Seq<Seq<char>>
    decreases old.len(),
{
    if old.len() == 0 {
        Seq::empty()
    } else {
        let prev = kept(old.drop_last(), items, keep);
        if items.contains(old.last()) == keep {
            prev.push(old.last())
        } else {
            prev
        }
    }
}

/// The paths of `items` that `old` lacks, each once, in the order of
/// `items`.
pub open spec fn added(old: Seq<Seq<char>>, items: Seq<Seq<char>>) -> Seq<Seq<char>>
    decreases items.len(),
{
    if items.len() == 0 {
        Seq::empty()
    } else {
        let prev = added(old, items.drop_last());
        if old.contains(items.last()) || prev.contains(items.last()) {
            prev
        } else {
            prev.push(items.last())
        }
    }
}

/// The item paths of a node after a reload that listed `items`.
pub open spec fn reloaded_oids(old: Seq<Seq<char>>, items: Seq<Seq<char>>) -> Seq<Seq<char>> {
    kept(old, items, true) + added(old, items)
}

/// The topics to subscribe to and to unsubscribe from after a reload.
pub struct OidChange {
    pub subscribe: Vec<String>,
    pub unsubscribe: Vec<String>,
}

/// The node after a reload at `now` that reported `info` and, where
/// items are followed one by one, listed `items`.
pub open spec fn reloaded(n: NodeModel, info: (Seq<char>, u64), items: Option<Seq<Seq<char>>>, subscribe_each: bool, now: Instant) -> NodeModel {
    NodeModel {
        last_reload: Some(now),
        info: Some(info),
        oids: match items {
            Some(it) => if subscribe_each {
                reloaded_oids(n.oids, it)
            } else {
                n.oids
            },
            None => n.oids,
        },
        ..n
    }
}

/// `s` with its last element set apart.
proof fn lemma_split_last(s: Seq<Seq<char>>)
    requires
        s.len() > 0,
    ensures
        s == s.drop_last().push(s.last()),
{
    assert(s =~= s.drop_last().push(s.last()));
}

/// A distinct sequence with a new element pushed stays distinct; the
/// prefix of a distinct sequence is distinct.
proof fn lemma_distinct_push(p: Seq<Seq<char>>, x: Seq<char>)
    ensures
        distinct(p.push(x)) <==> (distinct(p) && !p.contains(x)),
{
    let q = p.push(x);
    if distinct(p) && !p.contains(x) {
        assert forall|i: int, j: int| 0 <= i < q.len() && 0 <= j < q.len() && i != j implies #[trigger] q[i] != #[trigger] q[j] by {
            if i < p.len() && j < p.len() {
                assert(q[i] == p[i] && q[j] == p[j]);
            } else if i < p.len() {
                assert(q[i] == p[i]);
            } else if j < p.len() {
                assert(q[j] == p[j]);
            }
        }
    }
    if distinct(q) {
        assert forall|i: int, j: int| 0 <= i < p.len() && 0 <= j < p.len() && i != j implies #[trigger] p[i] != #[trigger] p[j] by {
            assert(q[i] == p[i] && q[j] == p[j]);
        }
        if p.contains(x) {
            let k = choose|k: int| 0 <= k < p.len() && p[k] == x;
            assert(q[k] == q[p.len() as int]);
        }
    }
}

pub proof fn lemma_kept(old: Seq<Seq<char>>, items: Seq<Seq<char>>, keep: bool)
    ensures
        forall|x: Seq<char>| #[trigger] kept(old, items, keep).contains(x) <==> (old.contains(x) && items.contains(x) == keep),
        distinct(old) ==> distinct(kept(old, items, keep)),
    decreases old.len(),
{
    broadcast use vstd::seq_lib::lemma_seq_contains_after_push;

    if old.len() > 0 {
        let t = old.drop_last();
        lemma_kept(t, items, keep);
        lemma_split_last(old);
        lemma_distinct_push(t, old.last());
        lemma_distinct_push(kept(t, items, keep), old.last());
    }
}

pub proof fn lemma_added(old: Seq<Seq<char>>, items: Seq<Seq<char>>)
    ensures
        forall|x: Seq<char>| #[trigger] added(old, items).contains(x) <==> (items.contains(x) && !old.contains(x)),
        distinct(added(old, items)),
    decreases items.len(),
{
    broadcast use vstd::seq_lib::lemma_seq_contains_after_push;

    if items.len() > 0 {
        let t = items.drop_last();
        lemma_added(old, t);
        lemma_split_last(items);
        lemma_distinct_push(added(old, t), items.last());
    }
}

/// After a reload that lists `items`, a node follows exactly the listed
/// items, each once.
pub proof fn law_reload_follows_listed_items(old: Seq<Seq<char>>, items: Seq<Seq<char>>)
    requires
        distinct(old),
    ensures
        distinct(reloaded_oids(old, items)),
        forall|x: Seq<char>| #[trigger] reloaded_oids(old, items).contains(x) <==> items.contains(x),
{
    broadcast use vstd::seq_lib::lemma_seq_concat_contains_all_elements;

    lemma_kept(old, items, true);
    lemma_added(old, items);
    let a = kept(old, items, true);
    let b = added(old, items);
    let c = a + b;
    assert forall|i: int, j: int| 0 <= i < c.len() && 0 <= j < c.len() && i != j implies #[trigger] c[i] != #[trigger] c[j] by {
        if i < a.len() && j < a.len() {
            assert(c[i] == a[i] && c[j] == a[j]);
        } else if i >= a.len() && j >= a.len() {
            assert(c[i] == b[i - a.len()] && c[j] == b[j - a.len()]);
        } else if i < a.len() {
            assert(c[i] == a[i] && a.contains(a[i]));
            assert(c[j] == b[j - a.len()] && b.contains(b[j - a.len()]));
        } else {
            assert(c[j] == a[j] && a.contains(a[j]));
            assert(c[i] == b[i - a.len()] && b.contains(b[i - a.len()]));
        }
    }
}

/// A reload never asks to subscribe to an item it also unsubscribes from:
/// the subscribed items are new, the unsubscribed ones were followed and
/// are no longer listed.
pub proof fn law_reload_topics_are_disjoint(old: Seq<Seq<char>>, items: Seq<Seq<char>>, x: Seq<char>)
    ensures
        added(old, items).contains(x) ==> !old.contains(x) && items.contains(x),
        kept(old, items, false).contains(x) ==> old.contains(x) && !items.contains(x),
        !(added(old, items).contains(x) && kept(old, items, false).contains(x)),
{
    lemma_kept(old, items, false);
    lemma_added(old, items);
}

/// Whether `v` holds the text `x`.
fn holds_string(v: &Vec<String>, x: &str) -> (r: bool)
    ensures
        r == strings_view(v@).contains(x@),
{
    let mut i: usize = 0;
    while i < v.len()
        invariant
            i <= v.len(),
            forall|j: int| 0 <= j < i ==> #[trigger] v@[j]@ != x@,
        decreases v.len() - i,
    {
        if str_eq(v[i].as_str(), x) {
            assert(strings_view(v@)[i as int] == x@);
            return true;
        }
        i = i + 1;
    }
    assert forall|j: int| 0 <= j < strings_view(v@).len() implies strings_view(v@)[j] != x@ by {
        assert(strings_view(v@)[j] == v@[j]@);
    }
    false
}

fn kept_paths(old: &Vec<String>, items: &Vec<String>, keep: bool) -> (r: Vec<String>)
    ensures
        strings_view(r@) == kept(strings_view(old@), strings_view(items@), keep),
{
    let ghost o = strings_view(old@);
    let ghost it = strings_view(items@);
    let mut r: Vec<String> = Vec::new();
    let mut i: usize = 0;
    assert(o.take(0) =~= Seq::<Seq<char>>::empty());
    while i < old.len()
        invariant
            i <= old.len(),
            o == strings_view(old@),
            it == strings_view(items@),
            strings_view(r@) == kept(o.take(i as int), it, keep),
        decreases old.len() - i,
    {
        let ghost before = r@;
        assert(o.take(i + 1).drop_last() =~= o.take(i as int));
        assert(o.take(i + 1).last() == old@[i as int]@);
        if holds_string(items, old[i].as_str()) == keep {
            r.push(old[i].clone());
            assert(strings_view(r@) =~= strings_view(before).push(old@[i as int]@));
        }
        i = i + 1;
    }
    assert(o.take(old.len() as int) =~= o);
    r
}

fn added_paths(old: &Vec<String>, items: &Vec<String>) -> (r: Vec<String>)
    ensures
        strings_view(r@) == added(strings_view(old@), strings_view(items@)),
{
    let ghost o = strings_view(old@);
    let ghost it = strings_view(items@);
    let mut r: Vec<String> = Vec::new();
    let mut i: usize = 0;
    assert(it.take(0) =~= Seq::<Seq<char>>::empty());
    while i < items.len()
        invariant
            i <= items.len(),
            o == strings_view(old@),
            it == strings_view(items@),
            strings_view(r@) == added(o, it.take(i as int)),
        decreases items.len() - i,
    {
        let ghost before = r@;
        assert(it.take(i + 1).drop_last() =~= it.take(i as int));
        assert(it.take(i + 1).last() == items@[i as int]@);
        if !holds_string(old, items[i].as_str()) && !holds_string(&r, items[i].as_str()) {
            r.push(items[i].clone());
            assert(strings_view(r@) =~= strings_view(before).push(items@[i as int]@));
        }
        i = i + 1;
    }
    assert(it.take(items.len() as int) =~= it);
    r
}

pub open spec fn opt_strings_view(o: Option<Vec<String>>) -> Option<Seq<Seq<char>>> {
    match o {
        Some(v) => Some(strings_view(v@)),
        None => None,
    }
}

impl NodeRegistry {
    /// Names are unique and each node is well formed.
    pub open spec fn wf(&self) -> bool {
        registry_wf(self@)
    }

    /// An empty registry.
    pub fn new() -> (r: NodeRegistry)
        ensures
            r.wf(),
            r@ == Seq::<NodeModel>::empty(),
    {
        let r = NodeRegistry { nodes: Vec::new() };
        assert(r@ =~= Seq::<NodeModel>::empty());
        r
    }

    fn find(&self, name: &str) -> (r: Option<usize>)
        ensures
            match r {
                Some(i) => node_index(self@, name@) == Some(i as int) && i < self.nodes.len(),
                None => node_index(self@, name@) is None,
            },
    {
        proof {
            lemma_node_index(self@, name@);
        }
        let mut i: usize = 0;
        while i < self.nodes.len()
            invariant
                i <= self.nodes.len(),
                self@ == nodes_view(self.nodes@),
                forall|j: int| 0 <= j < i ==> #[trigger] self@[j].name != name@,
                match node_index(self@, name@) {
                    Some(k) => 0 <= k < self@.len() && self@[k].name == name@ && forall|j: int|
                        0 <= j < k ==> #[trigger] self@[j].name != name@,
                    None => forall|j: int| 0 <= j < self@.len() ==> #[trigger] self@[j].name != name@,
                },
            decreases self.nodes.len() - i,
        {
            assert(self@[i as int] == self.nodes@[i as int]@);
            if str_eq(self.nodes[i].name.as_str(), name) {
                assert(self@[i as int].name == name@);
                assert(node_index(self@, name@) == Some(i as int)) by {
                    match node_index(self@, name@) {
                        Some(k) => {
                            if k < i {
                                assert(self@[k].name != name@);
                            }
                            if k > i {
                                assert(self@[i as int].name != name@);
                            }
                        },
                        None => {
                            assert(self@[i as int].name != name@);
                        },
                    }
                }
                return Some(i);
            }
            i = i + 1;
        }
        None
    }

    /// Whether a node named `name` is known.
    pub fn contains(&self, name: &str) -> (r: bool)
        ensures
            r == lookup(self@, name@) is Some,
    {
        self.find(name).is_some()
    }

    /// The node named `name`.
    pub fn get(&self, name: &str) -> (r: Option<&Node>)
        ensures
            match r {
                Some(n) => lookup(self@, name@) == Some(n@),
                None => lookup(self@, name@) is None,
            },
    {
        match self.find(name) {
            Some(i) => Some(&self.nodes[i]),
            None => None,
        }
    }

    /// The known nodes.
    pub fn nodes(&self) -> (r: &Vec<Node>)
        ensures
            nodes_view(r@) == self@,
    {
        &self.nodes
    }

    fn store(&mut self, n: Node) -> (r: Option<Node>)
        requires
            old(self).wf(),
            n.wf(),
        ensures
            final(self).wf(),
            final(self)@ == stored(old(self)@, n@),
            match r {
                Some(o) => lookup(old(self)@, n@.name) == Some(o@),
                None => lookup(old(self)@, n@.name) is None,
            },
    {
        proof {
            law_stored_node_is_found(self@, n@);
        }
        match self.find(n.name.as_str()) {
            Some(i) => {
                let ghost before = self.nodes@;
                let mut n = n;
                std::mem::swap(&mut n, &mut self.nodes[i]);
                assert(self@ =~= nodes_view(before).update(i as int, self.nodes@[i as int]@));
                Some(n)
            },
            None => {
                let ghost before = self.nodes@;
                self.nodes.push(n);
                assert(self@ =~= nodes_view(before).push(self.nodes@.last()@));
                None
            },
        }
    }

    fn take(&mut self, i: usize) -> (r: Node)
        requires
            old(self).wf(),
            i < old(self).nodes.len(),
        ensures
            final(self)@ == old(self)@.remove(i as int),
            r@ == old(self)@[i as int],
    {
        let ghost before = self.nodes@;
        let r = self.nodes.remove(i);
        assert(self@ =~= nodes_view(before).remove(i as int));
        r
    }

    /// Adds `node` under its name, replacing a node of that name.
    pub fn append_node(&mut self, node: Node) -> (r: AppendEffects)
        requires
            old(self).wf(),
            node.wf(),
        ensures
            final(self).wf(),
            final(self)@ == stored(old(self)@, node@),
            r.start_tasks == node@.enabled,
            r.events@ == append_events(node@.enabled),
            match r.replaced {
                Some(o) => lookup(old(self)@, node@.name) == Some(o@),
                None => lookup(old(self)@, node@.name) is None,
            },
    {
        let enabled = node.enabled;
        let mut events: Vec<NodeStatus> = Vec::new();
        if !enabled {
            events.push(NodeStatus::Removed);
        }
        events.push(NodeStatus::Offline);
        let replaced = self.store(node);
        assert(events@ =~= append_events(enabled));
        AppendEffects { start_tasks: enabled, events, replaced }
    }

    /// Removes the node named `name`; its item topics are to be
    /// unsubscribed.
    pub fn remove_node(&mut self, name: &str, topic_prefix: &str) -> (r: Result<Removal, NodeError>)
        requires
            old(self).wf(),
        ensures
            final(self).wf(),
            final(self)@ == without(old(self)@, name@),
            match lookup(old(self)@, name@) {
                None => r == Err::<Removal, NodeError>(NodeError::NotFound),
                Some(n) => r matches Ok(rm) && rm.node@ == n && strings_view(rm.unsubscribe@)
                    == topics_of(topic_prefix@, n.oids),
            },
    {
        proof {
            law_removed_node_is_gone(self@, name@);
        }
        match self.find(name) {
            None => Err(NodeError::NotFound),
            Some(i) => {
                let node = self.take(i);
                let unsubscribe = item_topics(topic_prefix, &node.oids);
                Ok(Removal { node, unsubscribe })
            },
        }
    }

    /// Adds a node declared in the configuration, first removing a node of
    /// the same name.
    pub fn append_static_node(&mut self, node: Node, topic_prefix: &str) -> (r: (
        Option<Removal>,
        AppendEffects,
    ))
        requires
            old(self).wf(),
            node.wf(),
        ensures
            final(self).wf(),
            final(self)@ == stored(without(old(self)@, node@.name), node@),
            match lookup(old(self)@, node@.name) {
                None => r.0 is None,
                Some(n) => r.0 matches Some(rm) && rm.node@ == n && strings_view(rm.unsubscribe@)
                    == topics_of(topic_prefix@, n.oids),
            },
            r.1.start_tasks == node@.enabled,
            r.1.events@ == append_events(node@.enabled),
            r.1.replaced is None,
    {
        proof {
            law_removed_node_is_gone(self@, node@.name);
        }
        let removal = if self.contains(node.name.as_str()) {
            match self.remove_node(node.name.as_str(), topic_prefix) {
                Ok(rm) => Some(rm),
                Err(_) => None,
            }
        } else {
            None
        };
        let effects = self.append_node(node);
        (removal, effects)
    }

    /// Records the link state of the node named `name`. A non-static node
    /// whose link goes down is removed; otherwise the state is set and, as
    /// for an unknown node when `force` is given, an event is published.
    pub fn mark_node(&mut self, name: &str, online: bool, force: bool, now: Instant, topic_prefix: &str) -> (r:
        MarkOutcome)
        requires
            old(self).wf(),
        ensures
            final(self).wf(),
            match lookup(old(self)@, name@) {
                Some(n) => if n.online != online {
                    if n.sttc || online {
                        &&& final(self)@ == stored(old(self)@, marked(n, online, now))
                        &&& r == MarkOutcome::Publish(link_status(online))
                    } else {
                        &&& final(self)@ == without(old(self)@, name@)
                        &&& r matches MarkOutcome::Removed(rm)
                        &&& rm.node@ == n
                        &&& strings_view(rm.unsubscribe@) == topics_of(topic_prefix@, n.oids)
                    }
                } else {
                    &&& final(self)@ == old(self)@
                    &&& r == MarkOutcome::Publish(link_status(online))
                },
                None => {
                    &&& final(self)@ == old(self)@
                    &&& r == (if force {
                        MarkOutcome::Publish(link_status(online))
                    } else {
                        MarkOutcome::Nothing
                    })
                },
            },
    {
        proof {
            lemma_node_index(self@, name@);
        }
        let status = if online {
            NodeStatus::Online
        } else {
            NodeStatus::Offline
        };
        match self.find(name) {
            None => if force {
                MarkOutcome::Publish(status)
            } else {
                MarkOutcome::Nothing
            },
            Some(i) => {
                assert(self@[i as int] == self.nodes@[i as int]@);
                if self.nodes[i].online != online {
                    if self.nodes[i].sttc || online {
                        let ghost before = self@;
                        proof {
                            law_stored_node_is_found(before, marked(before[i as int], online, now));
                            lemma_node_index_unique(before, name@, i as int);
                        }
                        self.nodes[i].online = online;
                        self.nodes[i].link_uptime = if online {
                            Some(now)
                        } else {
                            None
                        };
                        assert(self@ =~= before.update(i as int, marked(before[i as int], online, now)));
                        MarkOutcome::Publish(status)
                    } else {
                        match self.remove_node(name, topic_prefix) {
                            Ok(rm) => MarkOutcome::Removed(rm),
                            Err(_) => MarkOutcome::Nothing,
                        }
                    }
                } else {
                    MarkOutcome::Publish(status)
                }
            },
        }
    }

    /// Handles a node seen on the bus: the service's own name is ignored;
    /// a known node that is enabled but offline is to be reloaded; an
    /// unknown node is added with the defaults when discovery is enabled.
    pub fn append_discovered_node(
        &mut self,
        name: &str,
        system_name: &str,
        discovery_enabled: bool,
        defaults: &NodeDefaults,
    ) -> (r: Discovery)
        requires
            old(self).wf(),
        ensures
            final(self).wf(),
            if name@ == system_name@ {
                r is Own && final(self)@ == old(self)@
            } else {
                match lookup(old(self)@, name@) {
                    Some(n) => final(self)@ == old(self)@ && if n.enabled && !n.online {
                        r is TriggerReload
                    } else {
                        r is Known
                    },
                    None => if discovery_enabled {
                        &&& final(self)@ == stored(old(self)@, default_node(name@, false, *defaults))
                        &&& r matches Discovery::Appended(e)
                        &&& e.start_tasks
                        &&& e.events@ == append_events(true)
                        &&& e.replaced is None
                    } else {
                        r is Refused && final(self)@ == old(self)@
                    },
                }
            },
    {
        if str_eq(name, system_name) {
            return Discovery::Own;
        }
        match self.get(name) {
            Some(n) => if n.enabled && !n.online {
                Discovery::TriggerReload
            } else {
                Discovery::Known
            },
            None => if discovery_enabled {
                let node = Node::new(name, false, defaults);
                Discovery::Appended(self.append_node(node))
            } else {
                Discovery::Refused
            },
        }
    }


    /// Records a reload of the node named `name` at `now`: the version it
    /// reported and, where items are followed one by one, the items it
    /// listed; gives the item topics to subscribe to and to unsubscribe
    /// from.
    pub fn record_reload(
        &mut self,
        name: &str,
        version: String,
        build: u64,
        items: Option<Vec<String>>,
        subscribe_each: bool,
        now: Instant,
        topic_prefix: &str,
    ) -> (r: Result<OidChange, NodeError>)
        requires
            old(self).wf(),
        ensures
            final(self).wf(),
            match lookup(old(self)@, name@) {
                None => r == Err::<OidChange, NodeError>(NodeError::NotFound) && final(self)@ == old(
                    self,
                )@,
                Some(n) => {
                    &&& final(self)@ == stored(
                        old(self)@,
                        reloaded(n, (version@, build), opt_strings_view(items), subscribe_each, now),
                    )
                    &&& r matches Ok(ch)
                    &&& match opt_strings_view(items) {
                        Some(it) if subscribe_each => {
                            &&& strings_view(ch.subscribe@) == topics_of(topic_prefix@, added(n.oids, it))
                            &&& strings_view(ch.unsubscribe@) == topics_of(
                                topic_prefix@,
                                kept(n.oids, it, false),
                            )
                        },
                        _ => ch.subscribe@.len() == 0 && ch.unsubscribe@.len() == 0,
                    }
                },
            },
    {
        let i = match self.find(name) {
            None => {
                return Err(NodeError::NotFound);
            },
            Some(i) => i,
        };
        let ghost before = self@;
        let ghost n = before[i as int];
        assert(n == self.nodes@[i as int]@);
        proof {
            lemma_node_index(before, name@);
        }
        let mut subscribe: Vec<String> = Vec::new();
        let mut unsubscribe: Vec<String> = Vec::new();
        let mut new_oids: Option<Vec<String>> = None;
        match &items {
            Some(it) => if subscribe_each {
                let old_oids = &self.nodes[i].oids;
                let gone = kept_paths(old_oids, it, false);
                let mut stay = kept_paths(old_oids, it, true);
                let fresh = added_paths(old_oids, it);
                unsubscribe = item_topics(topic_prefix, &gone);
                subscribe = item_topics(topic_prefix, &fresh);
                let mut k: usize = 0;
                let ghost s0 = strings_view(stay@);
                while k < fresh.len()
                    invariant
                        k <= fresh.len(),
                        strings_view(stay@) == s0 + strings_view(fresh@).take(k as int),
                    decreases fresh.len() - k,
                {
                    let ghost b = stay@;
                    stay.push(fresh[k].clone());
                    assert(strings_view(stay@) =~= strings_view(b).push(fresh@[k as int]@));
                    assert(strings_view(fresh@).take(k + 1) =~= strings_view(fresh@).take(
                        k as int,
                    ).push(fresh@[k as int]@));
                    k = k + 1;
                }
                assert(strings_view(fresh@).take(fresh.len() as int) =~= strings_view(fresh@));
                new_oids = Some(stay);
            },
            None => {},
        }
        let ghost target = reloaded(n, (version@, build), opt_strings_view(items), subscribe_each, now);
        proof {
            match opt_strings_view(items) {
                Some(it) => law_reload_follows_listed_items(n.oids, it),
                None => {},
            }
            law_stored_node_is_found(before, target);
        }
        self.nodes[i].last_reload = Some(now);
        self.nodes[i].info = Some(NodeVersion { version, build });
        match new_oids {
            Some(o) => {
                self.nodes[i].oids = o;
            },
            None => {},
        }
        assert(self@ =~= before.update(i as int, target));
        proof {
            assert(subscribe_each && items is Some ==> strings_view(subscribe@) =~= topics_of(topic_prefix@, added(n.oids, opt_strings_view(items)->0)));
        }
        assert(subscribe@.len() == 0 || (subscribe_each && items is Some));
        Ok(OidChange { subscribe, unsubscribe })
    }

}


#[verifier::external_type_specification]
#[verifier::external_body]
pub struct ExInventoryItem(ReplicationInventoryItem);

/// The items whose grant is set, in their order (none where the grants do
/// not match the items one for one).
pub open spec fn granted_items<T>(items: Seq<T>, grants: Seq<bool>) -> Seq<T>
    decreases items.len(),
{
    if items.len() == 0 || grants.len() != items.len() {
        Seq::empty()
    } else if grants.last() {
        granted_items(items.drop_last(), grants.drop_last()).push(items.last())
    } else {
        granted_items(items.drop_last(), grants.drop_last())
    }
}

/// Whether `kept` is `items` with some grant for each, the granted ones in
/// order.
pub open spec fn kept_by_grants<T>(kept: Seq<T>, items: Seq<T>) -> bool {
    exists|grants: Seq<bool>| grants.len() == items.len() && #[trigger] granted_items(items, grants) == kept
}

/// Calls `Acl::check_item_write` on the item's OID. Whether the ACL grants
/// writing the item is not stated: it rests on the ACL's private masks.
#[verifier::external_body]
fn item_write_allowed(acl: &Acl, item: &ReplicationInventoryItem) -> (r: bool) {
    acl.check_item_write(&item.oid)
}

/// The items of an untrusted node that its key's ACL lets it replicate
/// (write), in their order. Whatever the ACL grants, the result is the
/// items with some grant each.
pub fn writable_items(acl: &Acl, items: Vec<ReplicationInventoryItem>) -> (r: Vec<
    ReplicationInventoryItem,
>)
    ensures
        kept_by_grants(r@, items@),
{
    let ghost all = items@;
    let mut rest = items;
    let mut out: Vec<ReplicationInventoryItem> = Vec::new();
    let ghost mut grants: Seq<bool> = Seq::empty();
    let ghost mut taken: Seq<ReplicationInventoryItem> = Seq::empty();
    while rest.len() > 0
        invariant
            all == taken + rest@,
            grants.len() == taken.len(),
            out@ == granted_items(taken, grants),
        decreases rest.len(),
    {
        let ghost before = rest@;
        let item = rest.remove(0);
        let ok = item_write_allowed(acl, &item);
        proof {
            let nt = taken.push(item);
            let ng = grants.push(ok);
            assert(nt.drop_last() =~= taken);
            assert(ng.drop_last() =~= grants);
            assert(all =~= nt + rest@);
        }
        if ok {
            out.push(item);
        }
        proof {
            taken = taken.push(item);
            grants = grants.push(ok);
        }
    }
    assert(taken =~= all);
    assert(kept_by_grants(out@, all));
    out
}

} // verus!
