//! The HMI's live item streams: which web socket clients follow the stream
//! of each item, the bus topics that a stream takes, and the streams that
//! end when the last of their clients has closed its socket.
use crate::text::{after_prefix, push_str, str_eq, strip_prefix};
use crate::web::HmiTopics;
use vstd::prelude::*;

verus! {

/// The clients of each followed item, by the item's path.
pub struct StreamClients {
    entries: Vec<(String, Vec<u64>)>,
}

pub open spec fn streams_view(v: Seq<(String, Vec<u64>)>) -> Seq<(Seq<char>, Seq<u64>)> {
    v.map_values(|e: (String, Vec<u64>)| (e.0@, e.1@))
}

impl View for StreamClients {
    type V = Seq<(Seq<char>, Seq<u64>)>;

    closed spec fn view(&self) -> Seq<(Seq<char>, Seq<u64>)> {
        streams_view(self.entries@)
    }
}

/// The strings as values.
pub open spec fn strings_view(v: Seq<String>) -> Seq<Seq<char>> {
    v.map_values(|x: String| x@)
}

/// The clients of the item at `path` (none where it is not followed).
pub open spec fn clients_of(s: Seq<(Seq<char>, Seq<u64>)>, path: Seq<char>) -> Seq<u64>
    decreases s.len(),
{
    if s.len() == 0 {
        Seq::empty()
    } else if s.last().0 == path {
        s.last().1
    } else {
        clients_of(s.drop_last(), path)
    }
}

/// Whether no item has two entries.
pub open spec fn paths_distinct(s: Seq<(Seq<char>, Seq<u64>)>) -> bool {
    forall|i: int, j: int| 0 <= i < s.len() && 0 <= j < s.len() && i != j ==> #[trigger] s[i].0 != #[trigger] s[j].0
}

/// The registry's invariant: one entry per item, and no entry without
/// clients.
pub open spec fn streams_wf(s: Seq<(Seq<char>, Seq<u64>)>) -> bool {
    &&& paths_distinct(s)
    &&& forall|i: int| 0 <= i < s.len() ==> #[trigger] s[i].1.len() > 0
}

/// `ids` with `id` in it once: added at the end where it is not there.
pub open spec fn with_client(ids: Seq<u64>, id: u64) -> Seq<u64> {
    if ids.contains(id) {
        ids
    } else {
        ids.push(id)
    }
}

/// The clients of `cs` whose sockets are not among `closed`, in order.
pub open spec fn kept(cs: Seq<u64>, closed: Seq<u64>) -> Seq<u64>
    decreases cs.len(),
{
    if cs.len() == 0 {
        Seq::empty()
    } else if closed.contains(cs.last()) {
        kept(cs.drop_last(), closed)
    } else {
        kept(cs.drop_last(), closed).push(cs.last())
    }
}

/// The streams once the clients among `closed` are dropped: each keeps its
/// open clients, and a stream left without any ends.
pub open spec fn swept(s: Seq<(Seq<char>, Seq<u64>)>, closed: Seq<u64>) -> Seq<(Seq<char>, Seq<u64>)>
    decreases s.len(),
{
    if s.len() == 0 {
        Seq::empty()
    } else if kept(s.last().1, closed).len() == 0 {
        swept(s.drop_last(), closed)
    } else {
        swept(s.drop_last(), closed).push((s.last().0, kept(s.last().1, closed)))
    }
}

/// The bus topics that the streams ended by a sweep no longer need: for
/// each such item in order, its local state topic, then its remote one.
pub open spec fn gone_topics(
    s: Seq<(Seq<char>, Seq<u64>)>,
    closed: Seq<u64>,
    local: Seq<char>,
    remote: Seq<char>,
) -> Seq<Seq<char>>
    decreases s.len(),
{
    if s.len() == 0 {
        Seq::empty()
    } else if kept(s.last().1, closed).len() == 0 {
        gone_topics(s.drop_last(), closed, local, remote).push(local + s.last().0).push(
            remote + s.last().0,
        )
    } else {
        gone_topics(s.drop_last(), closed, local, remote)
    }
}

/// Under one entry per item, an entry's clients are the item's clients,
/// and an item without an entry has none.
proof fn lemma_clients_at(s: Seq<(Seq<char>, Seq<u64>)>, path: Seq<char>)
    requires
        paths_distinct(s),
    ensures
        forall|i: int| 0 <= i < s.len() && #[trigger] s[i].0 == path ==> clients_of(s, path) == s[i].1,
        (forall|i: int| 0 <= i < s.len() ==> #[trigger] s[i].0 != path) ==> clients_of(s, path)
            == Seq::<u64>::empty(),
    decreases s.len(),
{
    if s.len() > 0 {
        let d = s.drop_last();
        assert(paths_distinct(d)) by {
            assert forall|i: int, j: int| 0 <= i < d.len() && 0 <= j < d.len() && i != j implies #[trigger] d[i].0 != #[trigger] d[j].0 by {
                assert(d[i] == s[i] && d[j] == s[j]);
            }
        }
        lemma_clients_at(d, path);
        assert forall|i: int| 0 <= i < s.len() && #[trigger] s[i].0 == path implies clients_of(s, path) == s[i].1 by {
            if i < s.len() - 1 {
                assert(s[i].0 != s[s.len() - 1].0);
                assert(d[i] == s[i]);
            }
        }
        if forall|i: int| 0 <= i < s.len() ==> #[trigger] s[i].0 != path {
            assert(s[s.len() - 1].0 != path);
            assert forall|i: int| 0 <= i < d.len() implies #[trigger] d[i].0 != path by {
                assert(d[i] == s[i]);
            }
        }
    }
}

proof fn lemma_kept_closed(cs: Seq<u64>, closed: Seq<u64>)
    ensures
        forall|c: u64| #[trigger] kept(cs, closed).contains(c) ==> cs.contains(c) && !closed.contains(c),
    decreases cs.len(),
{
    if cs.len() > 0 {
        lemma_kept_closed(cs.drop_last(), closed);
        let prev = kept(cs.drop_last(), closed);
        assert forall|c: u64| #[trigger] kept(cs, closed).contains(c) implies cs.contains(c) && !closed.contains(c) by {
            if prev.contains(c) {
                let k = choose|k: int| 0 <= k < cs.drop_last().len() && cs.drop_last()[k] == c;
                assert(cs[k] == c);
            } else {
                assert(!closed.contains(cs.last()));
                let k = choose|k: int| 0 <= k < kept(cs, closed).len() && kept(cs, closed)[k] == c;
                assert(kept(cs, closed)[k] == cs.last());
                assert(cs[cs.len() - 1] == c);
            }
        }
    }
}

proof fn lemma_kept_keeps(cs: Seq<u64>, closed: Seq<u64>)
    ensures
        forall|c: u64| cs.contains(c) && !closed.contains(c) ==> #[trigger] kept(cs, closed).contains(c),
    decreases cs.len(),
{
    if cs.len() > 0 {
        lemma_kept_keeps(cs.drop_last(), closed);
        let prev = kept(cs.drop_last(), closed);
        assert forall|c: u64| cs.contains(c) && !closed.contains(c) implies #[trigger] kept(cs, closed).contains(c) by {
            let k = choose|k: int| 0 <= k < cs.len() && cs[k] == c;
            if k < cs.len() - 1 {
                assert(cs.drop_last()[k] == c);
                assert(prev.contains(c));
                let m = choose|m: int| 0 <= m < prev.len() && prev[m] == c;
                if !closed.contains(cs.last()) {
                    assert(kept(cs, closed)[m] == c);
                }
            } else {
                assert(kept(cs, closed)[prev.len() as int] == c);
            }
        }
    }
}

/// A sweep keeps, of every stream, exactly its clients that are still
/// open, in their order; the streams that remain each have a client.
pub proof fn law_sweep_keeps_open_clients(
    s: Seq<(Seq<char>, Seq<u64>)>,
    closed: Seq<u64>,
    path: Seq<char>,
)
    requires
        streams_wf(s),
    ensures
        clients_of(swept(s, closed), path) == kept(clients_of(s, path), closed),
        forall|c: u64| #[trigger] clients_of(swept(s, closed), path).contains(c) <==> (clients_of(
            s,
            path,
        ).contains(c) && !closed.contains(c)),
    decreases s.len(),
{
    if s.len() > 0 {
        let d = s.drop_last();
        let e = s.last();
        assert(streams_wf(d)) by {
            assert forall|i: int, j: int| 0 <= i < d.len() && 0 <= j < d.len() && i != j implies #[trigger] d[i].0 != #[trigger] d[j].0 by {
                assert(d[i] == s[i] && d[j] == s[j]);
            }
            assert forall|i: int| 0 <= i < d.len() implies #[trigger] d[i].1.len() > 0 by {
                assert(d[i] == s[i]);
            }
        }
        law_sweep_keeps_open_clients(d, closed, path);
        let sd = swept(d, closed);
        assert(sd.push((e.0, kept(e.1, closed))).drop_last() =~= sd);
        assert(s.drop_last() =~= d);
        if kept(e.1, closed).len() == 0 && e.0 == path {
            assert forall|i: int| 0 <= i < d.len() implies #[trigger] d[i].0 != path by {
                assert(d[i] == s[i]);
                assert(s[i].0 != s[s.len() - 1].0);
            }
            lemma_clients_at(d, path);
            assert(clients_of(d, path) == Seq::<u64>::empty());
            assert(kept(Seq::<u64>::empty(), closed) == Seq::<u64>::empty());
        }
    }
    lemma_kept_closed(clients_of(s, path), closed);
    lemma_kept_keeps(clients_of(s, path), closed);
}

fn has_id(ids: &Vec<u64>, id: u64) -> (r: bool)
    ensures
        r == ids@.contains(id),
{
    let mut i: usize = 0;
    while i < ids.len()
        invariant
            i <= ids.len(),
            forall|j: int| 0 <= j < i ==> ids@[j] != id,
        decreases ids.len() - i,
    {
        if ids[i] == id {
            return true;
        }
        i = i + 1;
    }
    false
}

/// The clients of `cs` that are not among `closed`.
fn keep_open(cs: &Vec<u64>, closed: &Vec<u64>) -> (r: Vec<u64>)
    ensures
        r@ == kept(cs@, closed@),
{
    let mut r: Vec<u64> = Vec::new();
    let mut i: usize = 0;
    while i < cs.len()
        invariant
            i <= cs.len(),
            r@ == kept(cs@.take(i as int), closed@),
        decreases cs.len() - i,
    {
        assert(cs@.take(i as int + 1).drop_last() =~= cs@.take(i as int));
        if !has_id(closed, cs[i]) {
            r.push(cs[i]);
        }
        i = i + 1;
    }
    assert(cs@.take(cs.len() as int) =~= cs@);
    r
}

/// The topic `prefix` followed by `path`.
fn topic_of(prefix: &String, path: &String) -> (r: String)
    ensures
        r@ == prefix@ + path@,
{
    let mut r = prefix.clone();
    push_str(&mut r, path.as_str());
    r
}

/// The path of the item whose state a bus event carries, for a stream:
/// the rest of a local state topic, else of a remote state topic.
pub open spec fn stream_path_spec(topic: Seq<char>, t: HmiTopics) -> Option<Seq<char>> {
    if after_prefix(topic, t.local_state@) is Some {
        after_prefix(topic, t.local_state@)
    } else {
        after_prefix(topic, t.remote_state@)
    }
}

/// The item path of a state event that a stream may follow, or `None` for
/// any other topic.
pub fn stream_path(topic: &str, t: &HmiTopics) -> (r: Option<String>)
    ensures
        match stream_path_spec(topic@, *t) {
            Some(p) => (r matches Some(x) && x@ == p),
            None => r is None,
        },
{
    if let Some(p) = strip_prefix(topic, t.local_state.as_str()) {
        return Some(p);
    }
    strip_prefix(topic, t.remote_state.as_str())
}

impl StreamClients {
    pub open spec fn wf(&self) -> bool {
        streams_wf(self@)
    }

    /// No stream followed.
    pub fn new() -> (r: StreamClients)
        ensures
            r.wf(),
            r@ == Seq::<(Seq<char>, Seq<u64>)>::empty(),
    {
        let r = StreamClients { entries: Vec::new() };
        assert(r@ =~= Seq::<(Seq<char>, Seq<u64>)>::empty());
        r
    }

    fn find(&self, path: &str) -> (r: Option<usize>)
        requires
            self.wf(),
        ensures
            match r {
                Some(i) => i < self@.len() && self@[i as int].0 == path@,
                None => forall|j: int| 0 <= j < self@.len() ==> #[trigger] self@[j].0 != path@,
            },
    {
        let mut i: usize = 0;
        while i < self.entries.len()
            invariant
                i <= self.entries.len(),
                forall|j: int| 0 <= j < i ==> #[trigger] self@[j].0 != path@,
            decreases self.entries.len() - i,
        {
            assert(self@[i as int].0 == self.entries@[i as int].0@);
            if str_eq(self.entries[i].0.as_str(), path) {
                return Some(i);
            }
            i = i + 1;
        }
        None
    }

    /// The clients that follow the stream of the item at `path`.
    pub fn clients(&self, path: &str) -> (r: Vec<u64>)
        requires
            self.wf(),
        ensures
            r@ == clients_of(self@, path@),
    {
        proof {
            lemma_clients_at(self@, path@);
        }
        match self.find(path) {
            Some(i) => {
                assert(self@[i as int].1 == self.entries@[i as int].1@);
                self.entries[i].1.clone()
            },
            None => Vec::new(),
        }
    }

    /// Records that `client` follows the stream of the item at `path`, and
    /// gives the bus topics to subscribe to for it: the item's local state
    /// topic, then its remote one.
    pub fn attach(&mut self, path: &str, client: u64, t: &HmiTopics) -> (r: Vec<String>)
        requires
            old(self).wf(),
        ensures
            final(self).wf(),
            clients_of(final(self)@, path@) == with_client(clients_of(old(self)@, path@), client),
            forall|o: Seq<char>| o != path@ ==> #[trigger] clients_of(final(self)@, o) == clients_of(old(self)@, o),
            strings_view(r@) == seq![t.local_state@ + path@, t.remote_state@ + path@],
    {
        let ghost s = self@;
        let ps = path.to_owned();
        proof {
            lemma_clients_at(s, path@);
        }
        match self.find(path) {
            Some(i) => {
                let found = has_id(&self.entries[i].1, client);
                assert(self@[i as int].1 == self.entries@[i as int].1@);
                if !found {
                    self.entries[i].1.push(client);
                }
                assert(self@ =~= s.update(i as int, (path@, with_client(s[i as int].1, client))));
                proof {
                    assert(streams_wf(self@)) by {
                        assert forall|a: int, b: int| 0 <= a < self@.len() && 0 <= b < self@.len() && a != b implies #[trigger] self@[a].0 != #[trigger] self@[b].0 by {
                            assert(self@[a].0 == s[a].0);
                            assert(self@[b].0 == s[b].0);
                        }
                        assert forall|a: int| 0 <= a < self@.len() implies #[trigger] self@[a].1.len() > 0 by {
                            if a != i {
                                assert(self@[a] == s[a]);
                            }
                        }
                    }
                    lemma_clients_at(self@, path@);
                    assert(self@[i as int].0 == path@);
                    assert(s[i as int].0 == path@);
                    assert forall|o: Seq<char>| o != path@ implies #[trigger] clients_of(self@, o) == clients_of(s, o) by {
                        lemma_clients_at(s, o);
                        lemma_clients_at(self@, o);
                        if exists|k: int| 0 <= k < s.len() && #[trigger] s[k].0 == o {
                            let k = choose|k: int| 0 <= k < s.len() && #[trigger] s[k].0 == o;
                            assert(self@[k] == s[k]);
                        } else {
                            assert forall|k: int| 0 <= k < self@.len() implies #[trigger] self@[k].0 != o by {
                                assert(self@[k].0 == s[k].0);
                            }
                        }
                    }
                }
            },
            None => {
                let mut ids: Vec<u64> = Vec::new();
                ids.push(client);
                self.entries.push((ps.clone(), ids));
                assert(self@ =~= s.push((path@, seq![client])));
                proof {
                    assert(streams_wf(self@)) by {
                        assert forall|a: int, b: int| 0 <= a < self@.len() && 0 <= b < self@.len() && a != b implies #[trigger] self@[a].0 != #[trigger] self@[b].0 by {
                            if a < s.len() {
                                assert(self@[a] == s[a]);
                            }
                            if b < s.len() {
                                assert(self@[b] == s[b]);
                            }
                        }
                        assert forall|a: int| 0 <= a < self@.len() implies #[trigger] self@[a].1.len() > 0 by {
                            if a < s.len() {
                                assert(self@[a] == s[a]);
                            }
                        }
                    }
                    assert(with_client(Seq::<u64>::empty(), client) =~= seq![client]);
                    assert forall|o: Seq<char>| o != path@ implies #[trigger] clients_of(self@, o) == clients_of(s, o) by {
                        assert(self@.drop_last() =~= s);
                    }
                }
            },
        }
        let mut r: Vec<String> = Vec::new();
        r.push(topic_of(&t.local_state, &ps));
        r.push(topic_of(&t.remote_state, &ps));
        assert(strings_view(r@) =~= seq![t.local_state@ + path@, t.remote_state@ + path@]);
        r
    }

    /// Drops the clients among `closed` and ends the streams left without
    /// any, giving the bus topics to unsubscribe from for those.
    pub fn sweep(&mut self, closed: &Vec<u64>, t: &HmiTopics) -> (r: Vec<String>)
        requires
            old(self).wf(),
        ensures
            final(self).wf(),
            final(self)@ == swept(old(self)@, closed@),
            strings_view(r@) == gone_topics(old(self)@, closed@, t.local_state@, t.remote_state@),
    {
        let ghost s = self@;
        let mut left: Vec<(String, Vec<u64>)> = Vec::new();
        let mut topics: Vec<String> = Vec::new();
        let mut i: usize = 0;
        while i < self.entries.len()
            invariant
                i <= self.entries.len(),
                self@ == s,
                streams_wf(s),
                streams_view(left@) == swept(s.take(i as int), closed@),
                strings_view(topics@) == gone_topics(
                    s.take(i as int),
                    closed@,
                    t.local_state@,
                    t.remote_state@,
                ),
                forall|k: int| 0 <= k < left@.len() ==> exists|j: int|
                    0 <= j < i && #[trigger] streams_view(left@)[k].0 == s[j].0,
                forall|k: int| 0 <= k < left@.len() ==> #[trigger] streams_view(left@)[k].1.len() > 0,
                paths_distinct(streams_view(left@)),
            decreases self.entries.len() - i,
        {
            let ghost before = streams_view(left@);
            assert(s.take(i as int + 1).drop_last() =~= s.take(i as int));
            assert(s.take(i as int + 1).last() == s[i as int]);
            assert(s[i as int] == (self.entries@[i as int].0@, self.entries@[i as int].1@));
            let ks = keep_open(&self.entries[i].1, closed);
            if ks.len() == 0 {
                let a = topic_of(&t.local_state, &self.entries[i].0);
                let b = topic_of(&t.remote_state, &self.entries[i].0);
                let ghost tv = strings_view(topics@);
                topics.push(a);
                topics.push(b);
                assert(strings_view(topics@) =~= tv.push(a@).push(b@));
            } else {
                let p = self.entries[i].0.clone();
                left.push((p, ks));
                assert(streams_view(left@) =~= before.push((s[i as int].0, kept(s[i as int].1, closed@))));
                proof {
                    assert forall|k: int| 0 <= k < left@.len() implies exists|j: int|
                        0 <= j < i + 1 && #[trigger] streams_view(left@)[k].0 == s[j].0 by {
                        if k < before.len() {
                            assert(streams_view(left@)[k] == before[k]);
                            let j = choose|j: int| 0 <= j < i && #[trigger] before[k].0 == s[j].0;
                            assert(streams_view(left@)[k].0 == s[j].0);
                        } else {
                            assert(streams_view(left@)[k].0 == s[i as int].0);
                        }
                    }
                    assert forall|k: int| 0 <= k < left@.len() implies #[trigger] streams_view(left@)[k].1.len() > 0 by {
                        if k < before.len() {
                            assert(streams_view(left@)[k] == before[k]);
                        }
                    }
                    assert forall|a: int, b: int| 0 <= a < left@.len() && 0 <= b < left@.len() && a != b implies #[trigger] streams_view(left@)[a].0 != #[trigger] streams_view(left@)[b].0 by {
                        if a < before.len() && b < before.len() {
                            assert(streams_view(left@)[a] == before[a]);
                            assert(streams_view(left@)[b] == before[b]);
                        } else if a < before.len() {
                            assert(streams_view(left@)[a] == before[a]);
                            let j = choose|j: int| 0 <= j < i && #[trigger] before[a].0 == s[j].0;
                            assert(s[j].0 != s[i as int].0);
                        } else if b < before.len() {
                            assert(streams_view(left@)[b] == before[b]);
                            let j = choose|j: int| 0 <= j < i && #[trigger] before[b].0 == s[j].0;
                            assert(s[j].0 != s[i as int].0);
                        }
                    }
                }
            }
            i = i + 1;
        }
        assert(s.take(self.entries.len() as int) =~= s);
        self.entries = left;
        topics
    }
}


/// The answer to a client that asks to start following an item's stream.
#[derive(PartialEq, Eq, Structural, Copy, Clone, Debug)]
pub enum StreamStart {
    /// the ACL does not let the client read the item
    Forbidden,
    /// the client is attached to the stream
    Start,
}

impl StreamStart {
    /// The text of the stream frame that answers the client.
    pub fn reply_text(&self) -> (r: String)
        ensures
            r@ == (match *self {
                StreamStart::Forbidden => "forbidden"@,
                StreamStart::Start => "start"@,
            }),
    {
        match self {
            StreamStart::Forbidden => "forbidden".to_owned(),
            StreamStart::Start => "start".to_owned(),
        }
    }
}

/// The answer to a stream start, given whether the client may read the
/// item: only a reader is attached.
pub fn stream_start(readable: bool) -> (r: StreamStart)
    ensures
        r == (if readable {
            StreamStart::Start
        } else {
            StreamStart::Forbidden
        }),
{
    if readable {
        StreamStart::Start
    } else {
        StreamStart::Forbidden
    }
}

} // verus!
