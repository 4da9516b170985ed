//! The HMI's record of which web sockets each session token has opened, so
//! that they can be closed when the token is destroyed or expires.
use crate::text::str_eq;
use crate::token::{TokenId, TokenIdModel};
use vstd::prelude::*;

verus! {

/// The sockets of each token, by socket id.
pub struct TokenSockets {
    entries: Vec<(TokenId, Vec<u128>)>,
}

pub open spec fn entries_view(v: Seq<(TokenId, Vec<u128>)>) -> Seq<(TokenIdModel, Seq<u128>)> {
    v.map_values(|e: (TokenId, Vec<u128>)| (e.0@, e.1@))
}

impl View for TokenSockets {
    type V = Seq<(TokenIdModel, Seq<u128>)>;

    closed spec fn view(&self) -> Seq<(TokenIdModel, Seq<u128>)> {
        entries_view(self.entries@)
    }
}

/// The index of the entry of token `t`.
pub open spec fn token_index(s: Seq<(TokenIdModel, Seq<u128>)>, t: TokenIdModel) -> Option<int> {
    if exists|i: int| 0 <= i < s.len() && #[trigger] s[i].0 == t {
        Some(choose|i: int| 0 <= i < s.len() && #[trigger] s[i].0 == t)
    } else {
        None
    }
}

/// The sockets of token `t`.
pub open spec fn sockets_of(s: Seq<(TokenIdModel, Seq<u128>)>, t: TokenIdModel) -> Seq<u128> {
    match token_index(s, t) {
        Some(i) => s[i].1,
        None => Seq::empty(),
    }
}

/// Whether no token has two entries.
pub open spec fn tokens_distinct(s: Seq<(TokenIdModel, Seq<u128>)>) -> bool {
    forall|i: int, j: int| 0 <= i < s.len() && 0 <= j < s.len() && i != j ==> #[trigger] s[i].0 != #[trigger] s[j].0
}

/// `ids` with `id` set once: added at the end where it is not there.
pub open spec fn with_socket(ids: Seq<u128>, id: u128) -> Seq<u128> {
    if ids.contains(id) {
        ids
    } else {
        ids.push(id)
    }
}

proof fn lemma_token_index(s: Seq<(TokenIdModel, Seq<u128>)>, t: TokenIdModel, i: int)
    requires
        tokens_distinct(s),
        0 <= i < s.len(),
        s[i].0 == t,
    ensures
        token_index(s, t) == Some(i),
{
    assert(s[i].0 == t);
    let k = choose|k: int| 0 <= k < s.len() && #[trigger] s[k].0 == t;
    if k != i {
        assert(s[k].0 != s[i].0);
    }
}

fn find_socket(ids: &Vec<u128>, id: u128) -> (r: bool)
    ensures
        r == ids@.contains(id),
{
    let mut i: usize = 0;
    while i < ids.len()
        invariant
            i <= ids.len(),
            forall|j: int| 0 <= j < i ==> ids@[j] != id,
        decreases ids.len() - i,
    {
        if ids[i] == id {
            return true;
        }
        i = i + 1;
    }
    false
}

/// The identifiers as values.
pub open spec fn ids_view(v: Seq<TokenId>) -> Seq<TokenIdModel> {
    v.map_values(|t: TokenId| t@)
}

/// The entries whose token is among `known`, in their order.
pub open spec fn known_entries(s: Seq<(TokenIdModel, Seq<u128>)>, known: Seq<TokenIdModel>) -> Seq<
    (TokenIdModel, Seq<u128>),
>
    decreases s.len(),
{
    if s.len() == 0 {
        Seq::empty()
    } else if known.contains(s.last().0) {
        known_entries(s.drop_last(), known).push(s.last())
    } else {
        known_entries(s.drop_last(), known)
    }
}

/// The sockets of the tokens not among `known`, in entry order.
pub open spec fn unknown_sockets(s: Seq<(TokenIdModel, Seq<u128>)>, known: Seq<TokenIdModel>) -> Seq<
    u128,
>
    decreases s.len(),
{
    if s.len() == 0 {
        Seq::empty()
    } else if known.contains(s.last().0) {
        unknown_sockets(s.drop_last(), known)
    } else {
        unknown_sockets(s.drop_last(), known) + s.last().1
    }
}

proof fn lemma_known_from(s: Seq<(TokenIdModel, Seq<u128>)>, known: Seq<TokenIdModel>)
    ensures
        forall|k: int|
            0 <= k < known_entries(s, known).len() ==> exists|j: int|
                0 <= j < s.len() && #[trigger] known_entries(s, known)[k] == s[j],
        forall|k: int|
            0 <= k < known_entries(s, known).len() ==> known.contains(
                #[trigger] known_entries(s, known)[k].0,
            ),
    decreases s.len(),
{
    if s.len() > 0 {
        lemma_known_from(s.drop_last(), known);
        let prev = known_entries(s.drop_last(), known);
        let cur = known_entries(s, known);
        assert forall|k: int| 0 <= k < cur.len() implies exists|j: int|
            0 <= j < s.len() && #[trigger] cur[k] == s[j] by {
            if k < prev.len() {
                let j = choose|j: int| 0 <= j < s.drop_last().len() && #[trigger] prev[k] == s.drop_last()[j];
                assert(cur[k] == s[j]);
            } else {
                assert(cur[k] == s[s.len() - 1]);
            }
        }
        assert forall|k: int| 0 <= k < cur.len() implies known.contains(#[trigger] cur[k].0) by {
            if k < prev.len() {
                assert(cur[k] == prev[k]);
            }
        }
    }
}

proof fn lemma_known_distinct(s: Seq<(TokenIdModel, Seq<u128>)>, known: Seq<TokenIdModel>)
    requires
        tokens_distinct(s),
    ensures
        tokens_distinct(known_entries(s, known)),
    decreases s.len(),
{
    if s.len() > 0 {
        let d = s.drop_last();
        assert(tokens_distinct(d)) by {
            assert forall|i: int, j: int| 0 <= i < d.len() && 0 <= j < d.len() && i != j implies #[trigger] d[i].0 != #[trigger] d[j].0 by {
                assert(d[i] == s[i] && d[j] == s[j]);
            }
        }
        lemma_known_distinct(d, known);
        lemma_known_from(d, known);
        let prev = known_entries(d, known);
        let cur = known_entries(s, known);
        if known.contains(s.last().0) {
            assert forall|i: int, j: int| 0 <= i < cur.len() && 0 <= j < cur.len() && i != j implies #[trigger] cur[i].0 != #[trigger] cur[j].0 by {
                if i < prev.len() && j < prev.len() {
                    assert(cur[i] == prev[i] && cur[j] == prev[j]);
                } else {
                    let a = if i < prev.len() { i } else { j };
                    assert(cur[a] == prev[a]);
                    let k = choose|k: int| 0 <= k < d.len() && #[trigger] prev[a] == d[k];
                    assert(d[k] == s[k]);
                    assert(s[k].0 != s[s.len() - 1].0);
                }
            }
        }
    }
}

impl TokenSockets {
    pub open spec fn wf(&self) -> bool {
        tokens_distinct(self@)
    }

    /// No sockets recorded.
    pub fn new() -> (r: TokenSockets)
        ensures
            r.wf(),
            r@ == Seq::<(TokenIdModel, Seq<u128>)>::empty(),
    {
        let r = TokenSockets { entries: Vec::new() };
        assert(r@ =~= Seq::<(TokenIdModel, Seq<u128>)>::empty());
        r
    }

    fn find(&self, t: &TokenId) -> (r: Option<usize>)
        requires
            self.wf(),
        ensures
            match r {
                Some(i) => i < self@.len() && token_index(self@, t@) == Some(i as int),
                None => token_index(self@, t@) is None,
            },
    {
        let mut i: usize = 0;
        while i < self.entries.len()
            invariant
                i <= self.entries.len(),
                tokens_distinct(self@),
                forall|j: int| 0 <= j < i ==> #[trigger] self@[j].0 != t@,
            decreases self.entries.len() - i,
        {
            assert(self@[i as int].0 == self.entries@[i as int].0@);
            if self.entries[i].0.same_as(t) {
                proof {
                    lemma_token_index(self@, t@, i as int);
                }
                return Some(i);
            }
            i = i + 1;
        }
        None
    }

    /// Records that token `t` opened the socket `id`.
    pub fn register(&mut self, t: &TokenId, id: u128)
        requires
            old(self).wf(),
        ensures
            final(self).wf(),
            sockets_of(final(self)@, t@) == with_socket(sockets_of(old(self)@, t@), id),
            forall|o: TokenIdModel| o != t@ ==> #[trigger] sockets_of(final(self)@, o) == sockets_of(old(self)@, o),
    {
        let ghost s = self@;
        match self.find(t) {
            Some(i) => {
                let ghost before = self.entries@;
                let found = find_socket(&self.entries[i].1, id);
                assert(self@[i as int].1 == self.entries@[i as int].1@);
                if !found {
                    self.entries[i].1.push(id);
                }
                let ghost ns = self.entries@;
                assert(self@ =~= s.update(i as int, (t@, with_socket(s[i as int].1, id))));
                proof {
                    assert(tokens_distinct(self@)) by {
                        assert forall|a: int, b: int| 0 <= a < self@.len() && 0 <= b < self@.len() && a != b implies #[trigger] self@[a].0 != #[trigger] self@[b].0 by {
                            assert(self@[a].0 == s[a].0);
                            assert(self@[b].0 == s[b].0);
                        }
                    }
                    lemma_token_index(self@, t@, i as int);
                    assert forall|o: TokenIdModel| o != t@ implies #[trigger] sockets_of(self@, o) == sockets_of(s, o) by {
                        match token_index(s, o) {
                            Some(k) => {
                                assert(s[k].0 == o);
                                assert(k != i);
                                assert(self@[k] == s[k]);
                                lemma_token_index(self@, o, k);
                            },
                            None => {
                                if token_index(self@, o) is Some {
                                    let k = token_index(self@, o)->0;
                                    assert(self@[k].0 == o);
                                    assert(s[k].0 == o);
                                }
                            },
                        }
                    }
                }
            },
            None => {
                let ghost before = self.entries@;
                let mut ids: Vec<u128> = Vec::new();
                ids.push(id);
                self.entries.push((t.duplicate(), ids));
                assert(self@ =~= s.push((t@, seq![id])));
                proof {
                    assert(tokens_distinct(self@)) by {
                        assert forall|a: int, b: int| 0 <= a < self@.len() && 0 <= b < self@.len() && a != b implies #[trigger] self@[a].0 != #[trigger] self@[b].0 by {
                            if a < s.len() {
                                assert(self@[a] == s[a]);
                            }
                            if b < s.len() {
                                assert(self@[b] == s[b]);
                            }
                        }
                    }
                    lemma_token_index(self@, t@, s.len() as int);
                    assert(with_socket(Seq::<u128>::empty(), id) =~= seq![id]);
                    assert forall|o: TokenIdModel| o != t@ implies #[trigger] sockets_of(self@, o) == sockets_of(s, o) by {
                        match token_index(s, o) {
                            Some(k) => {
                                assert(s[k].0 == o);
                                assert(self@[k] == s[k]);
                                lemma_token_index(self@, o, k);
                            },
                            None => {
                                if token_index(self@, o) is Some {
                                    let k = token_index(self@, o)->0;
                                    assert(self@[k].0 == o);
                                    if k < s.len() {
                                        assert(s[k].0 == o);
                                    }
                                }
                            },
                        }
                    }
                }
            },
        }
    }

    /// Whether token `t` opened the socket `id` (the socket is then to be
    /// closed; the record stays until the token goes).
    pub fn unregister(&self, t: &TokenId, id: u128) -> (r: bool)
        requires
            self.wf(),
        ensures
            r == sockets_of(self@, t@).contains(id),
    {
        match self.find(t) {
            Some(i) => {
                assert(self@[i as int].1 == self.entries@[i as int].1@);
                find_socket(&self.entries[i].1, id)
            },
            None => false,
        }
    }

    /// Forgets token `t` and gives its sockets, to be closed.
    pub fn remove_token(&mut self, t: &TokenId) -> (r: Vec<u128>)
        requires
            old(self).wf(),
        ensures
            final(self).wf(),
            r@ == sockets_of(old(self)@, t@),
            sockets_of(final(self)@, t@) == Seq::<u128>::empty(),
            forall|o: TokenIdModel| o != t@ ==> #[trigger] sockets_of(final(self)@, o) == sockets_of(old(self)@, o),
    {
        let ghost s = self@;
        match self.find(t) {
            None => {
                Vec::new()
            },
            Some(i) => {
                let ghost before = self.entries@;
                let (_, ids) = self.entries.remove(i);
                assert(self@ =~= s.remove(i as int));
                proof {
                    assert(tokens_distinct(self@)) by {
                        assert forall|a: int, b: int| 0 <= a < self@.len() && 0 <= b < self@.len() && a != b implies #[trigger] self@[a].0 != #[trigger] self@[b].0 by {
                            let a0 = if a < i { a } else { a + 1 };
                            let b0 = if b < i { b } else { b + 1 };
                            assert(self@[a] == s[a0]);
                            assert(self@[b] == s[b0]);
                        }
                    }
                    if token_index(self@, t@) is Some {
                        let k = token_index(self@, t@)->0;
                        let k0 = if k < i { k } else { k + 1 };
                        assert(self@[k] == s[k0]);
                        assert(s[k0].0 == s[i as int].0);
                    }
                    assert forall|o: TokenIdModel| o != t@ implies #[trigger] sockets_of(self@, o) == sockets_of(s, o) by {
                        match token_index(s, o) {
                            Some(k) => {
                                assert(s[k].0 == o);
                                assert(k != i);
                                let k1 = if k < i { k } else { k - 1 };
                                assert(self@[k1] == s[k]);
                                lemma_token_index(self@, o, k1);
                            },
                            None => {
                                if token_index(self@, o) is Some {
                                    let k = token_index(self@, o)->0;
                                    let k0 = if k < i { k } else { k + 1 };
                                    assert(self@[k] == s[k0]);
                                    assert(s[k0].0 == o);
                                }
                            },
                        }
                    }
                }
                ids
            },
        }
    }
    /// Forgets the tokens that are not among `known` (the tokens that still
    /// exist) and gives their sockets, to be closed.
    pub fn drop_unknown(&mut self, known: &Vec<TokenId>) -> (r: Vec<u128>)
        requires
            old(self).wf(),
        ensures
            final(self).wf(),
            final(self)@ == known_entries(old(self)@, ids_view(known@)),
            r@ == unknown_sockets(old(self)@, ids_view(known@)),
    {
        let ghost s = self@;
        let ghost kv = ids_view(known@);
        let mut all: Vec<(TokenId, Vec<u128>)> = Vec::new();
        std::mem::swap(&mut all, &mut self.entries);
        assert(entries_view(all@) == s);
        let mut kept: Vec<(TokenId, Vec<u128>)> = Vec::new();
        let mut dropped: Vec<u128> = Vec::new();
        let mut i: usize = 0;
        while i < all.len()
            invariant
                i <= all@.len(),
                entries_view(all@) == s,
                kv == ids_view(known@),
                entries_view(kept@) == known_entries(s.take(i as int), kv),
                dropped@ == unknown_sockets(s.take(i as int), kv),
            decreases all@.len() - i,
        {
            let t = &all[i].0;
            let mut found = false;
            let mut j: usize = 0;
            while j < known.len()
                invariant
                    j <= known@.len(),
                    kv == ids_view(known@),
                    found == exists|k: int| 0 <= k < j && kv[k] == t@,
                decreases known@.len() - j,
            {
                assert(kv[j as int] == known@[j as int]@);
                if known[j].same_as(t) {
                    found = true;
                }
                j = j + 1;
                assert(found == exists|k: int| 0 <= k < j && kv[k] == t@) by {
                    if exists|k: int| 0 <= k < j && kv[k] == t@ {
                        let k = choose|k: int| 0 <= k < j && kv[k] == t@;
                        if k < j - 1 {
                            assert(exists|m: int| 0 <= m < j - 1 && kv[m] == t@);
                        }
                    }
                }
            }
            assert(s.take(i + 1).drop_last() =~= s.take(i as int));
            assert(s.take(i + 1).last() == s[i as int]);
            assert(s[i as int] == (t@, all@[i as int].1@));
            assert(found == kv.contains(t@)) by {
                if kv.contains(t@) {
                    let k = choose|k: int| 0 <= k < kv.len() && kv[k] == t@;
                    assert(0 <= k < known@.len() && kv[k] == t@);
                }
            }
            if found {
                let ghost before = kept@;
                kept.push((t.duplicate(), all[i].1.clone()));
                assert(entries_view(kept@) =~= entries_view(before).push(s[i as int]));
            } else {
                let ghost before = dropped@;
                let ids = &all[i].1;
                let mut k: usize = 0;
                while k < ids.len()
                    invariant
                        k <= ids@.len(),
                        dropped@ == before + ids@.take(k as int),
                    decreases ids@.len() - k,
                {
                    dropped.push(ids[k]);
                    k = k + 1;
                    assert(dropped@ =~= before + ids@.take(k as int));
                }
                assert(ids@.take(ids@.len() as int) =~= ids@);
            }
            i = i + 1;
        }
        assert(s.take(s.len() as int) =~= s);
        self.entries = kept;
        proof {
            lemma_known_distinct(s, kv);
        }
        dropped
    }
}

/// Whether the state identifier `a` (boot id, then counter) is newer than
/// `b`.
pub open spec fn ieid_newer(a: (u64, u64), b: (u64, u64)) -> bool {
    a.0 > b.0 || (a.0 == b.0 && a.1 > b.1)
}

/// The position of the item `oid` among the sent states.
pub open spec fn sent_index(s: Seq<(Seq<char>, (u64, u64))>, oid: Seq<char>) -> Option<int> {
    if exists|i: int| 0 <= i < s.len() && #[trigger] s[i].0 == oid {
        Some(choose|i: int| 0 <= i < s.len() && #[trigger] s[i].0 == oid)
    } else {
        None
    }
}

/// The identifier of the last state of `oid` sent.
pub open spec fn last_sent(s: Seq<(Seq<char>, (u64, u64))>, oid: Seq<char>) -> Option<(u64, u64)> {
    match sent_index(s, oid) {
        Some(i) => Some(s[i].1),
        None => None,
    }
}

/// Whether no item is recorded twice.
pub open spec fn items_distinct(s: Seq<(Seq<char>, (u64, u64))>) -> bool {
    forall|i: int, j: int|
        0 <= i < s.len() && 0 <= j < s.len() && i != j ==> #[trigger] s[i].0 != #[trigger] s[j].0
}

/// Whether a state of `oid` with identifier `ieid` goes to the socket: not
/// where a newer state of the item was sent already.
pub open spec fn state_admitted(s: Seq<(Seq<char>, (u64, u64))>, oid: Seq<char>, ieid: (u64, u64)) -> bool {
    match last_sent(s, oid) {
        Some(prev) => !ieid_newer(prev, ieid),
        None => true,
    }
}

proof fn lemma_sent_index(s: Seq<(Seq<char>, (u64, u64))>, oid: Seq<char>, i: int)
    requires
        items_distinct(s),
        0 <= i < s.len(),
        s[i].0 == oid,
    ensures
        sent_index(s, oid) == Some(i),
{
    assert(s[i].0 == oid);
    let k = choose|k: int| 0 <= k < s.len() && #[trigger] s[k].0 == oid;
    if k != i {
        assert(s[k].0 != s[i].0);
    }
}

/// The identifier of the last state of each item sent to one web socket,
/// so that an older state that arrives late is not sent after a newer one.
pub struct SentStates {
    entries: Vec<(String, (u64, u64))>,
}

impl View for SentStates {
    type V = Seq<(Seq<char>, (u64, u64))>;

    closed spec fn view(&self) -> Seq<(Seq<char>, (u64, u64))> {
        self.entries@.map_values(|e: (String, (u64, u64))| (e.0@, e.1))
    }
}

impl SentStates {
    pub open spec fn wf(&self) -> bool {
        items_distinct(self@)
    }

    /// Nothing sent yet.
    pub fn new() -> (r: SentStates)
        ensures
            r.wf(),
            r@ == Seq::<(Seq<char>, (u64, u64))>::empty(),
    {
        let r = SentStates { entries: Vec::new() };
        assert(r@ =~= Seq::<(Seq<char>, (u64, u64))>::empty());
        r
    }

    /// Decides whether a state of `oid` with identifier `ieid` is sent, and
    /// records the identifier of a state that is.
    pub fn accept_state(&mut self, oid: &str, ieid: (u64, u64)) -> (r: bool)
        requires
            old(self).wf(),
        ensures
            final(self).wf(),
            r == state_admitted(old(self)@, oid@, ieid),
            r ==> last_sent(final(self)@, oid@) == Some(ieid),
            !r ==> final(self)@ == old(self)@,
            forall|o: Seq<char>|
                o != oid@ ==> #[trigger] last_sent(final(self)@, o) == last_sent(old(self)@, o),
    {
        let ghost s = self@;
        let mut i: usize = 0;
        while i < self.entries.len()
            invariant
                i <= self.entries@.len(),
                self@ == s,
                s == old(self)@,
                s.len() == self.entries@.len(),
                items_distinct(s),
                forall|j: int| 0 <= j < i ==> #[trigger] s[j].0 != oid@,
            decreases self.entries@.len() - i,
        {
            assert(s[i as int] == (self.entries@[i as int].0@, self.entries@[i as int].1));
            if str_eq(self.entries[i].0.as_str(), oid) {
                proof {
                    lemma_sent_index(s, oid@, i as int);
                }
                let prev = self.entries[i].1;
                assert(s[i as int].1 == prev);
                if prev.0 > ieid.0 || (prev.0 == ieid.0 && prev.1 > ieid.1) {
                    return false;
                }
                let key = self.entries[i].0.clone();
                self.entries.set(i, (key, ieid));
                proof {
                    assert(self@ =~= s.update(i as int, (oid@, ieid)));
                    assert(items_distinct(self@)) by {
                        assert forall|a: int, b: int|
                            0 <= a < self@.len() && 0 <= b < self@.len() && a != b implies #[trigger] self@[a].0
                            != #[trigger] self@[b].0 by {
                            assert(self@[a].0 == s[a].0 && self@[b].0 == s[b].0);
                        }
                    }
                    lemma_sent_index(self@, oid@, i as int);
                    assert forall|o: Seq<char>| o != oid@ implies #[trigger] last_sent(self@, o)
                        == last_sent(s, o) by {
                        match sent_index(s, o) {
                            Some(k) => {
                                assert(s[k].0 == o);
                                assert(self@[k] == s[k]);
                                lemma_sent_index(self@, o, k);
                            },
                            None => {
                                if sent_index(self@, o) is Some {
                                    let k = sent_index(self@, o)->0;
                                    assert(self@[k].0 == s[k].0);
                                }
                            },
                        }
                    }
                }
                return true;
            }
            i = i + 1;
        }
        assert(sent_index(s, oid@) is None);
        self.entries.push((oid.to_string(), ieid));
        proof {
            assert(self@ =~= s.push((oid@, ieid)));
            assert(items_distinct(self@)) by {
                assert forall|a: int, b: int|
                    0 <= a < self@.len() && 0 <= b < self@.len() && a != b implies #[trigger] self@[a].0
                    != #[trigger] self@[b].0 by {
                    if a < s.len() {
                        assert(self@[a] == s[a]);
                    }
                    if b < s.len() {
                        assert(self@[b] == s[b]);
                    }
                }
            }
            lemma_sent_index(self@, oid@, s.len() as int);
            assert forall|o: Seq<char>| o != oid@ implies #[trigger] last_sent(self@, o) == last_sent(
                s,
                o,
            ) by {
                match sent_index(s, o) {
                    Some(k) => {
                        assert(s[k].0 == o);
                        assert(self@[k] == s[k]);
                        lemma_sent_index(self@, o, k);
                    },
                    None => {
                        if sent_index(self@, o) is Some {
                            let k = sent_index(self@, o)->0;
                            if k < s.len() {
                                assert(self@[k] == s[k]);
                            }
                        }
                    },
                }
            }
        }
        true
    }
}

/// What a socket was last sent of an item never goes back: once a state is
/// sent, a state with an older identifier is refused, and the identifier
/// recorded is the newest sent.
pub proof fn law_sent_state_never_goes_back(
    s: Seq<(Seq<char>, (u64, u64))>,
    oid: Seq<char>,
    sent: (u64, u64),
    later: (u64, u64),
)
    requires
        last_sent(s, oid) == Some(sent),
        ieid_newer(sent, later),
    ensures
        !state_admitted(s, oid, later),
{
}

/// The topics of the frames sent to a web socket.
#[derive(PartialEq, Eq, Structural, Copy, Clone, Debug)]
pub enum WsTopic {
    State,
    Log,
    Pong,
    Reload,
    Server,
    Stream,
    Bye,
}

/// The values queued for `t`.
pub open spec fn queued<T>(s: Seq<(WsTopic, Seq<T>)>, t: WsTopic) -> Seq<T>
    decreases s.len(),
{
    if s.len() == 0 {
        Seq::empty()
    } else if s.last().0 == t {
        s.last().1
    } else {
        queued(s.drop_last(), t)
    }
}

/// Whether no topic has two entries.
pub open spec fn topics_distinct<T>(s: Seq<(WsTopic, Seq<T>)>) -> bool {
    forall|i: int, j: int|
        0 <= i < s.len() && 0 <= j < s.len() && i != j ==> #[trigger] s[i].0 != #[trigger] s[j].0
}

/// The entries that hold values, in order.
pub open spec fn filled<T>(s: Seq<(WsTopic, Seq<T>)>) -> Seq<(WsTopic, Seq<T>)>
    decreases s.len(),
{
    if s.len() == 0 {
        Seq::empty()
    } else if s.last().1.len() > 0 {
        filled(s.drop_last()).push(s.last())
    } else {
        filled(s.drop_last())
    }
}

/// The entries with their values taken out.
pub open spec fn emptied<T>(s: Seq<(WsTopic, Seq<T>)>) -> Seq<(WsTopic, Seq<T>)> {
    s.map_values(|e: (WsTopic, Seq<T>)| (e.0, Seq::<T>::empty()))
}

proof fn lemma_queued_at<T>(s: Seq<(WsTopic, Seq<T>)>, i: int)
    requires
        topics_distinct(s),
        0 <= i < s.len(),
    ensures
        queued(s, s[i].0) == s[i].1,
    decreases s.len(),
{
    if i < s.len() - 1 {
        let d = s.drop_last();
        assert(s.last().0 != s[i].0);
        assert(d[i] == s[i]);
        assert(topics_distinct(d)) by {
            assert forall|a: int, b: int| 0 <= a < d.len() && 0 <= b < d.len() && a != b implies #[trigger] d[a].0 != #[trigger] d[b].0 by {
                assert(d[a] == s[a] && d[b] == s[b]);
            }
        }
        lemma_queued_at(d, i);
    }
}

proof fn lemma_queued_absent<T>(s: Seq<(WsTopic, Seq<T>)>, t: WsTopic)
    requires
        forall|i: int| 0 <= i < s.len() ==> #[trigger] s[i].0 != t,
    ensures
        queued(s, t) == Seq::<T>::empty(),
    decreases s.len(),
{
    if s.len() > 0 {
        let d = s.drop_last();
        assert forall|i: int| 0 <= i < d.len() implies #[trigger] d[i].0 != t by {
            assert(d[i] == s[i]);
        }
        assert(s[s.len() - 1].0 != t);
        lemma_queued_absent(d, t);
    }
}

/// The frames held for a web socket that gets its data in bulk: the data
/// values of each topic, sent together at each tick.
pub struct WsBuffer<T> {
    entries: Vec<(WsTopic, Vec<T>)>,
}

impl<T> View for WsBuffer<T> {
    type V = Seq<(WsTopic, Seq<T>)>;

    closed spec fn view(&self) -> Seq<(WsTopic, Seq<T>)> {
        self.entries@.map_values(|e: (WsTopic, Vec<T>)| (e.0, e.1@))
    }
}

impl<T> WsBuffer<T> {
    pub open spec fn wf(&self) -> bool {
        topics_distinct(self@)
    }

    /// Nothing held.
    pub fn new() -> (r: WsBuffer<T>)
        ensures
            r.wf(),
            r@ == Seq::<(WsTopic, Seq<T>)>::empty(),
    {
        let r = WsBuffer { entries: Vec::new() };
        assert(r@ =~= Seq::<(WsTopic, Seq<T>)>::empty());
        r
    }

    fn find_topic(&self, topic: WsTopic) -> (r: Option<usize>)
        ensures
            match r {
                Some(i) => i < self@.len() && self@[i as int].0 == topic,
                None => forall|j: int| 0 <= j < self@.len() ==> #[trigger] self@[j].0 != topic,
            },
    {
        let mut i: usize = 0;
        while i < self.entries.len()
            invariant
                i <= self.entries@.len(),
                self@.len() == self.entries@.len(),
                forall|j: int| 0 <= j < i ==> #[trigger] self@[j].0 != topic,
            decreases self.entries@.len() - i,
        {
            assert(self@[i as int].0 == self.entries@[i as int].0);
            if self.entries[i].0 == topic {
                return Some(i);
            }
            i = i + 1;
        }
        None
    }

    /// Holds a data value of `topic` for the next tick.
    pub fn push(&mut self, topic: WsTopic, value: T)
        requires
            old(self).wf(),
        ensures
            final(self).wf(),
            queued(final(self)@, topic) == queued(old(self)@, topic).push(value),
            forall|t: WsTopic| t != topic ==> #[trigger] queued(final(self)@, t) == queued(old(self)@, t),
    {
        let ghost s = self@;
        match self.find_topic(topic) {
            Some(i) => {
                let (t, mut vals) = self.entries.remove(i);
                let ghost old_vals = vals@;
                vals.push(value);
                self.entries.insert(i, (t, vals));
                proof {
                    assert(old_vals == s[i as int].1);
                    assert(self@ =~= s.update(i as int, (topic, s[i as int].1.push(value))));
                    assert(topics_distinct(self@)) by {
                        assert forall|a: int, b: int| 0 <= a < self@.len() && 0 <= b < self@.len() && a != b implies #[trigger] self@[a].0 != #[trigger] self@[b].0 by {
                            assert(self@[a].0 == s[a].0 && self@[b].0 == s[b].0);
                        }
                    }
                    lemma_queued_at(s, i as int);
                    lemma_queued_at(self@, i as int);
                    assert forall|o: WsTopic| o != topic implies #[trigger] queued(self@, o) == queued(s, o) by {
                        lemma_queued_update(s, i as int, s[i as int].1.push(value), o);
                    }
                }
            },
            None => {
                let mut vals: Vec<T> = Vec::new();
                vals.push(value);
                self.entries.push((topic, vals));
                proof {
                    assert(self@ =~= s.push((topic, seq![value])));
                    assert(self@.drop_last() =~= s);
                    assert(topics_distinct(self@)) by {
                        assert forall|a: int, b: int| 0 <= a < self@.len() && 0 <= b < self@.len() && a != b implies #[trigger] self@[a].0 != #[trigger] self@[b].0 by {
                            if a < s.len() {
                                assert(self@[a] == s[a]);
                            }
                            if b < s.len() {
                                assert(self@[b] == s[b]);
                            }
                        }
                    }
                    lemma_queued_absent(s, topic);
                    assert(seq![value] =~= Seq::<T>::empty().push(value));
                }
            },
        }
    }

    /// Takes out the values held, for each topic that has some, in the
    /// order the topics first came; every topic is left with none.
    pub fn flush(&mut self) -> (r: Vec<(WsTopic, Vec<T>)>)
        requires
            old(self).wf(),
        ensures
            final(self).wf(),
            r@.map_values(|e: (WsTopic, Vec<T>)| (e.0, e.1@)) == filled(old(self)@),
            final(self)@ == emptied(old(self)@),
    {
        let ghost s = self@;
        let mut all: Vec<(WsTopic, Vec<T>)> = Vec::new();
        std::mem::swap(&mut all, &mut self.entries);
        let mut out: Vec<(WsTopic, Vec<T>)> = Vec::new();
        let mut kept: Vec<(WsTopic, Vec<T>)> = Vec::new();
        let ghost mut k: int = 0;
        assert(s.take(0) =~= Seq::<(WsTopic, Seq<T>)>::empty());
        assert(all@.map_values(|e: (WsTopic, Vec<T>)| (e.0, e.1@)) =~= s.skip(0));
        while all.len() > 0
            invariant
                0 <= k <= s.len(),
                all@.map_values(|e: (WsTopic, Vec<T>)| (e.0, e.1@)) == s.skip(k),
                out@.map_values(|e: (WsTopic, Vec<T>)| (e.0, e.1@)) == filled(s.take(k)),
                kept@.map_values(|e: (WsTopic, Vec<T>)| (e.0, e.1@)) == emptied(s.take(k)),
            decreases all@.len(),
        {
            let ghost before_all = all@;
            let (t, vals) = all.remove(0);
            proof {
                assert(before_all.len() > 0);
                assert(s.skip(k).len() > 0);
                assert(k < s.len());
                assert(s.skip(k)[0] == (t, vals@));
                assert(s[k] == (t, vals@));
                assert(s.take(k + 1).drop_last() =~= s.take(k));
                assert(s.take(k + 1).last() == s[k]);
                assert(all@ =~= before_all.subrange(1, before_all.len() as int));
                assert forall|j: int| 0 <= j < all@.len() implies (#[trigger] all@[j]).0 == s.skip(k
                    + 1)[j].0 && all@[j].1@ == s.skip(k + 1)[j].1 by {
                    assert(all@[j] == before_all[j + 1]);
                    assert(before_all.map_values(|e: (WsTopic, Vec<T>)| (e.0, e.1@))[j + 1] == s.skip(
                        k,
                    )[j + 1]);
                }
                assert(all@.map_values(|e: (WsTopic, Vec<T>)| (e.0, e.1@)) =~= s.skip(k + 1));
            }
            let ghost before_out = out@;
            let ghost before_kept = kept@;
            if vals.len() > 0 {
                out.push((t, vals));
                assert(out@.map_values(|e: (WsTopic, Vec<T>)| (e.0, e.1@)) =~= before_out.map_values(
                    |e: (WsTopic, Vec<T>)| (e.0, e.1@),
                ).push(s[k]));
            }
            let empty_vals: Vec<T> = Vec::new();
            assert(empty_vals@ =~= Seq::<T>::empty());
            kept.push((t, empty_vals));
            assert(emptied(s.take(k + 1)) =~= emptied(s.take(k)).push((t, Seq::<T>::empty())));
            assert(kept@.map_values(|e: (WsTopic, Vec<T>)| (e.0, e.1@)) =~= before_kept.map_values(
                |e: (WsTopic, Vec<T>)| (e.0, e.1@),
            ).push((t, Seq::<T>::empty())));
            assert(kept@.map_values(|e: (WsTopic, Vec<T>)| (e.0, e.1@)) =~= emptied(s.take(k + 1)));
            proof {
                k = k + 1;
            }
        }
        assert(s.skip(k).len() == 0);
        assert(s.take(k) =~= s);
        self.entries = kept;
        proof {
            assert(topics_distinct(self@)) by {
                assert forall|a: int, b: int| 0 <= a < self@.len() && 0 <= b < self@.len() && a != b implies #[trigger] self@[a].0 != #[trigger] self@[b].0 by {
                    assert(self@[a].0 == s[a].0 && self@[b].0 == s[b].0);
                }
            }
        }
        out
    }
}

/// A flush delivers what is queued: each topic with values queued comes
/// out once, with those values in the order they were pushed.
pub proof fn law_flush_delivers_queue<T>(s: Seq<(WsTopic, Seq<T>)>, t: WsTopic)
    requires
        topics_distinct(s),
        queued(s, t).len() > 0,
    ensures
        filled(s).contains((t, queued(s, t))),
    decreases s.len(),
{
    if s.len() > 0 {
        let d = s.drop_last();
        if s.last().0 == t {
            assert(filled(s) == filled(d).push(s.last()));
            assert(filled(s)[filled(d).len() as int] == (t, queued(s, t)));
        } else {
            assert(topics_distinct(d)) by {
                assert forall|a: int, b: int| 0 <= a < d.len() && 0 <= b < d.len() && a != b implies #[trigger] d[a].0 != #[trigger] d[b].0 by {
                    assert(d[a] == s[a] && d[b] == s[b]);
                }
            }
            law_flush_delivers_queue(d, t);
            let k = choose|k: int| 0 <= k < filled(d).len() && filled(d)[k] == (t, queued(d, t));
            if s.last().1.len() > 0 {
                assert(filled(s)[k] == filled(d)[k]);
            }
        }
    }
}

proof fn lemma_queued_update<T>(s: Seq<(WsTopic, Seq<T>)>, i: int, x: Seq<T>, o: WsTopic)
    requires
        0 <= i < s.len(),
        s[i].0 != o,
    ensures
        queued(s.update(i, (s[i].0, x)), o) == queued(s, o),
    decreases s.len(),
{
    let u = s.update(i, (s[i].0, x));
    if i < s.len() - 1 {
        assert(u.drop_last() =~= s.drop_last().update(i, (s[i].0, x)));
        assert(u.last() == s.last());
        lemma_queued_update(s.drop_last(), i, x, o);
    } else {
        assert(u.drop_last() =~= s.drop_last());
    }
}

/// After a token is removed it has no sockets recorded, and registering
/// a socket twice records it once.
pub proof fn law_socket_registered_once(ids: Seq<u128>, id: u128)
    ensures
        with_socket(with_socket(ids, id), id) == with_socket(ids, id),
        with_socket(ids, id).contains(id),
{
    if !ids.contains(id) {
        assert(ids.push(id)[ids.len() as int] == id);
    }
}

} // verus!
