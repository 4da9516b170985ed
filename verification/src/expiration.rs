//! The item-state expiration checker: items that report no state for their
//! expiration time are marked expired once, until they report again; and
//! the pacing of the checker's loop. Times are ticks of a monotonic clock
//! that the service reads.
use crate::text::{chars_of, has_prefix, push_str, str_eq, sub_chars, string_of};
use vstd::prelude::*;

verus! {

/// A watched item: the path of its OID, whether it is a local variable,
/// how long it may stay silent, when it last reported and whether it is
/// marked expired.
pub struct ItemWatch {
    path: String,
    lvar: bool,
    expires: u64,
    last_event: u64,
    expired: bool,
}

/// The model of an [`ItemWatch`].
pub struct WatchModel {
    pub path: Seq<char>,
    pub lvar: bool,
    pub expires: u64,
    pub last_event: u64,
    pub expired: bool,
}

impl View for ItemWatch {
    type V = WatchModel;

    closed spec fn view(&self) -> WatchModel {
        WatchModel {
            path: self.path@,
            lvar: self.lvar,
            expires: self.expires,
            last_event: self.last_event,
            expired: self.expired,
        }
    }
}

/// The time that passed from `since` to `now` (none when the clock reads
/// earlier).
pub open spec fn silent_for(now: u64, since: u64) -> int {
    if now >= since {
        now - since
    } else {
        0
    }
}

/// Whether an item has been silent for its expiration time.
pub open spec fn timed_out(w: WatchModel, now: u64) -> bool {
    silent_for(now, w.last_event) >= w.expires
}

impl ItemWatch {
    /// A watch on the item at `path`, started at `now`, not expired.
    pub fn new(path: &str, lvar: bool, expires: u64, now: u64) -> (r: ItemWatch)
        ensures
            r@ == (WatchModel { path: path@, lvar, expires, last_event: now, expired: false }),
    {
        ItemWatch { path: path.to_string(), lvar, expires, last_event: now, expired: false }
    }

    pub fn path(&self) -> (r: &str)
        ensures
            r@ == self@.path,
    {
        self.path.as_str()
    }

    /// Whether the item has been silent for its expiration time at `now`.
    pub fn is_expired(&self, now: u64) -> (r: bool)
        ensures
            r == timed_out(self@, now),
    {
        let silent = if now >= self.last_event {
            now - self.last_event
        } else {
            0
        };
        silent >= self.expires
    }

    /// Whether the item is marked expired.
    pub fn is_marked_expired(&self) -> (r: bool)
        ensures
            r == self@.expired,
    {
        self.expired
    }

    /// The item reported its state at `now`: it is no longer expired.
    pub fn handle_event(&mut self, now: u64)
        ensures
            final(self)@ == (WatchModel { last_event: now, expired: false, ..old(self)@ }),
    {
        self.last_event = now;
        self.expired = false;
    }

    /// Marks the item expired.
    pub fn mark_expired(&mut self)
        ensures
            final(self)@ == (WatchModel { expired: true, ..old(self)@ }),
    {
        self.expired = true;
    }
}

/// The watched items, each path once.
pub struct Watchers {
    items: Vec<ItemWatch>,
}

pub open spec fn watches_view(v: Seq<ItemWatch>) -> Seq<WatchModel> {
    v.map_values(|w: ItemWatch| w@)
}

impl View for Watchers {
    type V = Seq<WatchModel>;

    closed spec fn view(&self) -> Seq<WatchModel> {
        watches_view(self.items@)
    }
}

/// Whether an item becomes expired at this check: it timed out and is not
/// marked yet.
pub open spec fn newly_expired(w: WatchModel, now: u64) -> bool {
    !w.expired && timed_out(w, now)
}

/// An item after a check at `now`.
pub open spec fn checked(w: WatchModel, now: u64) -> WatchModel {
    if newly_expired(w, now) {
        WatchModel { expired: true, ..w }
    } else {
        w
    }
}

/// The paths of the items that a check at `now` marks expired, in order.
pub open spec fn expired_paths(s: Seq<WatchModel>, now: u64) -> Seq<Seq<char>>
    decreases s.len(),
{
    if s.len() == 0 {
        Seq::empty()
    } else {
        let prev = expired_paths(s.drop_last(), now);
        if newly_expired(s.last(), now) {
            prev.push(s.last().path)
        } else {
            prev
        }
    }
}

/// The item whose state topic is `topic`: its path after the raw-state
/// prefix, or after the local-state prefix.
pub open spec fn topic_path(topic: Seq<char>, raw_prefix: Seq<char>, local_prefix: Seq<char>) -> Option<Seq<char>> {
    if raw_prefix.is_prefix_of(topic) {
        Some(topic.skip(raw_prefix.len() as int))
    } else if local_prefix.is_prefix_of(topic) {
        Some(topic.skip(local_prefix.len() as int))
    } else {
        None
    }
}

/// The index of the watch on `path`.
pub open spec fn watch_index(s: Seq<WatchModel>, path: Seq<char>) -> Option<int> {
    if exists|i: int| 0 <= i < s.len() && #[trigger] s[i].path == path {
        Some(choose|i: int| 0 <= i < s.len() && #[trigger] s[i].path == path)
    } else {
        None
    }
}

/// Whether no path is watched twice.
pub open spec fn paths_distinct(s: Seq<WatchModel>) -> bool {
    forall|i: int, j: int| 0 <= i < s.len() && 0 <= j < s.len() && i != j ==> #[trigger] s[i].path != #[trigger] s[j].path
}

/// The topic whose states an item is watched on: local variables report on
/// the local-state topic, other items on the raw-state topic.
pub open spec fn watch_topic(path: Seq<char>, lvar: bool, raw_prefix: Seq<char>, local_prefix: Seq<char>) -> Seq<char> {
    (if lvar {
        local_prefix
    } else {
        raw_prefix
    }) + path
}

proof fn lemma_watch_index(s: Seq<WatchModel>, path: Seq<char>, i: int)
    requires
        paths_distinct(s),
        0 <= i < s.len(),
        s[i].path == path,
    ensures
        watch_index(s, path) == Some(i),
{
    assert(s[i].path == path);
    let k = choose|k: int| 0 <= k < s.len() && #[trigger] s[k].path == path;
    if k != i {
        assert(s[k].path != s[i].path);
    }
}

impl Watchers {
    pub open spec fn wf(&self) -> bool {
        paths_distinct(self@)
    }

    /// No items watched.
    pub fn new() -> (r: Watchers)
        ensures
            r.wf(),
            r@ == Seq::<WatchModel>::empty(),
    {
        let r = Watchers { items: Vec::new() };
        assert(r@ =~= Seq::<WatchModel>::empty());
        r
    }

    /// Watches an item; a watch on the same path is replaced.
    pub fn insert(&mut self, w: ItemWatch)
        requires
            old(self).wf(),
        ensures
            final(self).wf(),
            final(self)@ == match watch_index(old(self)@, w@.path) {
                Some(i) => old(self)@.update(i, w@),
                None => old(self)@.push(w@),
            },
    {
        let ghost s = self@;
        let mut i: usize = 0;
        while i < self.items.len()
            invariant
                i <= self.items.len(),
                s == self@,
                s == old(self)@,
                paths_distinct(s),
                forall|j: int| 0 <= j < i ==> #[trigger] s[j].path != w@.path,
            decreases self.items.len() - i,
        {
            assert(s[i as int] == self.items@[i as int]@);
            if str_eq(self.items[i].path.as_str(), w.path.as_str()) {
                proof {
                    lemma_watch_index(s, w@.path, i as int);
                }
                let ghost before = self.items@;
                let ghost wm = w@;
                self.items.set(i, w);
                assert(self.items@[i as int]@ == wm);
                assert(self@ =~= watches_view(before).update(i as int, wm));
                assert(watches_view(before) == s);
                assert(paths_distinct(self@)) by {
                    assert forall|a: int, b: int| 0 <= a < self@.len() && 0 <= b < self@.len() && a != b implies #[trigger] self@[a].path != #[trigger] self@[b].path by {
                        assert(self@[a].path == s[a].path);
                        assert(self@[b].path == s[b].path);
                    }
                }
                return;
            }
            i = i + 1;
        }
        assert(watch_index(s, w@.path) is None);
        let ghost before = self.items@;
        self.items.push(w);
        assert(self@ =~= watches_view(before).push(self.items@.last()@));
        assert(paths_distinct(self@)) by {
            assert forall|a: int, b: int| 0 <= a < self@.len() && 0 <= b < self@.len() && a != b implies #[trigger] self@[a].path != #[trigger] self@[b].path by {
                if a < s.len() {
                    assert(self@[a] == s[a]);
                }
                if b < s.len() {
                    assert(self@[b] == s[b]);
                }
            }
        }
    }

    /// The watches.
    pub fn items(&self) -> (r: &Vec<ItemWatch>)
        ensures
            watches_view(r@) == self@,
    {
        &self.items
    }

    /// The topics to subscribe to, one per item.
    pub fn topics(&self, raw_prefix: &str, local_prefix: &str) -> (r: Vec<String>)
        ensures
            r@.len() == self@.len(),
            forall|i: int| 0 <= i < self@.len() ==> #[trigger] r@[i]@ == watch_topic(self@[i].path, self@[i].lvar, raw_prefix@, local_prefix@),
    {
        let mut r: Vec<String> = Vec::new();
        let mut i: usize = 0;
        while i < self.items.len()
            invariant
                i <= self.items.len(),
                r@.len() == i,
                forall|j: int| 0 <= j < i ==> #[trigger] r@[j]@ == watch_topic(self@[j].path, self@[j].lvar, raw_prefix@, local_prefix@),
            decreases self.items.len() - i,
        {
            assert(self@[i as int] == self.items@[i as int]@);
            let mut t = if self.items[i].lvar {
                local_prefix.to_string()
            } else {
                raw_prefix.to_string()
            };
            push_str(&mut t, self.items[i].path.as_str());
            r.push(t);
            i = i + 1;
        }
        r
    }

    /// Marks expired the items that timed out at `now` and are not marked
    /// yet, and gives their paths: each expiry is reported once.
    pub fn collect_expired(&mut self, now: u64) -> (r: Vec<String>)
        requires
            old(self).wf(),
        ensures
            final(self).wf(),
            final(self)@ == old(self)@.map_values(|w: WatchModel| checked(w, now)),
            r@.map_values(|p: String| p@) == expired_paths(old(self)@, now),
    {
        let ghost s = self@;
        let mut r: Vec<String> = Vec::new();
        let mut i: usize = 0;
        assert(s.take(0) =~= Seq::<WatchModel>::empty());
        while i < self.items.len()
            invariant
                i <= self.items.len(),
                self.items.len() == s.len(),
                forall|j: int| 0 <= j < i ==> #[trigger] self@[j] == checked(s[j], now),
                forall|j: int| i <= j < s.len() ==> #[trigger] self@[j] == s[j],
                r@.map_values(|p: String| p@) == expired_paths(s.take(i as int), now),
            decreases self.items.len() - i,
        {
            assert(self@[i as int] == self.items@[i as int]@);
            assert(s.take(i + 1).drop_last() =~= s.take(i as int));
            assert(s.take(i + 1).last() == s[i as int]);
            let ghost before = self.items@;
            let ghost rb = r@;
            if !self.items[i].expired && self.items[i].is_expired(now) {
                r.push(self.items[i].path.clone());
                assert(r@.map_values(|p: String| p@) =~= rb.map_values(|p: String| p@).push(s[i as int].path));
                self.items[i].expired = true;
                assert forall|j: int| 0 <= j < s.len() && j != i implies #[trigger] self@[j] == watches_view(before)[j] by {
                    assert(self.items@[j] == before[j]);
                }
            }
            i = i + 1;
        }
        assert(s.take(s.len() as int) =~= s);
        assert(self@ =~= s.map_values(|w: WatchModel| checked(w, now)));
        assert(paths_distinct(self@)) by {
            assert forall|a: int, b: int| 0 <= a < self@.len() && 0 <= b < self@.len() && a != b implies #[trigger] self@[a].path != #[trigger] self@[b].path by {
                assert(self@[a].path == s[a].path);
                assert(self@[b].path == s[b].path);
            }
        }
        r
    }

    /// A state arrived on `topic` at `now`: the watched item that it
    /// belongs to is reset. Gives whether an item was reset.
    pub fn handle_topic(&mut self, topic: &str, raw_prefix: &str, local_prefix: &str, now: u64) -> (r: bool)
        requires
            old(self).wf(),
        ensures
            final(self).wf(),
            match topic_path(topic@, raw_prefix@, local_prefix@) {
                None => !r && final(self)@ == old(self)@,
                Some(p) => match watch_index(old(self)@, p) {
                    None => !r && final(self)@ == old(self)@,
                    Some(i) => r && final(self)@ == old(self)@.update(
                        i,
                        WatchModel { last_event: now, expired: false, ..old(self)@[i] },
                    ),
                },
            },
    {
        let c = chars_of(topic);
        let raw = chars_of(raw_prefix);
        let local = chars_of(local_prefix);
        let path = if has_prefix(&c, &raw) {
            let p = sub_chars(&c, raw.len(), c.len());
            assert(p@ =~= topic@.skip(raw_prefix@.len() as int));
            p
        } else if has_prefix(&c, &local) {
            let p = sub_chars(&c, local.len(), c.len());
            assert(p@ =~= topic@.skip(local_prefix@.len() as int));
            p
        } else {
            return false;
        };
        let ghost s = self@;
        let p = string_of(&path);
        let mut i: usize = 0;
        while i < self.items.len()
            invariant
                i <= self.items.len(),
                s == self@,
                s == old(self)@,
                topic_path(topic@, raw_prefix@, local_prefix@) == Some(p@),
                paths_distinct(s),
                forall|j: int| 0 <= j < i ==> #[trigger] s[j].path != p@,
            decreases self.items.len() - i,
        {
            assert(s[i as int] == self.items@[i as int]@);
            if str_eq(self.items[i].path.as_str(), p.as_str()) {
                proof {
                    lemma_watch_index(s, p@, i as int);
                }
                let ghost before = self.items@;
                self.items[i].handle_event(now);
                assert(self@ =~= watches_view(before).update(i as int, self.items@[i as int]@));
                assert(watches_view(before) == s);
                assert(self.items@[i as int]@ == WatchModel { last_event: now, expired: false, ..s[i as int] });
                assert(paths_distinct(self@)) by {
                    assert forall|a: int, b: int| 0 <= a < self@.len() && 0 <= b < self@.len() && a != b implies #[trigger] self@[a].path != #[trigger] self@[b].path by {
                        assert(self@[a].path == s[a].path);
                        assert(self@[b].path == s[b].path);
                    }
                }
                return true;
            }
            i = i + 1;
        }
        assert(watch_index(s, p@) is None);
        false
    }
}

/// The next wake-up of a loop that wakes every `step` ticks: one step after
/// the last planned one, then further steps while that is still behind
/// `now`.
pub open spec fn caught_up(next: int, step: int, now: int) -> int
    decreases (if now > next {
        now - next
    } else {
        0
    }),
{
    if step <= 0 || next >= now {
        next
    } else {
        caught_up(next + step, step, now)
    }
}

proof fn lemma_caught_up(next: int, step: int, now: int)
    requires
        step > 0,
    ensures
        caught_up(next, step, now) >= now,
        caught_up(next, step, now) >= next,
        next < now ==> caught_up(next, step, now) < now + step,
        (caught_up(next, step, now) - next) % step == 0,
    decreases (if now > next {
        now - next
    } else {
        0
    }),
{
    if next >= now {
        vstd::arithmetic::div_mod::lemma_small_mod(0, step as nat);
    }
    if next < now {
        lemma_caught_up(next + step, step, now);
        assert((caught_up(next, step, now) - next) % step == 0) by {
            let c = caught_up(next + step, step, now);
            assert((c - next) == (c - (next + step)) + step);
            vstd::arithmetic::div_mod::lemma_mod_add_multiples_vanish(c - (next + step), step);
        }
    }
}

/// The checker's next wake-up after the one planned at `next`, at `now`,
/// and how long to sleep until then.
pub fn next_tick(next: u64, step: u64, now: u64) -> (r: (u64, u64))
    requires
        step > 0,
        next + step <= u64::MAX,
        now + step <= u64::MAX,
    ensures
        r.0 == caught_up(next + step, step as int, now as int),
        r.0 >= now,
        r.1 == r.0 - now,
{
    proof {
        lemma_caught_up(next + step, step as int, now as int);
    }
    let mut n = next + step;
    while n < now
        invariant
            step > 0,
            now + step <= u64::MAX,
            n >= next + step,
            caught_up(n as int, step as int, now as int) == caught_up(next + step, step as int, now as int),
        decreases (if n < now {
            now - n
        } else {
            0
        }),
    {
        n = n + step;
    }
    (n, n - now)
}

/// The checker never plans a wake-up in the past, and after it fell behind
/// it wakes within one step.
pub proof fn law_checker_catches_up(next: int, step: int, now: int)
    requires
        step > 0,
    ensures
        caught_up(next + step, step, now) >= now,
        next + step < now ==> caught_up(next + step, step, now) < now + step,
        (caught_up(next + step, step, now) - next) % step == 0,
{
    lemma_caught_up(next + step, step, now);
    let c = caught_up(next + step, step, now);
    assert((c - next) == (c - (next + step)) + step);
    vstd::arithmetic::div_mod::lemma_mod_add_multiples_vanish(c - (next + step), step);
}

/// Once an item is marked expired, further checks report it no more until
/// it reports a state again.
pub proof fn law_expiry_reported_once(w: WatchModel, now1: u64, now2: u64)
    ensures
        !newly_expired(checked(checked(w, now1), now2), now2) || !newly_expired(w, now1),
        newly_expired(w, now1) ==> !newly_expired(checked(w, now1), now2),
{
}

} // verus!
