//! The set of temporary files that the cloud manager removes when an
//! operation ends or is interrupted.
use crate::paths::{paths_equal, same_path};
use vstd::prelude::*;

verus! {

/// Whether `s` holds a path equal to `p`, as text or as a `Path`.
pub open spec fn holds_path(s: Seq<Seq<char>>, p: Seq<char>) -> bool {
    exists|j: int| 0 <= j < s.len() && (s[j] == p || paths_equal(#[trigger] s[j], p))
}

/// The paths after `p` is appended: unchanged when an equal path is there
/// already.
pub open spec fn cleaner_append(s: Seq<Seq<char>>, p: Seq<char>) -> Seq<Seq<char>> {
    if holds_path(s, p) {
        s
    } else {
        s.push(p)
    }
}

/// Whether no two of the paths are the same path, as text or as a
/// `Path`, so that each file is removed once.
pub open spec fn paths_distinct(s: Seq<Seq<char>>) -> bool {
    forall|i: int, j: int|
        0 <= i < j < s.len() ==> #[trigger] s[i] != #[trigger] s[j] && !paths_equal(s[i], s[j])
}

/// Paths of files to remove; no two of them are the same path.
pub struct FileCleaner {
    paths: Vec<String>,
}

impl View for FileCleaner {
    type V = Seq<Seq<char>>;

    closed spec fn view(&self) -> Seq<Seq<char>> {
        self.paths@.map_values(|p: String| p@)
    }
}

impl FileCleaner {
    #[verifier::type_invariant]
    spec fn inv(self) -> bool {
        paths_distinct(self@)
    }

    /// An empty cleaner.
    pub fn new() -> (r: FileCleaner)
        ensures
            r@ == Seq::<Seq<char>>::empty(),
    {
        let r = FileCleaner { paths: Vec::new() };
        assert(r@ =~= Seq::<Seq<char>>::empty());
        r
    }

    /// Records `path` for removal, once.
    pub fn append(&mut self, path: &str)
        ensures
            final(self)@ == cleaner_append(old(self)@, path@),
            paths_distinct(final(self)@),
    {
        proof {
            use_type_invariant(&*self);
        }
        let mut i: usize = 0;
        while i < self.paths.len()
            invariant
                i <= self.paths.len(),
                self@ == old(self)@,
                paths_distinct(self@),
                forall|j: int| 0 <= j < i ==> !(self@[j] == path@ || paths_equal(#[trigger] self@[j], path@)),
            decreases self.paths.len() - i,
        {
            let found = same_path(self.paths[i].as_str(), path);
            assert(self@[i as int] == self.paths@[i as int]@);
            if found {
                assert(holds_path(self@, path@));
                return;
            }
            i = i + 1;
        }
        let ghost before = self.paths@;
        let ghost old_view = self@;
        assert(paths_distinct(old_view.push(path@))) by {
            let t = old_view.push(path@);
            assert forall|a: int, b: int| 0 <= a < b < t.len() implies #[trigger] t[a] != #[trigger] t[b] && !paths_equal(t[a], t[b]) by {
                if b == t.len() - 1 {
                    assert(t[a] == old_view[a]);
                    assert(t[b] == path@);
                } else {
                    assert(t[a] == old_view[a] && t[b] == old_view[b]);
                }
            }
        }
        let mut ps: Vec<String> = Vec::new();
        std::mem::swap(&mut ps, &mut self.paths);
        ps.push(path.to_string());
        assert(ps@.map_values(|p: String| p@) =~= old_view.push(path@));
        self.paths = ps;
        assert(self@ =~= before.map_values(|p: String| p@).push(path@));
    }

    /// Empties the cleaner and gives back the paths that it held, for their
    /// files to be removed.
    pub fn clear(&mut self) -> (r: Vec<String>)
        ensures
            r@.map_values(|p: String| p@) == old(self)@,
            paths_distinct(old(self)@),
            final(self)@ == Seq::<Seq<char>>::empty(),
    {
        proof {
            use_type_invariant(&*self);
        }
        let mut r: Vec<String> = Vec::new();
        std::mem::swap(&mut r, &mut self.paths);
        assert(self@ =~= Seq::<Seq<char>>::empty());
        r
    }

    /// The paths held, in the order they were appended.
    pub fn paths(&self) -> (r: &Vec<String>)
        ensures
            r@.map_values(|p: String| p@) == self@,
            paths_distinct(self@),
    {
        proof {
            use_type_invariant(self);
        }
        &self.paths
    }
}

/// Appending a path that is already held changes nothing: a path is
/// recorded at most once.
pub proof fn law_append_twice_is_append_once(s: Seq<Seq<char>>, p: Seq<char>)
    ensures
        cleaner_append(cleaner_append(s, p), p) == cleaner_append(s, p),
{
    let t = cleaner_append(s, p);
    if !holds_path(s, p) {
        assert(t[t.len() - 1] == p);
        assert(holds_path(t, p));
    }
}

/// After a path is appended, the cleaner holds it (or a path equal to it).
pub proof fn law_appended_path_is_held(s: Seq<Seq<char>>, p: Seq<char>)
    ensures
        holds_path(cleaner_append(s, p), p),
{
    let t = cleaner_append(s, p);
    if !holds_path(s, p) {
        assert(t[t.len() - 1] == p);
    }
}

} // verus!
