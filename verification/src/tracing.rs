//! Information on locks that trace their owners: the rule that a numeric
//! owner is never 0, and the record of a lock's name and current owner,
//! which sorts and compares by name alone.
use crate::text::{chars_of, first_difference, index_value};
use core::cmp::Ordering;
use vstd::prelude::*;
use vstd::std_specs::cmp::{PartialEqSpecImpl, PartialOrdSpecImpl};

verus! {

/// A numeric lock owner must not be 0: 0 marks a free lock.
pub fn check_owner(u: usize)
    requires
        u != 0,
{
}

/// The owner that a stored owner number stands for: none for 0.
pub fn owner_of(stored: usize) -> (r: Option<usize>)
    ensures
        r == (if stored == 0 {
            None::<usize>
        } else {
            Some(stored)
        }),
{
    if stored != 0 {
        Some(stored)
    } else {
        None
    }
}

/// The order of two texts, character by character (the order of `str`).
pub open spec fn text_order(a: Seq<char>, b: Seq<char>) -> Ordering
    decreases a.len(),
{
    if a.len() == 0 {
        if b.len() == 0 {
            Ordering::Equal
        } else {
            Ordering::Less
        }
    } else if b.len() == 0 {
        Ordering::Greater
    } else if a[0] < b[0] {
        Ordering::Less
    } else if b[0] < a[0] {
        Ordering::Greater
    } else {
        text_order(a.drop_first(), b.drop_first())
    }
}

/// Texts that share a prefix are ordered as what follows the prefix.
proof fn lemma_text_order_after_prefix(a: Seq<char>, b: Seq<char>, n: int)
    requires
        0 <= n <= a.len(),
        n <= b.len(),
        forall|j: int| 0 <= j < n ==> a[j] == b[j],
    ensures
        text_order(a, b) == text_order(a.skip(n), b.skip(n)),
    decreases n,
{
    if n > 0 {
        lemma_text_order_after_prefix(a.drop_first(), b.drop_first(), n - 1);
        assert(a.drop_first().skip(n - 1) =~= a.skip(n));
        assert(b.drop_first().skip(n - 1) =~= b.skip(n));
    } else {
        assert(a.skip(0) =~= a);
        assert(b.skip(0) =~= b);
    }
}

fn order_of(a: &str, b: &str) -> (r: Ordering)
    ensures
        r == text_order(a@, b@),
{
    let x = chars_of(a);
    let y = chars_of(b);
    let i = first_difference(&x, &y);
    proof {
        lemma_text_order_after_prefix(x@, y@, index_value(i));
    }
    if i < x.len() && i < y.len() {
        if x[i] < y[i] {
            Ordering::Less
        } else {
            Ordering::Greater
        }
    } else if i == x.len() {
        if i == y.len() {
            Ordering::Equal
        } else {
            Ordering::Less
        }
    } else {
        Ordering::Greater
    }
}

/// A lock's name and current owner, if any.
#[derive(Debug)]
pub struct MutexInfo {
    name: String,
    owner: Option<String>,
}

/// The model of a [`MutexInfo`]: the lock's name and its owner's name.
pub struct MutexInfoModel {
    pub name: Seq<char>,
    pub owner: Option<Seq<char>>,
}

pub open spec fn owner_view(o: Option<String>) -> Option<Seq<char>> {
    match o {
        Some(s) => Some(s@),
        None => None,
    }
}

impl View for MutexInfo {
    type V = MutexInfoModel;

    closed spec fn view(&self) -> MutexInfoModel {
        MutexInfoModel { name: self.name@, owner: owner_view(self.owner) }
    }
}

impl MutexInfo {
    /// The record of lock `name`, held by `owner`.
    pub fn new(name: &str, owner: Option<String>) -> (r: MutexInfo)
        ensures
            r@ == (MutexInfoModel { name: name@, owner: owner_view(owner) }),
    {
        MutexInfo { name: name.to_string(), owner }
    }

    pub fn name(&self) -> (r: &str)
        ensures
            r@ == self@.name,
    {
        self.name.as_str()
    }

    pub fn owner(&self) -> (r: Option<&str>)
        ensures
            match r {
                Some(o) => self@.owner == Some(o@),
                None => self@.owner is None,
            },
    {
        match &self.owner {
            Some(o) => Some(o.as_str()),
            None => None,
        }
    }
}

impl PartialEq for MutexInfo {
    fn eq(&self, other: &Self) -> (r: bool) {
        self.name == other.name
    }
}

impl PartialEqSpecImpl for MutexInfo {
    open spec fn obeys_eq_spec() -> bool {
        true
    }

    open spec fn eq_spec(&self, other: &Self) -> bool {
        self@.name == other@.name
    }
}

impl Eq for MutexInfo {
}

impl PartialOrd for MutexInfo {
    fn partial_cmp(&self, other: &Self) -> (r: Option<Ordering>) {
        Some(order_of(self.name.as_str(), other.name.as_str()))
    }
}

impl PartialOrdSpecImpl for MutexInfo {
    open spec fn obeys_partial_cmp_spec() -> bool {
        true
    }

    open spec fn partial_cmp_spec(&self, other: &Self) -> Option<Ordering> {
        Some(text_order(self@.name, other@.name))
    }
}

/// Two records are equal exactly when their names are, and then neither
/// sorts before the other.
pub proof fn law_equal_names_order_equal(a: Seq<char>, b: Seq<char>)
    ensures
        (text_order(a, b) == Ordering::Equal) <==> (a == b),
    decreases a.len(),
{
    if a.len() == 0 && b.len() == 0 {
        assert(a =~= b);
    }
    if a.len() > 0 && b.len() > 0 && a[0] == b[0] {
        law_equal_names_order_equal(a.drop_first(), b.drop_first());
        if a.drop_first() == b.drop_first() {
            assert forall|i: int| 0 <= i < a.len() implies a[i] == b[i] by {
                if i > 0 {
                    assert(a[i] == a.drop_first()[i - 1]);
                    assert(b[i] == b.drop_first()[i - 1]);
                }
            }
            assert(a =~= b);
        }
    }
}

/// Swapping the two records reverses their order.
pub proof fn law_order_is_antisymmetric(a: Seq<char>, b: Seq<char>)
    ensures
        text_order(a, b) == Ordering::Less <==> text_order(b, a) == Ordering::Greater,
    decreases a.len(),
{
    if a.len() > 0 && b.len() > 0 && a[0] == b[0] {
        law_order_is_antisymmetric(a.drop_first(), b.drop_first());
    }
}

} // verus!
