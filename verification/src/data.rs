//! Dynamically typed data, as it travels over the bus and through the
//! call-string parser.
use eva_common::value::Value as BusValue;
use vstd::prelude::*;

verus! {

/// A dynamically typed value.
///
/// Floating point numbers are held by their IEEE-754 bit patterns; maps are
/// association lists of key/value pairs.
#[derive(Debug)]
pub enum Datum {
    Bool(bool),
    U8(u8),
    U16(u16),
    U32(u32),
    U64(u64),
    I8(i8),
    I16(i16),
    I32(i32),
    I64(i64),
    /// single precision float, by its bits
    F32(u32),
    /// double precision float, by its bits
    F64(u64),
    Char(char),
    Text(String),
    Unit,
    Optional(Option<Box<Datum>>),
    Newtype(Box<Datum>),
    Sequence(Vec<Datum>),
    Mapping(Vec<(Datum, Datum)>),
    Bytes(Vec<u8>),
}

/// The mathematical model of a [`Datum`].
pub enum SDatum {
    Bool(bool),
    U8(u8),
    U16(u16),
    U32(u32),
    U64(u64),
    I8(i8),
    I16(i16),
    I32(i32),
    I64(i64),
    F32(u32),
    F64(u64),
    Char(char),
    Text(Seq<char>),
    Unit,
    Optional(Option<Box<SDatum>>),
    Newtype(Box<SDatum>),
    Sequence(Seq<SDatum>),
    Mapping(Seq<(SDatum, SDatum)>),
    Bytes(Seq<u8>),
}

pub open spec fn view_value(v: Datum) -> SDatum
    decreases v,
{
    match v {
        Datum::Bool(b) => SDatum::Bool(b),
        Datum::U8(x) => SDatum::U8(x),
        Datum::U16(x) => SDatum::U16(x),
        Datum::U32(x) => SDatum::U32(x),
        Datum::U64(x) => SDatum::U64(x),
        Datum::I8(x) => SDatum::I8(x),
        Datum::I16(x) => SDatum::I16(x),
        Datum::I32(x) => SDatum::I32(x),
        Datum::I64(x) => SDatum::I64(x),
        Datum::F32(x) => SDatum::F32(x),
        Datum::F64(x) => SDatum::F64(x),
        Datum::Char(c) => SDatum::Char(c),
        Datum::Text(s) => SDatum::Text(s@),
        Datum::Unit => SDatum::Unit,
        Datum::Optional(o) => match o {
            Some(b) => SDatum::Optional(Some(Box::new(view_value(*b)))),
            None => SDatum::Optional(None),
        },
        Datum::Newtype(b) => SDatum::Newtype(Box::new(view_value(*b))),
        Datum::Sequence(items) => SDatum::Sequence(view_values(items@)),
        Datum::Mapping(entries) => SDatum::Mapping(view_entries(entries@)),
        Datum::Bytes(b) => SDatum::Bytes(b@),
    }
}

/// The models of a sequence of values, element by element.
pub open spec fn view_values(s: Seq<Datum>) -> Seq<SDatum>
    decreases s,
{
    if s.len() == 0 {
        Seq::empty()
    } else {
        view_values(s.subrange(0, s.len() - 1)).push(view_value(s[s.len() - 1]))
    }
}

/// The models of a sequence of key/value pairs, pair by pair.
pub open spec fn view_entries(s: Seq<(Datum, Datum)>) -> Seq<(SDatum, SDatum)>
    decreases s,
{
    if s.len() == 0 {
        Seq::empty()
    } else {
        view_entries(s.subrange(0, s.len() - 1)).push(
            (view_value(s[s.len() - 1].0), view_value(s[s.len() - 1].1)),
        )
    }
}

impl View for Datum {
    type V = SDatum;

    open spec fn view(&self) -> SDatum {
        view_value(*self)
    }
}


pub proof fn lemma_view_values(s: Seq<Datum>)
    ensures
        view_values(s).len() == s.len(),
        forall|i: int| 0 <= i < s.len() ==> #[trigger] view_values(s)[i] == view_value(s[i]),
    decreases s.len(),
{
    if s.len() > 0 {
        lemma_view_values(s.subrange(0, s.len() - 1));
    }
}

pub proof fn lemma_view_entries(s: Seq<(Datum, Datum)>)
    ensures
        view_entries(s).len() == s.len(),
        forall|i: int|
            0 <= i < s.len() ==> #[trigger] view_entries(s)[i] == (
                view_value(s[i].0),
                view_value(s[i].1),
            ),
    decreases s.len(),
{
    if s.len() > 0 {
        lemma_view_entries(s.subrange(0, s.len() - 1));
    }
}

pub proof fn lemma_view_values_push(s: Seq<Datum>, x: Datum)
    ensures
        view_values(s.push(x)) == view_values(s).push(view_value(x)),
{
    assert(s.push(x).subrange(0, s.len() as int) =~= s);
}

pub proof fn lemma_view_entries_push(s: Seq<(Datum, Datum)>, x: (Datum, Datum))
    ensures
        view_entries(s.push(x)) == view_entries(s).push((view_value(x.0), view_value(x.1))),
{
    assert(s.push(x).subrange(0, s.len() as int) =~= s);
}

pub proof fn lemma_view_entries_update(s: Seq<(Datum, Datum)>, i: int, x: (Datum, Datum))
    requires
        0 <= i < s.len(),
    ensures
        view_entries(s.update(i, x)) == view_entries(s).update(
            i,
            (view_value(x.0), view_value(x.1)),
        ),
{
    lemma_view_entries(s);
    lemma_view_entries(s.update(i, x));
    assert(view_entries(s.update(i, x)) =~= view_entries(s).update(
        i,
        (view_value(x.0), view_value(x.1)),
    ));
}

/// A value and the values nested in it, with every sequence level removed.
pub open spec fn flatten_one(v: SDatum) -> Seq<SDatum>
    decreases v,
{
    match v {
        SDatum::Sequence(items) => flatten_all(items),
        _ => seq![v],
    }
}

/// The flattened values of a sequence, in order.
pub open spec fn flatten_all(s: Seq<SDatum>) -> Seq<SDatum>
    decreases s,
{
    if s.len() == 0 {
        Seq::empty()
    } else {
        flatten_all(s.subrange(0, s.len() - 1)) + flatten_one(s[s.len() - 1])
    }
}

/// A value as one flat sequence: the nested sequences are spliced in, and
/// any other value becomes a sequence of one element.
pub open spec fn seq_flatten(v: SDatum) -> SDatum {
    SDatum::Sequence(flatten_one(v))
}

/// Index of the first entry whose key is the text `name`.
pub open spec fn key_index(m: Seq<(SDatum, SDatum)>, name: Seq<char>) -> Option<int>
    decreases m.len(),
{
    if m.len() == 0 {
        None
    } else {
        match key_index(m.subrange(0, m.len() - 1), name) {
            Some(i) => Some(i),
            None => if m[m.len() - 1].0 == SDatum::Text(name) {
                Some(m.len() - 1)
            } else {
                None
            },
        }
    }
}

/// The entries with `name` bound to `v`: the value of an existing entry is
/// replaced, or a new entry is appended.
pub open spec fn entries_insert(m: Seq<(SDatum, SDatum)>, name: Seq<char>, v: SDatum) -> Seq<
    (SDatum, SDatum),
> {
    match key_index(m, name) {
        Some(i) => m.update(i, (m[i].0, v)),
        None => m.push((SDatum::Text(name), v)),
    }
}

pub proof fn lemma_key_index(m: Seq<(SDatum, SDatum)>, name: Seq<char>)
    ensures
        match key_index(m, name) {
            Some(i) => 0 <= i < m.len() && m[i].0 == SDatum::Text(name) && forall|j: int|
                0 <= j < i ==> m[j].0 != SDatum::Text(name),
            None => forall|j: int| 0 <= j < m.len() ==> m[j].0 != SDatum::Text(name),
        },
    decreases m.len(),
{
    if m.len() > 0 {
        let t = m.subrange(0, m.len() - 1);
        lemma_key_index(t, name);
        assert forall|j: int| 0 <= j < t.len() implies t[j] == m[j] by {}
    }
}

impl Datum {
    /// Whether this value is the text `name`.
    pub fn is_text(&self, name: &str) -> (r: bool)
        ensures
            r == (self@ == SDatum::Text(name@)),
    {
        match self {
            Datum::Text(s) => crate::text::str_eq(s.as_str(), name),
            _ => false,
        }
    }

    /// This value with the nested sequences spliced in; any other value
    /// becomes a sequence of one element.
    pub fn into_seq_flatten(self) -> (r: Datum)
        ensures
            r@ == seq_flatten(self@),
    {
        let mut out: Vec<Datum> = Vec::new();
        flatten_into(self, &mut out);
        proof {
            assert(view_values(Seq::<Datum>::empty()) =~= Seq::<SDatum>::empty());
            assert(Seq::<SDatum>::empty() + flatten_one(self@) =~= flatten_one(self@));
        }
        Datum::Sequence(out)
    }
}

fn flatten_into(v: Datum, out: &mut Vec<Datum>)
    ensures
        view_values(final(out)@) == view_values(old(out)@) + flatten_one(v@),
    decreases v,
{
    let ghost v0 = v;
    match v {
        Datum::Sequence(items) => {
            let ghost orig = items@;
            let n = items.len();
            proof {
                lemma_view_values(orig);
            }
            let mut rest = items;
            let mut k: usize = 0;
            let ghost out0 = out@;
            assert(view_values(orig).take(0) =~= Seq::<SDatum>::empty());
            assert(view_values(out0) + Seq::<SDatum>::empty() =~= view_values(out0));
            #[verifier::loop_isolation(false)]
            while rest.len() > 0
                invariant
                    k + rest@.len() == orig.len(),
                    orig.len() == n,
                    rest@ == orig.skip(k as int),
                    view_values(orig).len() == orig.len(),
                    forall|i: int| 0 <= i < orig.len() ==> #[trigger] view_values(orig)[i] == view_value(orig[i]),
                    view_values(out@) == view_values(out0) + flatten_all(view_values(orig).take(k as int)),
                    v0 == Datum::Sequence(items),
                    items@ == orig,
                decreases rest.len(),
            {
                let x = rest.remove(0);
                assert(x == orig[k as int]);
                proof {
                    assert(decreases_to!(v0 => v0->Sequence_0));
                    assert(decreases_to!(v0->Sequence_0 => v0->Sequence_0@));
                    assert(decreases_to!(v0->Sequence_0@ => v0->Sequence_0@[k as int]));
                    assert(decreases_to!(v0 => x));
                }
                flatten_into(x, out);
                proof {
                    let t = view_values(orig);
                    assert(t.take(k + 1).subrange(0, k as int) =~= t.take(k as int));
                    assert(t.take(k + 1)[k as int] == view_value(x));
                    assert(rest@ =~= orig.skip(k + 1));
                }
                k = k + 1;
            }
            proof {
                assert(view_values(orig).take(k as int) =~= view_values(orig));
            }
        },
        _ => {
            proof {
                lemma_view_values_push(out@, v);
            }
            out.push(v);
        },
    }
}

/// The index of the first entry whose key is the text `name`.
pub fn find_key(m: &Vec<(Datum, Datum)>, name: &str) -> (r: Option<usize>)
    ensures
        r matches Some(i) ==> key_index(view_entries(m@), name@) == Some(i as int),
        r is None ==> key_index(view_entries(m@), name@) is None,
{
    proof {
        lemma_view_entries(m@);
        lemma_key_index(view_entries(m@), name@);
    }
    let mut i: usize = 0;
    while i < m.len()
        invariant
            i <= m.len(),
            view_entries(m@).len() == m@.len(),
            forall|j: int| 0 <= j < m@.len() ==> #[trigger] view_entries(m@)[j] == (view_value(m@[j].0), view_value(m@[j].1)),
            forall|j: int| 0 <= j < i ==> view_value(m@[j].0) != SDatum::Text(name@),
            match key_index(view_entries(m@), name@) {
                Some(k) => 0 <= k < m@.len() && view_entries(m@)[k].0 == SDatum::Text(name@) && forall|j: int|
                    0 <= j < k ==> view_entries(m@)[j].0 != SDatum::Text(name@),
                None => forall|j: int| 0 <= j < m@.len() ==> view_entries(m@)[j].0 != SDatum::Text(name@),
            },
        decreases m.len() - i,
    {
        if m[i].0.is_text(name) {
            proof {
                let ve = view_entries(m@);
                assert(ve[i as int].0 == SDatum::Text(name@));
                match key_index(ve, name@) {
                    Some(k) => {
                        if k < i {
                            assert(ve[k].0 == view_value(m@[k].0));
                        }
                        if k > i {
                            assert(ve[i as int].0 != SDatum::Text(name@));
                        }
                    },
                    None => {
                        assert(ve[i as int].0 != SDatum::Text(name@));
                    },
                }
            }
            return Some(i);
        }
        i = i + 1;
    }
    None
}

/// Binds the text key `name` to `v` in the entries `m`.
pub fn insert_text_key(m: &mut Vec<(Datum, Datum)>, name: &str, v: Datum)
    ensures
        view_entries(final(m)@) == entries_insert(view_entries(old(m)@), name@, v@),
{
    proof {
        lemma_view_entries(old(m)@);
        lemma_key_index(view_entries(old(m)@), name@);
    }
    match find_key(m, name) {
        Some(i) => {
            let (k, _old) = m.remove(i);
            let ghost mid = m@;
            m.insert(i, (k, v));
            proof {
                assert(m@ =~= old(m)@.update(i as int, (k, v)));
                lemma_view_entries_update(old(m)@, i as int, (k, v));
            }
        },
        None => {
            let key = Datum::Text(name.to_owned());
            proof {
                lemma_view_entries_push(m@, (key, v));
            }
            m.push((key, v));
        },
    }
}


#[verifier::external_type_specification]
#[verifier::external_body]
pub struct ExBusValue(eva_common::value::Value);

/// What `<eva_common::value::Value as FromStr>::from_str` makes of a text:
/// an unsigned, signed or floating point number, JSON, a boolean, a unit, or
/// else the text itself.
pub uninterp spec fn text_value(s: Seq<char>) -> SDatum;

/// Calls `eva_common::value::Value::from_str` (which cannot fail) and
/// converts the result; the contract says only that the result is
/// [`text_value`] of the text.
#[verifier::external_body]
pub fn parse_text_value(s: &str) -> (v: Datum)
    ensures
        v@ == text_value(s@),
{
    match s.parse::<BusValue>() {
        Ok(v) => Datum::from_bus(v),
        Err(e) => match e {},
    }
}

impl Datum {
    /// Converts a bus value of a container kind, variant by variant.
    #[verifier::external_body]
    pub(crate) fn from_bus(v: BusValue) -> Datum {
        match v {
            BusValue::Option(o) => Datum::Optional(o.map(|b| Box::new(Datum::from_bus(*b)))),
            BusValue::Newtype(b) => Datum::Newtype(Box::new(Datum::from_bus(*b))),
            BusValue::Seq(s) => Datum::Sequence(s.into_iter().map(Datum::from_bus).collect()),
            BusValue::Map(m) => Datum::Mapping(
                m.into_iter().map(|(k, x)| (Datum::from_bus(k), Datum::from_bus(x))).collect(),
            ),
            other => Datum::from_bus_number(other),
        }
    }

    /// Converts a bus value of an integer kind.
    #[verifier::external_body]
    fn from_bus_number(v: BusValue) -> Datum {
        match v {
            BusValue::U8(x) => Datum::U8(x),
            BusValue::U16(x) => Datum::U16(x),
            BusValue::U32(x) => Datum::U32(x),
            BusValue::U64(x) => Datum::U64(x),
            BusValue::I8(x) => Datum::I8(x),
            BusValue::I16(x) => Datum::I16(x),
            BusValue::I32(x) => Datum::I32(x),
            BusValue::I64(x) => Datum::I64(x),
            other => Datum::from_bus_plain(other),
        }
    }

    /// Converts a bus value of any other kind; floats by their bits.
    #[verifier::external_body]
    fn from_bus_plain(v: BusValue) -> Datum {
        match v {
            BusValue::F32(x) => Datum::F32(x.to_bits()),
            BusValue::F64(x) => Datum::F64(x.to_bits()),
            BusValue::Bool(b) => Datum::Bool(b),
            BusValue::Char(c) => Datum::Char(c),
            BusValue::String(s) => Datum::Text(s),
            BusValue::Unit => Datum::Unit,
            BusValue::Bytes(b) => Datum::Bytes(b),
            other => Datum::from_bus(other),
        }
    }
}

} // verus!
