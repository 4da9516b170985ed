//! Targets of the data generator: an item, by its OID, or a service method
//! called with fixed parameters; their text form and its parsing.
use crate::text::{
    chars_of, chunks_view, contains_run, find_char, find_first, find_run, find_run_in,
    lemma_find_first, lemma_find_run, lemma_split_all_join, lemma_split_all_single,
    lemma_text_lt_strict_total, lemma_text_lt_transitive, push_str, split_all, split_chars,
    split_once, str_eq, str_lt, string_of, sub_chars, text_lt,
};
use vstd::prelude::*;

verus! {

/// The canonical text of the OID that `eva_common::OID` parses from `s`,
/// or `None` where `s` is no OID.
pub uninterp spec fn oid_text(s: Seq<char>) -> Option<Seq<char>>;

/// Calls `<eva_common::OID as FromStr>::from_str` and renders a parsed OID
/// with its `Display`; the contract names the outcome [`oid_text`].
#[verifier::external_body]
fn parse_oid(s: &str) -> (r: Option<String>)
    ensures
        match r {
            Some(t) => oid_text(s@) == Some(t@),
            None => oid_text(s@) is None,
        },
{
    s.parse::<eva_common::OID>().ok().map(|o| o.to_string())
}

/// Where generated values go.
pub enum Target {
    /// an item, by the text of its OID
    Oid(String),
    /// a service method
    Service(Service),
}

/// A service method called with fixed text parameters, kept sorted by name
/// with each name once.
pub struct Service {
    id: String,
    method: String,
    params: Vec<(String, String)>,
}

/// The model of a [`Target`].
pub enum TargetModel {
    Oid(Seq<char>),
    Service(Seq<char>, Seq<char>, Seq<(Seq<char>, Seq<char>)>),
}

pub open spec fn pairs_view(v: Seq<(String, String)>) -> Seq<(Seq<char>, Seq<char>)> {
    v.map_values(|p: (String, String)| (p.0@, p.1@))
}

impl View for Target {
    type V = TargetModel;

    closed spec fn view(&self) -> TargetModel {
        match self {
            Target::Oid(o) => TargetModel::Oid(o@),
            Target::Service(s) => TargetModel::Service(s.id@, s.method@, pairs_view(s.params@)),
        }
    }
}

/// The method called when a target names none.
pub open spec fn default_method() -> Seq<char> {
    "var.set"@
}

/// The parameter that a piece `name=value` or a bare `value` stands for; a
/// bare value is the parameter `i`.
pub open spec fn param_of(piece: Seq<char>) -> (Seq<char>, Seq<char>) {
    match split_once(piece, '=') {
        (n, Some(v)) => (n, v),
        (n, None) => ("i"@, n),
    }
}

/// The first index whose name does not sort before `k`.
pub open spec fn insert_pos(m: Seq<(Seq<char>, Seq<char>)>, k: Seq<char>) -> int
    decreases m.len(),
{
    if m.len() == 0 {
        0
    } else if text_lt(m[0].0, k) {
        1 + insert_pos(m.drop_first(), k)
    } else {
        0
    }
}

/// `m` with `k` set to `v`, as a sorted map keeps it.
pub open spec fn params_insert(m: Seq<(Seq<char>, Seq<char>)>, k: Seq<char>, v: Seq<char>) -> Seq<
    (Seq<char>, Seq<char>),
> {
    let i = insert_pos(m, k);
    if i < m.len() && m[i].0 == k {
        m.update(i, (k, v))
    } else {
        m.insert(i, (k, v))
    }
}

/// The parameters that the comma-separated pieces set, later ones winning.
pub open spec fn params_of(pieces: Seq<Seq<char>>) -> Seq<(Seq<char>, Seq<char>)>
    decreases pieces.len(),
{
    if pieces.len() == 0 {
        Seq::empty()
    } else {
        let (k, v) = param_of(pieces.last());
        params_insert(params_of(pieces.drop_last()), k, v)
    }
}

/// The target that a text names: an OID where it parses as one, else
/// `id[::method[@params]]`.
pub open spec fn target_of(s: Seq<char>) -> TargetModel {
    match oid_text(s) {
        Some(t) => TargetModel::Oid(t),
        None => {
            let (id, m) = match find_run(s, "::"@) {
                Some(i) => (s.take(i), s.skip(i + 2)),
                None => (s, default_method()),
            };
            let (method, p) = split_once(m, '@');
            let params = match p {
                Some(ps) => params_of(split_all(ps, ',')),
                None => Seq::empty(),
            };
            TargetModel::Service(id, method, params)
        },
    }
}

/// The text of a parameter: its value alone for `i`, else `name=value`.
pub open spec fn param_text(p: (Seq<char>, Seq<char>)) -> Seq<char> {
    if p.0 == "i"@ {
        p.1
    } else {
        p.0 + "="@ + p.1
    }
}

/// The parameters' texts joined by commas.
pub open spec fn params_text(ps: Seq<(Seq<char>, Seq<char>)>) -> Seq<char>
    decreases ps.len(),
{
    if ps.len() == 0 {
        Seq::empty()
    } else if ps.len() == 1 {
        param_text(ps[0])
    } else {
        params_text(ps.drop_last()) + ","@ + param_text(ps.last())
    }
}

/// The text of a target.
pub open spec fn target_text(t: TargetModel) -> Seq<char> {
    match t {
        TargetModel::Oid(o) => o,
        TargetModel::Service(id, m, ps) => id + "::"@ + m + if ps.len() == 0 {
            Seq::<char>::empty()
        } else {
            "@"@ + params_text(ps)
        },
    }
}

/// Whether the names are in strictly increasing order.
pub open spec fn sorted_names(m: Seq<(Seq<char>, Seq<char>)>) -> bool {
    forall|i: int, j: int| 0 <= i < j < m.len() ==> text_lt(#[trigger] m[i].0, #[trigger] m[j].0)
}

proof fn lemma_insert_pos(m: Seq<(Seq<char>, Seq<char>)>, k: Seq<char>)
    ensures
        0 <= insert_pos(m, k) <= m.len(),
        forall|j: int| 0 <= j < insert_pos(m, k) ==> text_lt(#[trigger] m[j].0, k),
        insert_pos(m, k) < m.len() ==> !text_lt(m[insert_pos(m, k)].0, k),
    decreases m.len(),
{
    if m.len() > 0 && text_lt(m[0].0, k) {
        lemma_insert_pos(m.drop_first(), k);
        assert forall|j: int| 0 <= j < insert_pos(m, k) implies text_lt(#[trigger] m[j].0, k) by {
            if j > 0 {
                assert(m[j] == m.drop_first()[j - 1]);
            }
        }
    }
}

/// Setting a parameter keeps the names sorted and unique, and the name then
/// holds the value set.
pub proof fn law_params_insert_keeps_order(m: Seq<(Seq<char>, Seq<char>)>, k: Seq<char>, v: Seq<char>)
    requires
        sorted_names(m),
    ensures
        sorted_names(params_insert(m, k, v)),
        exists|i: int| 0 <= i < params_insert(m, k, v).len() && #[trigger] params_insert(m, k, v)[i] == (k, v),
{
    lemma_insert_pos(m, k);
    let i = insert_pos(m, k);
    let r = params_insert(m, k, v);
    if i < m.len() && m[i].0 == k {
        assert(r[i] == (k, v));
    } else {
        assert(r[i] == (k, v));
        if i < m.len() {
            lemma_text_lt_strict_total(m[i].0, k);
        }
        assert forall|a: int, b: int| 0 <= a < b < r.len() implies text_lt(#[trigger] r[a].0, #[trigger] r[b].0) by {
            if b < i {
                assert(r[a] == m[a] && r[b] == m[b]);
            } else if b == i {
                assert(r[a] == m[a]);
            } else if a == i {
                assert(r[b] == m[b - 1]);
                if b - 1 > i {
                    lemma_text_lt_transitive(k, m[i].0, m[b - 1].0);
                }
            } else if a < i {
                assert(r[a] == m[a] && r[b] == m[b - 1]);
            } else {
                assert(r[a] == m[a - 1] && r[b] == m[b - 1]);
            }
        }
    }
}

/// The parameters of a parsed target are sorted by name, each name once.
pub proof fn law_parsed_params_sorted(pieces: Seq<Seq<char>>)
    ensures
        sorted_names(params_of(pieces)),
    decreases pieces.len(),
{
    if pieces.len() > 0 {
        law_parsed_params_sorted(pieces.drop_last());
        let (k, v) = param_of(pieces.last());
        law_params_insert_keeps_order(params_of(pieces.drop_last()), k, v);
    }
}

/// A parameter whose text reads back as itself: no `,` anywhere and no `=`
/// in its name, nor in the value of a bare `i`.
pub open spec fn plain_param(p: (Seq<char>, Seq<char>)) -> bool {
    &&& !p.0.contains(',')
    &&& !p.0.contains('=')
    &&& !p.1.contains(',')
    &&& p.0 == "i"@ ==> !p.1.contains('=')
}

proof fn lemma_param_roundtrip(p: (Seq<char>, Seq<char>))
    requires
        plain_param(p),
    ensures
        param_of(param_text(p)) == p,
        !param_text(p).contains(','),
{
    reveal_strlit("i");
    reveal_strlit("=");
    if p.0 == "i"@ {
        lemma_find_first(p.1, '=');
    } else {
        let t = p.0 + "="@ + p.1;
        lemma_find_first(t, '=');
        assert(t[p.0.len() as int] == '=');
        let i = find_first(t, '=')->0;
        if i < p.0.len() {
            assert(t[i] == p.0[i]);
            assert(p.0.contains(p.0[i]));
        }
        if i > p.0.len() {
            assert(t[p.0.len() as int] != '=');
        }
        assert(t.take(p.0.len() as int) =~= p.0);
        assert(t.skip(p.0.len() + 1int) =~= p.1);
        if t.contains(',') {
            let j = choose|j: int| 0 <= j < t.len() && t[j] == ',';
            if j < p.0.len() {
                assert(p.0.contains(t[j]));
            } else if j > p.0.len() {
                assert(t[j] == p.1[j - p.0.len() - 1]);
                assert(p.1.contains(t[j]));
            }
        }
    }
}

proof fn lemma_params_text_split(ps: Seq<(Seq<char>, Seq<char>)>)
    requires
        ps.len() > 0,
        forall|k: int| 0 <= k < ps.len() ==> plain_param(#[trigger] ps[k]),
    ensures
        split_all(params_text(ps), ',') == ps.map_values(|p: (Seq<char>, Seq<char>)| param_text(p)),
    decreases ps.len(),
{
    reveal_strlit(",");
    lemma_param_roundtrip(ps.last());
    lemma_split_all_single(param_text(ps.last()), ',');
    if ps.len() == 1 {
        assert(ps.map_values(|p: (Seq<char>, Seq<char>)| param_text(p)) =~= seq![param_text(ps[0])]);
    } else {
        let d = ps.drop_last();
        assert forall|k: int| 0 <= k < d.len() implies plain_param(#[trigger] d[k]) by {
            assert(d[k] == ps[k]);
        }
        lemma_params_text_split(d);
        assert(","@ =~= seq![',']);
        lemma_split_all_join(params_text(d), param_text(ps.last()), ',');
        assert(ps.map_values(|p: (Seq<char>, Seq<char>)| param_text(p)) =~= d.map_values(
            |p: (Seq<char>, Seq<char>)| param_text(p),
        ) + seq![param_text(ps.last())]);
    }
}

proof fn lemma_insert_pos_end(m: Seq<(Seq<char>, Seq<char>)>, k: Seq<char>)
    requires
        forall|j: int| 0 <= j < m.len() ==> text_lt(#[trigger] m[j].0, k),
    ensures
        insert_pos(m, k) == m.len(),
    decreases m.len(),
{
    if m.len() > 0 {
        let d = m.drop_first();
        assert forall|j: int| 0 <= j < d.len() implies text_lt(#[trigger] d[j].0, k) by {
            assert(d[j] == m[j + 1]);
        }
        lemma_insert_pos_end(d, k);
        assert(text_lt(m[0].0, k));
    }
}

proof fn lemma_params_of_sorted(ps: Seq<(Seq<char>, Seq<char>)>)
    requires
        sorted_names(ps),
        forall|k: int| 0 <= k < ps.len() ==> plain_param(#[trigger] ps[k]),
    ensures
        params_of(ps.map_values(|p: (Seq<char>, Seq<char>)| param_text(p))) == ps,
    decreases ps.len(),
{
    let pieces = ps.map_values(|p: (Seq<char>, Seq<char>)| param_text(p));
    if ps.len() == 0 {
        assert(pieces.len() == 0);
        assert(params_of(pieces) =~= ps);
    } else {
        let d = ps.drop_last();
        assert(sorted_names(d)) by {
            assert forall|i: int, j: int| 0 <= i < j < d.len() implies text_lt(
                #[trigger] d[i].0,
                #[trigger] d[j].0,
            ) by {
                assert(d[i] == ps[i] && d[j] == ps[j]);
            }
        }
        assert forall|k: int| 0 <= k < d.len() implies plain_param(#[trigger] d[k]) by {
            assert(d[k] == ps[k]);
        }
        lemma_params_of_sorted(d);
        assert(pieces.drop_last() =~= d.map_values(|p: (Seq<char>, Seq<char>)| param_text(p)));
        lemma_param_roundtrip(ps.last());
        assert(pieces.last() == param_text(ps.last()));
        let last = ps.last();
        assert forall|j: int| 0 <= j < d.len() implies text_lt(#[trigger] d[j].0, last.0) by {
            assert(d[j] == ps[j]);
            assert(text_lt(ps[j].0, ps[ps.len() - 1].0));
        }
        lemma_insert_pos_end(d, last.0);
        assert(params_insert(d, last.0, last.1) =~= ps);
    }
}

#[verifier::spinoff_prover]
#[verifier::rlimit(40)]
proof fn lemma_sep_found(id: Seq<char>, rest: Seq<char>)
    requires
        !contains_run(id, "::"@),
        !(id.len() > 0 && id.last() == ':'),
    ensures
        find_run(id + "::"@ + rest, "::"@) == Some(id.len() as int),
{
    reveal_strlit("::");
    let sep = "::"@;
    let s = id + sep + rest;
    lemma_find_run(s, sep);
    let n = id.len() as int;
    assert(s.skip(n).take(2) =~= sep);
    assert(sep.is_prefix_of(s.skip(n)));
    assert forall|j: int| 0 <= j < n implies !sep.is_prefix_of(#[trigger] s.skip(j)) by {
        if sep.is_prefix_of(s.skip(j)) {
            let x = s.skip(j);
            assert(sep[0] == ':' && sep[1] == ':');
            assert(x.subrange(0, 2) =~= sep);
            assert(x.subrange(0, 2)[0] == x[0] && x.subrange(0, 2)[1] == x[1]);
            assert(s[j] == ':' && s[j + 1] == ':');
            if j + 1 < n {
                assert(id.subrange(j, j + 2) =~= sep);
            } else {
                assert(id.last() == s[j]);
            }
        }
    }
    match find_run(s, sep) {
        Some(i) => {
            if i > n {
                assert(!sep.is_prefix_of(s.skip(n)));
            }
            if i < n {
                assert(s.skip(i).take(2) =~= s.subrange(i, i + 2));
                assert(sep.is_prefix_of(s.skip(i)));
            }
        },
        None => {},
    }
}

proof fn lemma_at_found(method: Seq<char>, pt: Seq<char>)
    requires
        !method.contains('@'),
    ensures
        split_once(method + "@"@ + pt, '@') == (method, Some(pt)),
        split_once(method, '@') == (method, None::<Seq<char>>),
{
    reveal_strlit("@");
    let rest = method + "@"@ + pt;
    lemma_find_first(rest, '@');
    lemma_find_first(method, '@');
    assert(rest[method.len() as int] == '@');
    let i = find_first(rest, '@')->0;
    if i < method.len() {
        assert(rest[i] == method[i]);
        assert(method.contains(method[i]));
    }
    if i > method.len() {
        assert(rest[method.len() as int] != '@');
    }
    assert(rest.take(method.len() as int) =~= method);
    assert(rest.skip(method.len() + 1int) =~= pt);
}

/// The text of a service target reads back as the same target, where the
/// text is no OID, the id holds no `::` and does not end with `:`, the
/// method holds no `@`, and the parameters are sorted by name with texts
/// that read back as themselves.
pub proof fn law_service_target_roundtrip(
    id: Seq<char>,
    method: Seq<char>,
    ps: Seq<(Seq<char>, Seq<char>)>,
)
    requires
        oid_text(target_text(TargetModel::Service(id, method, ps))) is None,
        !contains_run(id, "::"@),
        !(id.len() > 0 && id.last() == ':'),
        !method.contains('@'),
        sorted_names(ps),
        forall|k: int| 0 <= k < ps.len() ==> plain_param(#[trigger] ps[k]),
    ensures
        target_of(target_text(TargetModel::Service(id, method, ps))) == TargetModel::Service(
            id,
            method,
            ps,
        ),
{
    reveal_strlit("::");
    reveal_strlit("@");
    let suffix = if ps.len() == 0 {
        Seq::<char>::empty()
    } else {
        "@"@ + params_text(ps)
    };
    let rest = method + suffix;
    let s = id + "::"@ + rest;
    assert(s =~= target_text(TargetModel::Service(id, method, ps)));
    lemma_sep_found(id, rest);
    let n = id.len() as int;
    assert(s.take(n) =~= id);
    assert(s.skip(n + 2) =~= rest);
    lemma_at_found(method, params_text(ps));
    assert(target_text(TargetModel::Service(id, method, ps)) == s);
    if ps.len() == 0 {
        assert(rest =~= method);
        assert(ps =~= Seq::<(Seq<char>, Seq<char>)>::empty());
        assert(split_once(rest, '@') == (method, None::<Seq<char>>));
    } else {
        assert(rest == method + "@"@ + params_text(ps));
        assert(split_once(rest, '@') == (method, Some(params_text(ps))));
        lemma_params_text_split(ps);
        lemma_params_of_sorted(ps);
        assert(params_of(split_all(params_text(ps), ',')) == ps);
    }
    assert(find_run(s, "::"@) == Some(n));
}

fn param_from(piece: &Vec<char>) -> (r: (String, String))
    ensures
        (r.0@, r.1@) == param_of(piece@),
{
    proof {
        lemma_find_first(piece@, '=');
    }
    match find_char(piece, '=') {
        Some(i) => {
            assert(i < piece.len());
            let n = sub_chars(piece, 0, i);
            let v = sub_chars(piece, i + 1, piece.len());
            assert(v@ =~= piece@.skip(i + 1));
            (string_of(&n), string_of(&v))
        },
        None => {
            proof {
                reveal_strlit("i");
            }
            ("i".to_string(), string_of(piece))
        },
    }
}

pub(crate) fn set_param(m: &mut Vec<(String, String)>, k: String, v: String)
    ensures
        pairs_view(final(m)@) == params_insert(pairs_view(old(m)@), k@, v@),
{
    let ghost pm = pairs_view(m@);
    proof {
        lemma_insert_pos(pm, k@);
    }
    let mut i: usize = 0;
    while i < m.len() && str_lt(m[i].0.as_str(), k.as_str())
        invariant
            i <= m.len(),
            pm == pairs_view(m@),
            forall|j: int| 0 <= j < i ==> text_lt(#[trigger] pm[j].0, k@),
            0 <= insert_pos(pm, k@) <= pm.len(),
            forall|j: int| 0 <= j < insert_pos(pm, k@) ==> text_lt(#[trigger] pm[j].0, k@),
            insert_pos(pm, k@) < pm.len() ==> !text_lt(pm[insert_pos(pm, k@)].0, k@),
        decreases m.len() - i,
    {
        assert(pm[i as int].0 == m@[i as int].0@);
        i = i + 1;
    }
    assert(i == insert_pos(pm, k@)) by {
        if i < insert_pos(pm, k@) {
            assert(pm[i as int].0 == m@[i as int].0@);
        }
        if i > insert_pos(pm, k@) {
            assert(text_lt(pm[insert_pos(pm, k@)].0, k@));
        }
    }
    if i < m.len() && str_eq(m[i].0.as_str(), k.as_str()) {
        assert(pm[i as int].0 == m@[i as int].0@);
        m.set(i, (k, v));
        assert(pairs_view(m@) =~= pm.update(i as int, (k@, v@)));
    } else {
        proof {
            if i < m.len() {
                assert(pm[i as int].0 == m@[i as int].0@);
            }
        }
        m.insert(i, (k, v));
        assert(pairs_view(m@) =~= pm.insert(i as int, (k@, v@)));
    }
}

impl Target {
    /// Parses a target: an OID where the text is one, else
    /// `id[::method[@params]]`, the method `var.set` by default and the
    /// parameters `name=value` or a bare value for `i`, comma-separated.
    pub fn from_str(s: &str) -> (r: Target)
        ensures
            r@ == target_of(s@),
    {
        if let Some(t) = parse_oid(s) {
            return Target::Oid(t);
        }
        let c = chars_of(s);
        let sep = chars_of("::");
        proof {
            reveal_strlit("::");
        }
        let (id, m) = match find_run_in(&c, &sep) {
            Some(i) => {
                proof {
                    crate::text::lemma_find_run(c@, sep@);
                }
                let id = sub_chars(&c, 0, i);
                let m = sub_chars(&c, i + 2, c.len());
                assert(m@ =~= c@.skip(i + 2));
                (id, m)
            },
            None => (c.clone(), chars_of("var.set")),
        };
        proof {
            lemma_find_first(m@, '@');
        }
        let (method, params) = match find_char(&m, '@') {
            None => {
                let params: Vec<(String, String)> = Vec::new();
                assert(pairs_view(params@) =~= Seq::<(Seq<char>, Seq<char>)>::empty());
                (string_of(&m), params)
            },
            Some(i) => {
                let method = sub_chars(&m, 0, i);
                let rest = sub_chars(&m, i + 1, m.len());
                assert(rest@ =~= m@.skip(i + 1));
                let pieces = split_chars(&rest, ',');
                let mut params: Vec<(String, String)> = Vec::new();
                let mut j: usize = 0;
                assert(chunks_view(pieces@).take(0) =~= Seq::<Seq<char>>::empty());
                while j < pieces.len()
                    invariant
                        j <= pieces.len(),
                        pairs_view(params@) == params_of(chunks_view(pieces@).take(j as int)),
                    decreases pieces.len() - j,
                {
                    let (k, v) = param_from(&pieces[j]);
                    set_param(&mut params, k, v);
                    assert(chunks_view(pieces@).take(j + 1).drop_last() =~= chunks_view(pieces@).take(
                        j as int,
                    ));
                    j = j + 1;
                }
                assert(chunks_view(pieces@).take(pieces.len() as int) =~= chunks_view(pieces@));
                (string_of(&method), params)
            },
        };
        Target::Service(Service { id: string_of(&id), method, params })
    }

    /// The text of the target (its `Display`): the OID, or
    /// `id::method`, followed by `@` and the parameters where there are
    /// any.
    pub fn to_string(&self) -> (r: String)
        ensures
            r@ == target_text(self@),
    {
        match self {
            Target::Oid(o) => o.clone(),
            Target::Service(s) => {
                let mut r = s.id.clone();
                push_str(&mut r, "::");
                push_str(&mut r, s.method.as_str());
                if s.params.len() > 0 {
                    push_str(&mut r, "@");
                    let mut i: usize = 0;
                    let ghost ps = pairs_view(s.params@);
                    let ghost head = r@;
                    while i < s.params.len()
                        invariant
                            i <= s.params.len(),
                            ps == pairs_view(s.params@),
                            ps.len() > 0,
                            r@ == head + params_text(ps.take(i as int)),
                        decreases s.params.len() - i,
                    {
                        let ghost before = r@;
                        if i > 0 {
                            push_str(&mut r, ",");
                        }
                        proof {
                            reveal_strlit("i");
                        }
                        if str_eq(s.params[i].0.as_str(), "i") {
                            push_str(&mut r, s.params[i].1.as_str());
                        } else {
                            push_str(&mut r, s.params[i].0.as_str());
                            push_str(&mut r, "=");
                            push_str(&mut r, s.params[i].1.as_str());
                        }
                        proof {
                            let t = ps.take(i + 1);
                            assert(t.drop_last() =~= ps.take(i as int));
                            assert(t.last() == ps[i as int]);
                            if i == 0 {
                                assert(t.len() == 1);
                            }
                            assert(r@ =~= head + params_text(t));
                        }
                        i = i + 1;
                    }
                    assert(ps.take(ps.len() as int) =~= ps);
                }
                r
            },
        }
    }
}

/// A sampling rate is given or defaults to `default`; zero is refused.
pub open spec fn sampling_of(sampling: Option<u32>, default: u32) -> Option<u32> {
    match sampling {
        Some(0) => None,
        Some(s) => Some(s),
        None => Some(default),
    }
}

/// The sampling rate of a source: `None` for a rate of zero.
pub fn prepare_sampling(sampling: Option<u32>, default: u32) -> (r: Option<u32>)
    ensures
        r == sampling_of(sampling, default),
{
    match sampling {
        Some(s) => if s == 0 {
            None
        } else {
            Some(s)
        },
        None => Some(default),
    }
}

} // verus!
