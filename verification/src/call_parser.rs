//! Parser of HMI call strings: `method [value] [key=value ...]`.
//!
//! A parameter `key=value` binds `key`; `key.sub=value` binds `sub` inside
//! the map bound to `key`; a repeated key collects its values in a flat
//! sequence; the first parameter may omit the key, which is then `i`.
//! A value with `=` is a map of `;`-separated `key=value` pairs, a value with
//! `,` is a sequence of `,`-separated values, any other value is parsed by
//! the bus value parser.
use crate::data::{
    entries_insert, key_index, lemma_view_values_push, parse_text_value, seq_flatten, text_value,
    view_entries, view_values, Datum, SDatum,
};
use crate::data::{find_key, insert_text_key, lemma_key_index, lemma_view_entries, lemma_view_entries_push, lemma_view_entries_update};
use crate::text::{
    chunks_view, find_char, has_char, lemma_find_first, lemma_split_all_lengths, split_all,
    split_chars, split_once, string_of, sub_chars, chars_of,
};
use vstd::prelude::*;

verus! {

/// Why a call string was refused.
#[derive(Debug)]
pub enum ParseError {
    /// the input could not be split into words
    UnparsableInput,
    /// no method was given
    NoMethod,
    /// a map key came with no value
    KeyWithNoValue(String),
    /// a sub-key was given for a key that is not bound to a map
    NotAMap(String),
    /// a parameter other than the first came without a key
    NoKey(String),
}

/// The model of a [`ParseError`].
pub enum SParseError {
    UnparsableInput,
    NoMethod,
    KeyWithNoValue(Seq<char>),
    NotAMap(Seq<char>),
    NoKey(Seq<char>),
}

impl View for ParseError {
    type V = SParseError;

    open spec fn view(&self) -> SParseError {
        match self {
            ParseError::UnparsableInput => SParseError::UnparsableInput,
            ParseError::NoMethod => SParseError::NoMethod,
            ParseError::KeyWithNoValue(k) => SParseError::KeyWithNoValue(k@),
            ParseError::NotAMap(k) => SParseError::NotAMap(k@),
            ParseError::NoKey(k) => SParseError::NoKey(k@),
        }
    }
}

pub open spec fn result_view(r: Result<Datum, ParseError>) -> Result<SDatum, SParseError> {
    match r {
        Ok(v) => Ok(v@),
        Err(e) => Err(e@),
    }
}

/// The value of a parameter text.
pub open spec fn spec_parse_val(s: Seq<char>) -> Result<SDatum, SParseError>
    decreases s.len(), 1nat, 0nat,
{
    if s.contains('=') {
        match spec_parse_pairs(split_all(s, ';'), s.len()) {
            Ok(m) => Ok(SDatum::Mapping(m)),
            Err(e) => Err(e),
        }
    } else if s.contains(',') {
        match spec_parse_items(split_all(s, ','), s.len()) {
            Ok(v) => Ok(SDatum::Sequence(v)),
            Err(e) => Err(e),
        }
    } else {
        Ok(text_value(s))
    }
}

/// The entries of the `key=value` pieces, each shorter than `bound`; a piece
/// with an empty key is skipped.
pub open spec fn spec_parse_pairs(chunks: Seq<Seq<char>>, bound: nat) -> Result<
    Seq<(SDatum, SDatum)>,
    SParseError,
>
    decreases bound, 0nat, chunks.len(),
{
    if chunks.len() == 0 {
        Ok(Seq::empty())
    } else {
        match spec_parse_pairs(chunks.drop_last(), bound) {
            Err(e) => Err(e),
            Ok(m) => {
                let (key, rest) = split_once(chunks.last(), '=');
                if key.len() == 0 {
                    Ok(m)
                } else {
                    match rest {
                        None => Err(SParseError::KeyWithNoValue(key)),
                        Some(v) => if v.len() < bound {
                            match spec_parse_val(v) {
                                Ok(pv) => Ok(entries_insert(m, key, pv)),
                                Err(e) => Err(e),
                            }
                        } else {
                            Err(SParseError::UnparsableInput)
                        },
                    }
                }
            },
        }
    }
}

/// The values of the non-empty pieces, each shorter than `bound`.
pub open spec fn spec_parse_items(chunks: Seq<Seq<char>>, bound: nat) -> Result<
    Seq<SDatum>,
    SParseError,
>
    decreases bound, 0nat, chunks.len(),
{
    if chunks.len() == 0 {
        Ok(Seq::empty())
    } else {
        match spec_parse_items(chunks.drop_last(), bound) {
            Err(e) => Err(e),
            Ok(v) => {
                let c = chunks.last();
                if c.len() == 0 {
                    Ok(v)
                } else if c.len() < bound {
                    match spec_parse_val(c) {
                        Ok(pv) => Ok(v.push(pv)),
                        Err(e) => Err(e),
                    }
                } else {
                    Err(SParseError::UnparsableInput)
                }
            },
        }
    }
}

/// The parameter map `m` after one more parameter text `p`; `default` is the
/// key of a parameter given without one.
pub open spec fn spec_parse_param(
    m: Seq<(SDatum, SDatum)>,
    p: Seq<char>,
    default: Option<Seq<char>>,
) -> Result<Seq<(SDatum, SDatum)>, SParseError> {
    let (key0, value) = split_once(p, '=');
    match value {
        Some(v) => {
            let (key, sub) = split_once(key0, '.');
            match spec_parse_val(v) {
                Err(e) => Err(e),
                Ok(val) => match sub {
                    Some(n) => match key_index(m, key) {
                        Some(i) => match m[i].1 {
                            SDatum::Mapping(inner) => Ok(
                                m.update(i, (m[i].0, SDatum::Mapping(entries_insert(inner, n, val)))),
                            ),
                            _ => Err(SParseError::NotAMap(key)),
                        },
                        None => Ok(
                            m.push((SDatum::Text(key), SDatum::Mapping(seq![(SDatum::Text(n), val)]))),
                        ),
                    },
                    None => match key_index(m, key) {
                        Some(i) => Ok(
                            m.update(i, (m[i].0, seq_flatten(SDatum::Sequence(seq![m[i].1, val])))),
                        ),
                        None => Ok(m.push((SDatum::Text(key), val))),
                    },
                },
            }
        },
        None => match default {
            Some(d) => match spec_parse_val(key0) {
                Ok(pv) => Ok(entries_insert(m, d, pv)),
                Err(e) => Err(e),
            },
            None => Err(SParseError::NoKey(key0)),
        },
    }
}

/// The parameter map of the parameter texts `ps`, the first of which may
/// omit its key.
pub open spec fn spec_apply_params(ps: Seq<Seq<char>>) -> Result<Seq<(SDatum, SDatum)>, SParseError>
    decreases ps.len(),
{
    if ps.len() == 0 {
        Ok(Seq::empty())
    } else {
        match spec_apply_params(ps.drop_last()) {
            Err(e) => Err(e),
            Ok(m) => spec_parse_param(
                m,
                ps.last(),
                if ps.len() == 1 {
                    Some(seq!['i'])
                } else {
                    None
                },
            ),
        }
    }
}

/// What `shlex::split` makes of a text: its shell words, or `None` for an
/// erroneous input.
pub uninterp spec fn shell_words(s: Seq<char>) -> Option<Seq<Seq<char>>>;

pub open spec fn strings_view(ws: Seq<String>) -> Seq<Seq<char>> {
    ws.map_values(|w: String| w@)
}

/// Calls `shlex::split`: the words of the text by POSIX shell rules, or
/// `None` where the input is erroneous (an unclosed quote, a trailing
/// backslash); the contract names the result [`shell_words`].
#[verifier::external_body]
fn shlex_split(s: &str) -> (r: Option<Vec<String>>)
    ensures
        match r {
            Some(ws) => shell_words(s@) == Some(strings_view(ws@)),
            None => shell_words(s@) is None,
        },
{
    shlex::split(s)
}

/// The method and parameters of a call string.
pub open spec fn spec_parse_call(s: Seq<char>) -> Result<(Seq<char>, SDatum), SParseError> {
    match shell_words(s) {
        None => Err(SParseError::UnparsableInput),
        Some(w) => if w.len() == 0 {
            Err(SParseError::NoMethod)
        } else {
            match spec_apply_params(w.skip(1)) {
                Ok(m) => Ok((w[0], SDatum::Mapping(m))),
                Err(e) => Err(e),
            }
        },
    }
}

proof fn lemma_pairs_err_stays(chunks: Seq<Seq<char>>, bound: nat, i: int)
    requires
        0 <= i <= chunks.len(),
        spec_parse_pairs(chunks.take(i), bound) is Err,
    ensures
        spec_parse_pairs(chunks, bound) == spec_parse_pairs(chunks.take(i), bound),
    decreases chunks.len() - i,
{
    if i < chunks.len() {
        let t = chunks.take(i + 1);
        assert(t.drop_last() =~= chunks.take(i));
        lemma_pairs_err_stays(chunks, bound, i + 1);
    } else {
        assert(chunks.take(i) =~= chunks);
    }
}

proof fn lemma_items_err_stays(chunks: Seq<Seq<char>>, bound: nat, i: int)
    requires
        0 <= i <= chunks.len(),
        spec_parse_items(chunks.take(i), bound) is Err,
    ensures
        spec_parse_items(chunks, bound) == spec_parse_items(chunks.take(i), bound),
    decreases chunks.len() - i,
{
    if i < chunks.len() {
        let t = chunks.take(i + 1);
        assert(t.drop_last() =~= chunks.take(i));
        lemma_items_err_stays(chunks, bound, i + 1);
    } else {
        assert(chunks.take(i) =~= chunks);
    }
}

proof fn lemma_params_err_stays(ps: Seq<Seq<char>>, i: int)
    requires
        0 <= i <= ps.len(),
        spec_apply_params(ps.take(i)) is Err,
    ensures
        spec_apply_params(ps) == spec_apply_params(ps.take(i)),
    decreases ps.len() - i,
{
    if i < ps.len() {
        let t = ps.take(i + 1);
        assert(t.drop_last() =~= ps.take(i));
        lemma_params_err_stays(ps, i + 1);
    } else {
        assert(ps.take(i) =~= ps);
    }
}

/// Parses a parameter value.
pub fn parse_val(s: &Vec<char>) -> (r: Result<Datum, ParseError>)
    ensures
        result_view(r) == spec_parse_val(s@),
    decreases s@.len(),
{
    if has_char(s, '=') {
        let chunks = split_chars(s, ';');
        let ghost cv = chunks_view(chunks@);
        proof {
            lemma_split_all_lengths(s@, ';');
        }
        let mut m: Vec<(Datum, Datum)> = Vec::new();
        let mut i: usize = 0;
        assert(cv.take(0) =~= Seq::<Seq<char>>::empty());
        assert(view_entries(m@) =~= Seq::<(SDatum, SDatum)>::empty());
        while i < chunks.len()
            invariant
                i <= chunks.len(),
                cv == chunks_view(chunks@),
                cv == split_all(s@, ';'),
                s@.contains('='),
                cv.len() == chunks@.len(),
                forall|k: int| 0 <= k < cv.len() ==> #[trigger] cv[k].len() <= s@.len(),
                spec_parse_pairs(cv.take(i as int), s@.len()) == Ok::<
                    Seq<(SDatum, SDatum)>,
                    SParseError,
                >(view_entries(m@)),
            decreases chunks.len() - i,
        {
            let c = &chunks[i];
            assert(c@ == cv[i as int]);
            let ghost t = cv.take(i + 1);
            assert(t.drop_last() =~= cv.take(i as int));
            assert(t.last() == c@);
            proof {
                lemma_find_first(c@, '=');
            }
            match find_char(c, '=') {
                None => {
                    if c.len() > 0 {
                        let key = string_of(c);
                        proof {
                            assert(split_once(c@, '=') == (c@, Option::<Seq<char>>::None));
                            assert(spec_parse_pairs(t, s@.len()) == Err::<Seq<(SDatum, SDatum)>, SParseError>(SParseError::KeyWithNoValue(c@)));
                            lemma_pairs_err_stays(cv, s@.len(), i + 1);
                            assert(cv.take(i + 1) == t);
                        }
                        return Err(ParseError::KeyWithNoValue(key));
                    }
                    assert(split_once(c@, '=').0 =~= c@);
                },
                Some(p) => {
                    let key = sub_chars(c, 0, p);
                    let v = sub_chars(c, p + 1, c.len());
                    assert(key@ =~= c@.take(p as int));
                    assert(v@ =~= c@.skip(p + 1));
                    if p > 0 {
                        match parse_val(&v) {
                            Ok(pv) => {
                                let k = string_of(&key);
                                insert_text_key(&mut m, k.as_str(), pv);
                            },
                            Err(e) => {
                                proof {
                                    assert(split_once(c@, '=') == (key@, Some(v@)));
                                    assert(v@.len() < s@.len());
                                    assert(spec_parse_pairs(t, s@.len()) == Err::<Seq<(SDatum, SDatum)>, SParseError>(e@));
                                    lemma_pairs_err_stays(cv, s@.len(), i + 1);
                                    assert(cv.take(i + 1) == t);
                                }
                                return Err(e);
                            },
                        }
                    }
                },
            }
            i = i + 1;
        }
        assert(cv.take(i as int) =~= cv);
        Ok(Datum::Mapping(m))
    } else if has_char(s, ',') {
        let chunks = split_chars(s, ',');
        let ghost cv = chunks_view(chunks@);
        proof {
            lemma_split_all_lengths(s@, ',');
        }
        let mut items: Vec<Datum> = Vec::new();
        let mut i: usize = 0;
        assert(cv.take(0) =~= Seq::<Seq<char>>::empty());
        assert(view_values(items@) =~= Seq::<SDatum>::empty());
        while i < chunks.len()
            invariant
                i <= chunks.len(),
                cv == chunks_view(chunks@),
                cv == split_all(s@, ','),
                !s@.contains('='),
                s@.contains(','),
                cv.len() == chunks@.len(),
                forall|k: int| 0 <= k < cv.len() ==> #[trigger] cv[k].len() < s@.len(),
                spec_parse_items(cv.take(i as int), s@.len()) == Ok::<Seq<SDatum>, SParseError>(
                    view_values(items@),
                ),
            decreases chunks.len() - i,
        {
            let c = &chunks[i];
            assert(c@ == cv[i as int]);
            let ghost t = cv.take(i + 1);
            assert(t.drop_last() =~= cv.take(i as int));
            assert(t.last() == c@);
            if c.len() > 0 {
                match parse_val(c) {
                    Ok(pv) => {
                        proof {
                            lemma_view_values_push(items@, pv);
                        }
                        items.push(pv);
                    },
                    Err(e) => {
                        proof {
                            assert(spec_parse_items(t, s@.len()) == Err::<Seq<SDatum>, SParseError>(e@));
                            lemma_items_err_stays(cv, s@.len(), i + 1);
                            assert(cv.take(i + 1) == t);
                        }
                        return Err(e);
                    },
                }
            }
            i = i + 1;
        }
        assert(cv.take(i as int) =~= cv);
        Ok(Datum::Sequence(items))
    } else {
        let text = string_of(s);
        Ok(parse_text_value(text.as_str()))
    }
}


pub open spec fn opt_str_view(o: Option<&str>) -> Option<Seq<char>> {
    match o {
        Some(s) => Some(s@),
        None => None,
    }
}

/// Binds `key.n` to `val` in the parameter map: `n` is bound inside the map
/// bound to `key`, which is created where `key` is unbound.
fn bind_sub_key(result: &mut Vec<(Datum, Datum)>, key: String, n: String, val: Datum) -> (r: Result<(), ParseError>)
    ensures
        ({
            let m = view_entries(old(result)@);
            match key_index(m, key@) {
                Some(i) => match m[i].1 {
                    SDatum::Mapping(inner) => r is Ok && view_entries(final(result)@) == m.update(
                        i,
                        (m[i].0, SDatum::Mapping(entries_insert(inner, n@, val@))),
                    ),
                    _ => r matches Err(x) && x@ == SParseError::NotAMap(key@) && final(result)@
                        == old(result)@,
                },
                None => r is Ok && view_entries(final(result)@) == m.push(
                    (SDatum::Text(key@), SDatum::Mapping(seq![(SDatum::Text(n@), val@)])),
                ),
            }
        }),
{
    proof {
        lemma_view_entries(result@);
        lemma_key_index(view_entries(result@), key@);
    }
    match find_key(result, key.as_str()) {
        Some(i) => {
            let (k, old_v) = result.remove(i);
            match old_v {
                Datum::Mapping(mut inner) => {
                    insert_text_key(&mut inner, n.as_str(), val);
                    result.insert(i, (k, Datum::Mapping(inner)));
                    proof {
                        assert(result@ =~= old(result)@.update(i as int, (k, Datum::Mapping(inner))));
                        lemma_view_entries_update(old(result)@, i as int, (k, Datum::Mapping(inner)));
                    }
                    Ok(())
                },
                other => {
                    result.insert(i, (k, other));
                    proof {
                        assert(result@ =~= old(result)@);
                    }
                    Err(ParseError::NotAMap(key))
                },
            }
        },
        None => {
            let mut inner: Vec<(Datum, Datum)> = Vec::new();
            assert(view_entries(inner@) =~= Seq::<(SDatum, SDatum)>::empty());
            insert_text_key(&mut inner, n.as_str(), val);
            assert(view_entries(inner@) =~= seq![(SDatum::Text(n@), val@)]);
            let entry = (Datum::Text(key), Datum::Mapping(inner));
            proof {
                lemma_view_entries_push(result@, entry);
            }
            result.push(entry);
            Ok(())
        },
    }
}

/// Binds `key` to `val` in the parameter map; a key bound already collects
/// its old and new values in one flat sequence.
fn bind_key(result: &mut Vec<(Datum, Datum)>, key: String, val: Datum)
    ensures
        ({
            let m = view_entries(old(result)@);
            match key_index(m, key@) {
                Some(i) => view_entries(final(result)@) == m.update(
                    i,
                    (m[i].0, seq_flatten(SDatum::Sequence(seq![m[i].1, val@]))),
                ),
                None => view_entries(final(result)@) == m.push((SDatum::Text(key@), val@)),
            }
        }),
{
    proof {
        lemma_view_entries(result@);
        lemma_key_index(view_entries(result@), key@);
    }
    match find_key(result, key.as_str()) {
        Some(i) => {
            let (k, prev) = result.remove(i);
            let mut pair: Vec<Datum> = Vec::new();
            proof {
                lemma_view_values_push(pair@, prev);
            }
            pair.push(prev);
            proof {
                lemma_view_values_push(pair@, val);
            }
            pair.push(val);
            assert(view_values(pair@) =~= seq![prev@, val@]);
            let merged = Datum::Sequence(pair).into_seq_flatten();
            result.insert(i, (k, merged));
            proof {
                assert(result@ =~= old(result)@.update(i as int, (k, merged)));
                lemma_view_entries_update(old(result)@, i as int, (k, merged));
            }
        },
        None => {
            let entry = (Datum::Text(key), val);
            proof {
                lemma_view_entries_push(result@, entry);
            }
            result.push(entry);
        },
    }
}

/// Adds one parameter text to the parameter map `result`; `default` is the
/// key of a parameter given without one. On an error the map is unchanged.
pub fn parse_param(param: &Vec<char>, result: &mut Vec<(Datum, Datum)>, default: Option<&str>) -> (r:
    Result<(), ParseError>)
    ensures
        match spec_parse_param(view_entries(old(result)@), param@, opt_str_view(default)) {
            Ok(m) => r is Ok && view_entries(final(result)@) == m,
            Err(e) => r matches Err(x) && x@ == e && final(result)@ == old(result)@,
        },
{
    proof {
        lemma_find_first(param@, '=');
    }
    match find_char(param, '=') {
        Some(p) => {
            assert(p < param.len());
            let key0 = sub_chars(param, 0, p);
            let value = sub_chars(param, p + 1, param.len());
            assert(key0@ =~= param@.take(p as int));
            assert(value@ =~= param@.skip(p + 1));
            let val = match parse_val(&value) {
                Ok(v) => v,
                Err(e) => {
                    return Err(e);
                },
            };
            proof {
                lemma_find_first(key0@, '.');
            }
            match find_char(&key0, '.') {
                Some(q) => {
                    let kc = sub_chars(&key0, 0, q);
                    let nc = sub_chars(&key0, q + 1, key0.len());
                    assert(kc@ =~= key0@.take(q as int));
                    assert(nc@ =~= key0@.skip(q + 1));
                    bind_sub_key(result, string_of(&kc), string_of(&nc), val)
                },
                None => {
                    assert(split_once(key0@, '.') == (key0@, Option::<Seq<char>>::None));
                    bind_key(result, string_of(&key0), val);
                    Ok(())
                },
            }
        },
        None => {
            assert(split_once(param@, '=') == (param@, Option::<Seq<char>>::None));
            match default {
                Some(d) => {
                    match parse_val(param) {
                        Ok(pv) => {
                            insert_text_key(result, d, pv);
                            Ok(())
                        },
                        Err(e) => Err(e),
                    }
                },
                None => Err(ParseError::NoKey(string_of(param))),
            }
        },
    }
}

pub open spec fn call_view(r: Result<(String, Datum), ParseError>) -> Result<(Seq<char>, SDatum), SParseError> {
    match r {
        Ok((m, v)) => Ok((m@, v@)),
        Err(e) => Err(e@),
    }
}

/// The method and parameter map of a call string.
pub fn parse_call_str(s: &str) -> (r: Result<(String, Datum), ParseError>)
    ensures
        call_view(r) == spec_parse_call(s@),
{
    let words = match shlex_split(s) {
        Some(w) => w,
        None => {
            return Err(ParseError::UnparsableInput);
        },
    };
    let ghost ws = strings_view(words@);
    if words.len() == 0 {
        return Err(ParseError::NoMethod);
    }
    let method = words[0].clone();
    let mut params: Vec<(Datum, Datum)> = Vec::new();
    let ghost ps = ws.skip(1);
    assert(ps.take(0) =~= Seq::<Seq<char>>::empty());
    assert(view_entries(params@) =~= Seq::<(SDatum, SDatum)>::empty());
    let mut k: usize = 1;
    while k < words.len()
        invariant
            1 <= k <= words.len(),
            ws == strings_view(words@),
            shell_words(s@) == Some(ws),
            ps == ws.skip(1),
            ws.len() == words@.len(),
            spec_apply_params(ps.take(k - 1)) == Ok::<Seq<(SDatum, SDatum)>, SParseError>(
                view_entries(params@),
            ),
        decreases words.len() - k,
    {
        let w = chars_of(words[k].as_str());
        assert(w@ == ps[k - 1]);
        let ghost t = ps.take(k as int);
        assert(t.drop_last() =~= ps.take(k - 1));
        assert(t.last() == w@);
        let default = if k == 1 {
            Some("i")
        } else {
            None
        };
        proof {
            reveal_strlit("i");
            assert(opt_str_view(default) == if t.len() == 1 { Some(seq!['i']) } else { Option::<Seq<char>>::None });
        }
        match parse_param(&w, &mut params, default) {
            Ok(()) => {},
            Err(e) => {
                proof {
                    assert(spec_apply_params(t) == Err::<Seq<(SDatum, SDatum)>, SParseError>(e@));
                    lemma_params_err_stays(ps, k as int);
                    assert(ps.take(k as int) == t);
                }
                return Err(e);
            },
        }
        k = k + 1;
    }
    assert(ps.take(k - 1) =~= ps);
    Ok((method, Datum::Mapping(params)))
}

} // verus!
