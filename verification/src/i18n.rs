//! Translation of served documents through gettext catalogs: text values
//! are translated line by line, whitespace around each line kept in the
//! way the HMI keeps it.
use crate::data::{Datum, SDatum, view_entries, view_value, view_values, lemma_view_values, lemma_view_entries, lemma_view_values_push, lemma_view_entries_push};
use crate::text::{
    chars_of, chunks_view, lead_ws, leading_ws, push_str, split_all, split_chars, string_of,
    sub_chars, trail_ws, trailing_ws, trim_chars, trim_text,
};
use vstd::prelude::*;

verus! {

#[verifier::external_type_specification]
#[verifier::external_body]
pub struct ExCatalog(gettext::Catalog);

/// The translations a catalog holds: each message id with at least one
/// translated form, to its first form.
pub uninterp spec fn catalog_translations(c: gettext::Catalog) -> Map<Seq<char>, Seq<char>>;

/// The singular translation of `key`, or `key` itself.
pub open spec fn gettext_of(m: Map<Seq<char>, Seq<char>>, key: Seq<char>) -> Seq<char> {
    if m.contains_key(key) {
        m[key]
    } else {
        key
    }
}

/// Calls `gettext::Catalog::gettext`: the first translated form of the
/// message, or the message itself (the crate's source returns the id where
/// the catalog holds no translation).
#[verifier::external_body]
fn translate(cat: &gettext::Catalog, key: &str) -> (r: String)
    ensures
        r@ == gettext_of(catalog_translations(*cat), key@),
{
    cat.gettext(key).to_string()
}

/// The number of bytes of `c` in UTF-8.
pub open spec fn utf8_width(c: char) -> nat {
    if (c as u32) < 0x80 {
        1
    } else if (c as u32) < 0x800 {
        2
    } else if (c as u32) < 0x10000 {
        3
    } else {
        4
    }
}

/// The number of bytes of `s` in UTF-8.
pub open spec fn utf8_len(s: Seq<char>) -> nat
    decreases s.len(),
{
    if s.len() == 0 {
        0
    } else {
        utf8_width(s[0]) + utf8_len(s.drop_first())
    }
}

/// The number of characters whose UTF-8 bytes make up the first `b` bytes
/// of `s`, or `None` where byte `b` falls inside a character.
pub open spec fn byte_cut(s: Seq<char>, b: nat) -> Option<nat>
    decreases s.len(),
{
    if b == 0 {
        Some(0)
    } else if s.len() == 0 || utf8_width(s[0]) > b {
        None
    } else {
        match byte_cut(s.drop_first(), (b - utf8_width(s[0])) as nat) {
            Some(k) => Some(k + 1),
            None => None,
        }
    }
}

/// The byte length of the trailing whitespace of `line`: the text is kept
/// from that byte offset on, as the HMI slices it.
pub open spec fn tail_bytes(line: Seq<char>) -> nat {
    utf8_len(line.skip(line.len() - trail_ws(line)))
}

/// Whether the line can be converted: its slice from [`tail_bytes`] starts
/// on a character boundary (elsewhere the slicing panics).
pub open spec fn line_convertible(line: Seq<char>) -> bool {
    line.len() == 0 || byte_cut(line, tail_bytes(line)) is Some
}

/// A line after translation: its leading whitespace, the translation of
/// its trimmed text, then, where the line ends in whitespace, the line from
/// the byte offset equal to the byte length of that whitespace.
pub open spec fn line_converted(line: Seq<char>, m: Map<Seq<char>, Seq<char>>) -> Seq<char> {
    if line.len() == 0 {
        Seq::empty()
    } else {
        let left = line.take(lead_ws(line) as int);
        let right = if trail_ws(line) == 0 {
            Seq::empty()
        } else {
            line.skip(byte_cut(line, tail_bytes(line))->0 as int)
        };
        left + gettext_of(m, trim_text(line)) + right
    }
}

/// `s` without the character `c`.
pub open spec fn without_char(s: Seq<char>, c: char) -> Seq<char>
    decreases s.len(),
{
    if s.len() == 0 {
        Seq::empty()
    } else {
        let p = without_char(s.drop_last(), c);
        if s.last() == c {
            p
        } else {
            p.push(s.last())
        }
    }
}

/// The lines joined by line feeds.
pub open spec fn joined_lines(lines: Seq<Seq<char>>) -> Seq<char>
    decreases lines.len(),
{
    if lines.len() == 0 {
        Seq::empty()
    } else if lines.len() == 1 {
        lines[0]
    } else {
        joined_lines(lines.drop_last()) + seq!['\n'] + lines.last()
    }
}

/// The lines of a text, carriage returns removed.
pub open spec fn text_lines(s: Seq<char>) -> Seq<Seq<char>> {
    split_all(without_char(s, '\r'), '\n')
}

/// Whether every line of the text can be converted.
pub open spec fn text_convertible(s: Seq<char>) -> bool {
    forall|i: int| 0 <= i < text_lines(s).len() ==> line_convertible(#[trigger] text_lines(s)[i])
}

/// A text after translation, line by line.
pub open spec fn text_converted(s: Seq<char>, m: Map<Seq<char>, Seq<char>>) -> Seq<char> {
    joined_lines(text_lines(s).map_values(|l: Seq<char>| line_converted(l, m)))
}

fn utf8_width_of(c: char) -> (r: usize)
    ensures
        r == utf8_width(c),
{
    let v = c as u32;
    if v < 0x80 {
        1
    } else if v < 0x800 {
        2
    } else if v < 0x10000 {
        3
    } else {
        4
    }
}

proof fn lemma_utf8_len_skip(s: Seq<char>, k: int)
    requires
        0 <= k < s.len(),
    ensures
        utf8_len(s.skip(k)) == utf8_width(s[k]) + utf8_len(s.skip(k + 1)),
{
    assert(s.skip(k).drop_first() =~= s.skip(k + 1));
}

/// The byte length of `s.skip(from)`.
fn utf8_len_from(s: &Vec<char>, from: usize) -> (r: u128)
    requires
        from <= s.len(),
    ensures
        r == utf8_len(s@.skip(from as int)),
        r <= 4 * (s.len() - from),
{
    let mut i = s.len();
    let mut n: u128 = 0;
    assert(s@.skip(s.len() as int) =~= Seq::<char>::empty());
    while i > from
        invariant
            from <= i <= s.len(),
            n == utf8_len(s@.skip(i as int)),
            n <= 4 * (s.len() - i),
        decreases i - from,
    {
        i = i - 1;
        proof {
            lemma_utf8_len_skip(s@, i as int);
        }
        n = n + utf8_width_of(s[i]) as u128;
    }
    n
}

proof fn lemma_byte_cut_skip(s: Seq<char>, k: int, b: nat)
    requires
        0 <= k < s.len(),
        b >= utf8_width(s[k]),
        b > 0,
    ensures
        byte_cut(s.skip(k), b) == match byte_cut(s.skip(k + 1), (b - utf8_width(s[k])) as nat) {
            Some(j) => Some(j + 1),
            None => None::<nat>,
        },
{
    assert(s.skip(k).drop_first() =~= s.skip(k + 1));
    assert(s.skip(k)[0] == s[k]);
}

proof fn lemma_byte_cut_bound(s: Seq<char>, b: nat)
    ensures
        byte_cut(s, b) matches Some(k) ==> k <= s.len(),
    decreases s.len(),
{
    if b > 0 && s.len() > 0 && utf8_width(s[0]) <= b {
        lemma_byte_cut_bound(s.drop_first(), (b - utf8_width(s[0])) as nat);
    }
}

/// The number of characters of `s` that its first `b` bytes hold.
fn cut_at_byte(s: &Vec<char>, b: u128) -> (r: Option<usize>)
    ensures
        match byte_cut(s@, b as nat) {
            Some(k) => r == Some(k as usize) && k <= s.len(),
            None => r is None,
        },
{
    let mut i: usize = 0;
    let mut rem = b;
    assert(s@.skip(0) =~= s@);
    proof {
        lemma_byte_cut_bound(s@, b as nat);
    }
    while rem > 0
        invariant
            i <= s.len(),
            rem <= b,
            match byte_cut(s@, b as nat) {
                Some(k) => match byte_cut(s@.skip(i as int), rem as nat) {
                    Some(j) => k == i + j && k <= s.len(),
                    None => false,
                },
                None => byte_cut(s@.skip(i as int), rem as nat) is None,
            },
        decreases rem,
    {
        if i == s.len() {
            assert(s@.skip(i as int).len() == 0);
            return None;
        }
        let w = utf8_width_of(s[i]) as u128;
        if w > rem {
            assert(s@.skip(i as int)[0] == s@[i as int]);
            return None;
        }
        proof {
            lemma_byte_cut_skip(s@, i as int, rem as nat);
        }
        rem = rem - w;
        i = i + 1;
    }
    Some(i)
}

/// Translates one line.
fn convert_line(line: &Vec<char>, cat: &gettext::Catalog) -> (r: String)
    requires
        line_convertible(line@),
    ensures
        r@ == line_converted(line@, catalog_translations(*cat)),
{
    if line.len() == 0 {
        return String::new();
    }
    let lead = leading_ws(line);
    let trail = trailing_ws(line);
    proof {
        crate::text::lemma_lead_ws(line@);
        crate::text::lemma_trail_ws(line@);
    }
    let left = sub_chars(line, 0, lead);
    let middle = translate(cat, string_of(&trim_chars(line)).as_str());
    let mut r = string_of(&left);
    push_str(&mut r, middle.as_str());
    if trail > 0 {
        let tb = utf8_len_from(line, line.len() - trail);
        match cut_at_byte(line, tb) {
            Some(k) => {
                let right = sub_chars(line, k, line.len());
                assert(right@ =~= line@.skip(k as int));
                push_str(&mut r, string_of(&right).as_str());
            },
            None => {},
        }
    }
    assert(left@ =~= line@.take(lead as int));
    r
}

/// `s` without its carriage returns.
pub fn drop_cr_chars(s: &Vec<char>) -> (r: Vec<char>)
    ensures
        r@ == without_char(s@, '\r'),
{
    let mut r: Vec<char> = Vec::new();
    let mut i: usize = 0;
    assert(s@.take(0) =~= Seq::<char>::empty());
    while i < s.len()
        invariant
            i <= s.len(),
            r@ == without_char(s@.take(i as int), '\r'),
        decreases s.len() - i,
    {
        assert(s@.take(i + 1).drop_last() =~= s@.take(i as int));
        if s[i] != '\r' {
            r.push(s[i]);
        }
        i = i + 1;
    }
    assert(s@.take(s.len() as int) =~= s@);
    r
}

/// Translates a text line by line: carriage returns are dropped, each
/// non-empty line keeps its leading whitespace around the translation of
/// its trimmed text, and the lines are joined again by line feeds.
pub fn convert_str(s: &str, cat: &gettext::Catalog) -> (r: String)
    requires
        text_convertible(s@),
    ensures
        r@ == text_converted(s@, catalog_translations(*cat)),
{
    let c = drop_cr_chars(&chars_of(s));
    let lines = split_chars(&c, '\n');
    let ghost ls = chunks_view(lines@);
    let ghost m = catalog_translations(*cat);
    let mut r = String::new();
    let mut i: usize = 0;
    assert(ls.map_values(|l: Seq<char>| line_converted(l, m)).take(0) =~= Seq::<Seq<char>>::empty());
    while i < lines.len()
        invariant
            i <= lines.len(),
            ls == chunks_view(lines@),
            ls == text_lines(s@),
            m == catalog_translations(*cat),
            text_convertible(s@),
            r@ == joined_lines(ls.map_values(|l: Seq<char>| line_converted(l, m)).take(i as int)),
        decreases lines.len() - i,
    {
        assert(ls[i as int] == lines@[i as int]@);
        let line = convert_line(&lines[i], cat);
        let ghost before = r@;
        if i > 0 {
            push_str(&mut r, "\n");
        }
        push_str(&mut r, line.as_str());
        proof {
            reveal_strlit("\n");
            let cm = ls.map_values(|l: Seq<char>| line_converted(l, m));
            assert(cm.take(i + 1).drop_last() =~= cm.take(i as int));
            assert(cm.take(i + 1).last() == line@);
            if i == 0 {
                assert(r@ =~= line@);
            } else {
                assert(r@ =~= before + seq!['\n'] + line@);
            }
        }
        i = i + 1;
    }
    assert(ls.map_values(|l: Seq<char>| line_converted(l, m)).take(lines.len() as int) =~= ls.map_values(
        |l: Seq<char>| line_converted(l, m),
    ));
    r
}

/// A value after translation: texts are translated, sequences element by
/// element and maps value by value; anything else is kept.
pub open spec fn value_converted(v: SDatum, m: Map<Seq<char>, Seq<char>>) -> SDatum
    decreases v,
{
    match v {
        SDatum::Text(t) => SDatum::Text(text_converted(t, m)),
        SDatum::Sequence(items) => SDatum::Sequence(values_converted(items, m)),
        SDatum::Mapping(entries) => SDatum::Mapping(entries_converted(entries, m)),
        _ => v,
    }
}

pub open spec fn values_converted(s: Seq<SDatum>, m: Map<Seq<char>, Seq<char>>) -> Seq<SDatum>
    decreases s,
{
    if s.len() == 0 {
        Seq::empty()
    } else {
        values_converted(s.subrange(0, s.len() - 1), m).push(value_converted(s[s.len() - 1], m))
    }
}

pub open spec fn entries_converted(s: Seq<(SDatum, SDatum)>, m: Map<Seq<char>, Seq<char>>) -> Seq<(SDatum, SDatum)>
    decreases s,
{
    if s.len() == 0 {
        Seq::empty()
    } else {
        entries_converted(s.subrange(0, s.len() - 1), m).push(
            (s[s.len() - 1].0, value_converted(s[s.len() - 1].1, m)),
        )
    }
}

/// Whether every text that translation reaches can be converted.
pub open spec fn value_convertible(v: SDatum) -> bool
    decreases v,
{
    match v {
        SDatum::Text(t) => text_convertible(t),
        SDatum::Sequence(items) => values_convertible(items),
        SDatum::Mapping(entries) => entries_convertible(entries),
        _ => true,
    }
}

pub open spec fn values_convertible(s: Seq<SDatum>) -> bool
    decreases s,
{
    if s.len() == 0 {
        true
    } else {
        values_convertible(s.subrange(0, s.len() - 1)) && value_convertible(s[s.len() - 1])
    }
}

pub open spec fn entries_convertible(s: Seq<(SDatum, SDatum)>) -> bool
    decreases s,
{
    if s.len() == 0 {
        true
    } else {
        entries_convertible(s.subrange(0, s.len() - 1)) && value_convertible(s[s.len() - 1].1)
    }
}

proof fn lemma_values_converted(s: Seq<SDatum>, m: Map<Seq<char>, Seq<char>>)
    ensures
        values_converted(s, m).len() == s.len(),
        forall|i: int| 0 <= i < s.len() ==> #[trigger] values_converted(s, m)[i] == value_converted(s[i], m),
        values_convertible(s) <==> forall|i: int| 0 <= i < s.len() ==> value_convertible(#[trigger] s[i]),
    decreases s.len(),
{
    if s.len() > 0 {
        let t = s.subrange(0, s.len() - 1);
        lemma_values_converted(t, m);
        assert forall|i: int| 0 <= i < t.len() implies t[i] == s[i] by {}
        if values_convertible(t) && value_convertible(s[s.len() - 1]) {
            assert forall|i: int| 0 <= i < s.len() implies value_convertible(#[trigger] s[i]) by {
                if i < t.len() {
                    assert(t[i] == s[i]);
                }
            }
        }
        if forall|i: int| 0 <= i < s.len() ==> value_convertible(#[trigger] s[i]) {
            assert forall|i: int| 0 <= i < t.len() implies value_convertible(#[trigger] t[i]) by {
                assert(t[i] == s[i]);
            }
        }
    }
}

proof fn lemma_entries_converted(s: Seq<(SDatum, SDatum)>, m: Map<Seq<char>, Seq<char>>)
    ensures
        entries_converted(s, m).len() == s.len(),
        forall|i: int| 0 <= i < s.len() ==> #[trigger] entries_converted(s, m)[i] == (s[i].0, value_converted(s[i].1, m)),
        entries_convertible(s) <==> forall|i: int| 0 <= i < s.len() ==> value_convertible(#[trigger] s[i].1),
    decreases s.len(),
{
    if s.len() > 0 {
        let t = s.subrange(0, s.len() - 1);
        lemma_entries_converted(t, m);
        assert forall|i: int| 0 <= i < t.len() implies t[i] == s[i] by {}
        if entries_convertible(t) && value_convertible(s[s.len() - 1].1) {
            assert forall|i: int| 0 <= i < s.len() implies value_convertible(#[trigger] s[i].1) by {
                if i < t.len() {
                    assert(t[i] == s[i]);
                }
            }
        }
        if forall|i: int| 0 <= i < s.len() ==> value_convertible(#[trigger] s[i].1) {
            assert forall|i: int| 0 <= i < t.len() implies value_convertible(#[trigger] t[i].1) by {
                assert(t[i] == s[i]);
            }
        }
    }
}

/// Translates the texts of a value: texts, the elements of sequences and
/// the values of maps (keys are kept).
pub fn convert_value(v: Datum, cat: &gettext::Catalog) -> (r: Datum)
    requires
        value_convertible(v@),
    ensures
        r@ == value_converted(v@, catalog_translations(*cat)),
    decreases v,
{
    let ghost v0 = v;
    let ghost m = catalog_translations(*cat);
    match v {
        Datum::Text(s) => Datum::Text(convert_str(s.as_str(), cat)),
        Datum::Sequence(items) => {
            let ghost orig = items@;
            proof {
                lemma_view_values(orig);
                lemma_values_converted(view_values(orig), m);
            }
            let n = items.len();
            let mut rest = items;
            let mut out: Vec<Datum> = Vec::new();
            let mut k: usize = 0;
            assert(values_converted(view_values(orig), m).take(0) =~= Seq::<SDatum>::empty());
            assert(view_values(out@) =~= Seq::<SDatum>::empty());
            #[verifier::loop_isolation(false)]
            while rest.len() > 0
                invariant
                    k + rest@.len() == orig.len(),
                    orig.len() == n,
                    rest@ == orig.skip(k as int),
                    view_values(out@) == values_converted(view_values(orig), m).take(k as int),
                    v0 == Datum::Sequence(items),
                    items@ == orig,
                decreases rest.len(),
            {
                let x = rest.remove(0);
                assert(x == orig[k as int]);
                proof {
                    assert(decreases_to!(v0 => v0->Sequence_0));
                    assert(decreases_to!(v0->Sequence_0 => v0->Sequence_0@));
                    assert(decreases_to!(v0->Sequence_0@ => v0->Sequence_0@[k as int]));
                    assert(view_values(orig)[k as int] == view_value(x));
                    assert(value_convertible(view_values(orig)[k as int]));
                }
                let y = convert_value(x, cat);
                proof {
                    lemma_view_values_push(out@, y);
                }
                out.push(y);
                proof {
                    let t = values_converted(view_values(orig), m);
                    assert(t.take(k + 1) =~= t.take(k as int).push(t[k as int]));
                    assert(rest@ =~= orig.skip(k + 1));
                }
                k = k + 1;
            }
            assert(values_converted(view_values(orig), m).take(k as int) =~= values_converted(view_values(orig), m));
            Datum::Sequence(out)
        },
        Datum::Mapping(entries) => {
            let ghost orig = entries@;
            proof {
                lemma_view_entries(orig);
                lemma_entries_converted(view_entries(orig), m);
            }
            let n = entries.len();
            let mut rest = entries;
            let mut out: Vec<(Datum, Datum)> = Vec::new();
            let mut k: usize = 0;
            assert(entries_converted(view_entries(orig), m).take(0) =~= Seq::<(SDatum, SDatum)>::empty());
            assert(view_entries(out@) =~= Seq::<(SDatum, SDatum)>::empty());
            #[verifier::loop_isolation(false)]
            while rest.len() > 0
                invariant
                    k + rest@.len() == orig.len(),
                    orig.len() == n,
                    rest@ == orig.skip(k as int),
                    view_entries(out@) == entries_converted(view_entries(orig), m).take(k as int),
                    v0 == Datum::Mapping(entries),
                    entries@ == orig,
                decreases rest.len(),
            {
                let (key, val) = rest.remove(0);
                assert((key, val) == orig[k as int]);
                proof {
                    assert(decreases_to!(v0 => v0->Mapping_0));
                    assert(decreases_to!(v0->Mapping_0 => v0->Mapping_0@));
                    assert(decreases_to!(v0->Mapping_0@ => v0->Mapping_0@[k as int]));
                    assert(decreases_to!(v0->Mapping_0@[k as int] => v0->Mapping_0@[k as int].1));
                    assert(view_entries(orig)[k as int] == (view_value(key), view_value(val)));
                    assert(value_convertible(view_entries(orig)[k as int].1));
                }
                let y = convert_value(val, cat);
                proof {
                    lemma_view_entries_push(out@, (key, y));
                }
                out.push((key, y));
                proof {
                    let t = entries_converted(view_entries(orig), m);
                    assert(t.take(k + 1) =~= t.take(k as int).push(t[k as int]));
                    assert(rest@ =~= orig.skip(k + 1));
                }
                k = k + 1;
            }
            assert(entries_converted(view_entries(orig), m).take(k as int) =~= entries_converted(view_entries(orig), m));
            Datum::Mapping(out)
        },
        _ => v,
    }
}

} // verus!
