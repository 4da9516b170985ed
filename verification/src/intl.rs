//! Message catalogs of UI files: the message ids a UI document holds, the
//! ids a `.po` file already lists, the entries appended for new ids, and
//! the translation statistics of a `.po` file.
use crate::data::{Datum, SDatum, lemma_view_entries, lemma_view_values, view_entries, view_value, view_values};
use crate::i18n::{without_char};
use crate::text::{
    chars_of, chunks_view, has_prefix, push_str, split_all, split_chars, string_of, sub_chars,
    trim_chars, trim_text,
};
use vstd::prelude::*;

verus! {

/// The header a new `.po` file begins with.
pub const PO_HEADER: &'static str = "#, fuzzy\nmsgid \"\"\nmsgstr \"\"\n\"Content-Type: text/plain; charset=utf-8\\n\"\n";

/// The ids after the lines `pieces`: each trimmed non-empty line is added
/// unless it is there already.
pub open spec fn add_line_ids(acc: Seq<Seq<char>>, pieces: Seq<Seq<char>>) -> Seq<Seq<char>>
    decreases pieces.len(),
{
    if pieces.len() == 0 {
        acc
    } else {
        let prev = add_line_ids(acc, pieces.drop_last());
        let id = trim_text(pieces.last());
        if id.len() == 0 || prev.contains(id) {
            prev
        } else {
            prev.push(id)
        }
    }
}

/// The message ids of a value, after those in `acc`: the lines of its
/// texts, in order, each once; sequences element by element and maps value
/// by value.
pub open spec fn value_ids(v: SDatum, acc: Seq<Seq<char>>) -> Seq<Seq<char>>
    decreases v,
{
    match v {
        SDatum::Text(s) => add_line_ids(acc, split_all(without_char(s, '\r'), '\n')),
        SDatum::Sequence(items) => values_ids(items, acc),
        SDatum::Mapping(entries) => entries_ids(entries, acc),
        _ => acc,
    }
}

pub open spec fn values_ids(s: Seq<SDatum>, acc: Seq<Seq<char>>) -> Seq<Seq<char>>
    decreases s,
{
    if s.len() == 0 {
        acc
    } else {
        value_ids(s[s.len() - 1], values_ids(s.subrange(0, s.len() - 1), acc))
    }
}

pub open spec fn entries_ids(s: Seq<(SDatum, SDatum)>, acc: Seq<Seq<char>>) -> Seq<Seq<char>>
    decreases s,
{
    if s.len() == 0 {
        acc
    } else {
        value_ids(s[s.len() - 1].1, entries_ids(s.subrange(0, s.len() - 1), acc))
    }
}

pub open spec fn strings_view(v: Seq<String>) -> Seq<Seq<char>> {
    v.map_values(|s: String| s@)
}

/// Whether `v` holds the text `x`.
fn holds(v: &Vec<String>, x: &Vec<char>) -> (r: bool)
    ensures
        r == strings_view(v@).contains(x@),
{
    let mut i: usize = 0;
    while i < v.len()
        invariant
            i <= v.len(),
            forall|j: int| 0 <= j < i ==> #[trigger] v@[j]@ != x@,
        decreases v.len() - i,
    {
        if crate::text::chars_eq(&chars_of(v[i].as_str()), x) {
            assert(strings_view(v@)[i as int] == x@);
            return true;
        }
        i = i + 1;
    }
    let ghost sv = strings_view(v@);
    assert forall|j: int| 0 <= j < sv.len() implies #[trigger] sv[j] != x@ by {
        assert(sv[j] == v@[j]@);
    }
    false
}

fn add_text_ids(s: &str, ids: &mut Vec<String>)
    ensures
        strings_view(final(ids)@) == add_line_ids(strings_view(old(ids)@), split_all(without_char(s@, '\r'), '\n')),
{
    let c = crate::i18n::drop_cr_chars(&chars_of(s));
    let lines = split_chars(&c, '\n');
    let ghost ls = chunks_view(lines@);
    let ghost acc = strings_view(ids@);
    let mut i: usize = 0;
    assert(ls.take(0) =~= Seq::<Seq<char>>::empty());
    while i < lines.len()
        invariant
            i <= lines.len(),
            ls == chunks_view(lines@),
            ls == split_all(without_char(s@, '\r'), '\n'),
            acc == strings_view(old(ids)@),
            strings_view(ids@) == add_line_ids(acc, ls.take(i as int)),
        decreases lines.len() - i,
    {
        assert(ls.take(i + 1).drop_last() =~= ls.take(i as int));
        assert(ls.take(i + 1).last() == lines@[i as int]@);
        let id = trim_chars(&lines[i]);
        if id.len() > 0 && !holds(ids, &id) {
            let ghost before = ids@;
            ids.push(string_of(&id));
            assert(strings_view(ids@) =~= strings_view(before).push(id@));
        }
        i = i + 1;
    }
    assert(ls.take(lines.len() as int) =~= ls);
}

proof fn lemma_values_ids_step(s: Seq<SDatum>, k: int, acc: Seq<Seq<char>>)
    requires
        0 <= k < s.len(),
    ensures
        values_ids(s.take(k + 1), acc) == value_ids(s[k], values_ids(s.take(k), acc)),
{
    assert(s.take(k + 1).subrange(0, k) =~= s.take(k));
}

proof fn lemma_entries_ids_step(s: Seq<(SDatum, SDatum)>, k: int, acc: Seq<Seq<char>>)
    requires
        0 <= k < s.len(),
    ensures
        entries_ids(s.take(k + 1), acc) == value_ids(s[k].1, entries_ids(s.take(k), acc)),
{
    assert(s.take(k + 1).subrange(0, k) =~= s.take(k));
}

/// Appends to `ids` the message ids of a UI value that are not there yet:
/// the trimmed, non-empty lines of its texts (carriage returns dropped), in
/// order; sequences element by element and maps value by value.
pub fn collect_ids(v: &Datum, ids: &mut Vec<String>)
    ensures
        strings_view(final(ids)@) == value_ids(v@, strings_view(old(ids)@)),
    decreases v,
{
    match v {
        Datum::Text(s) => add_text_ids(s.as_str(), ids),
        Datum::Sequence(items) => {
            let ghost orig = items@;
            let ghost acc = strings_view(ids@);
            proof {
                lemma_view_values(orig);
            }
            let mut k: usize = 0;
            assert(view_values(orig).take(0) =~= Seq::<SDatum>::empty());
            #[verifier::loop_isolation(false)]
            while k < items.len()
                invariant
                    k <= items.len(),
                    orig == items@,
                    view_values(orig).len() == orig.len(),
                    forall|i: int| 0 <= i < orig.len() ==> #[trigger] view_values(orig)[i] == view_value(orig[i]),
                    strings_view(ids@) == values_ids(view_values(orig).take(k as int), acc),
                decreases items.len() - k,
            {
                proof {
                    assert(decreases_to!(*v => v->Sequence_0));
                    assert(decreases_to!(v->Sequence_0 => v->Sequence_0@));
                    assert(decreases_to!(v->Sequence_0@ => v->Sequence_0@[k as int]));
                    lemma_values_ids_step(view_values(orig), k as int, acc);
                }
                collect_ids(&items[k], ids);
                k = k + 1;
            }
            assert(view_values(orig).take(k as int) =~= view_values(orig));
        },
        Datum::Mapping(entries) => {
            let ghost orig = entries@;
            let ghost acc = strings_view(ids@);
            proof {
                lemma_view_entries(orig);
            }
            let mut k: usize = 0;
            assert(view_entries(orig).take(0) =~= Seq::<(SDatum, SDatum)>::empty());
            #[verifier::loop_isolation(false)]
            while k < entries.len()
                invariant
                    k <= entries.len(),
                    orig == entries@,
                    view_entries(orig).len() == orig.len(),
                    forall|i: int| 0 <= i < orig.len() ==> #[trigger] view_entries(orig)[i] == (view_value(orig[i].0), view_value(orig[i].1)),
                    strings_view(ids@) == entries_ids(view_entries(orig).take(k as int), acc),
                decreases entries.len() - k,
            {
                proof {
                    assert(decreases_to!(*v => v->Mapping_0));
                    assert(decreases_to!(v->Mapping_0 => v->Mapping_0@));
                    assert(decreases_to!(v->Mapping_0@ => v->Mapping_0@[k as int]));
                    assert(decreases_to!(v->Mapping_0@[k as int] => v->Mapping_0@[k as int].1));
                    lemma_entries_ids_step(view_entries(orig), k as int, acc);
                }
                collect_ids(&entries[k].1, ids);
                k = k + 1;
            }
            assert(view_entries(orig).take(k as int) =~= view_entries(orig));
        },
        _ => {},
    }
}

/// Why a `.po` file was refused.
#[derive(PartialEq, Eq, Debug, Clone)]
pub enum PoError {
    /// a `msgid` is not a quoted text
    InvalidMsgid(String),
    /// a `msgstr` is not a quoted text
    InvalidMsgstr(String),
}

/// Whether `m` is a quoted text: at least two characters, a double quote
/// first and last.
pub open spec fn quoted(m: Seq<char>) -> bool {
    m.len() >= 2 && m[0] == '"' && m[m.len() - 1] == '"'
}

/// `m` without its first and last character.
pub open spec fn unquoted(m: Seq<char>) -> Seq<char> {
    m.subrange(1, m.len() - 1)
}

/// The quoted text after `keyword` on a line that begins with it, trimmed.
pub open spec fn keyword_value(line: Seq<char>, keyword: Seq<char>) -> Option<Seq<char>> {
    if keyword.is_prefix_of(line) {
        Some(trim_text(line.skip(keyword.len() as int)))
    } else {
        None
    }
}

/// The ids a `.po` file lists (non-empty `msgid`s, in order), or the first
/// `msgid` that is not quoted.
pub open spec fn po_ids_of(lines: Seq<Seq<char>>) -> Result<Seq<Seq<char>>, Seq<char>>
    decreases lines.len(),
{
    if lines.len() == 0 {
        Ok(Seq::empty())
    } else {
        match po_ids_of(lines.drop_last()) {
            Err(e) => Err(e),
            Ok(prev) => match keyword_value(lines.last(), "msgid "@) {
                None => Ok(prev),
                Some(m) => if !quoted(m) {
                    Err(m)
                } else if unquoted(m).len() == 0 {
                    Ok(prev)
                } else {
                    Ok(prev.push(unquoted(m)))
                },
            },
        }
    }
}

/// A line's value after `keyword`, where the line begins with it.
fn line_value(line: &Vec<char>, keyword: &str) -> (r: Option<Vec<char>>)
    ensures
        match keyword_value(line@, keyword@) {
            Some(m) => r matches Some(v) && v@ == m,
            None => r is None,
        },
{
    let k = chars_of(keyword);
    if has_prefix(line, &k) {
        let rest = sub_chars(line, k.len(), line.len());
        assert(rest@ =~= line@.skip(keyword@.len() as int));
        Some(trim_chars(&rest))
    } else {
        None
    }
}

fn is_quoted(m: &Vec<char>) -> (r: bool)
    ensures
        r == quoted(m@),
{
    m.len() >= 2 && m[0] == '"' && m[m.len() - 1] == '"'
}

/// The ids a `.po` file already lists.
pub fn po_existing_ids(data: &str) -> (r: Result<Vec<String>, PoError>)
    ensures
        match po_ids_of(split_all(data@, '\n')) {
            Ok(ids) => r matches Ok(v) && strings_view(v@) == ids,
            Err(m) => r matches Err(PoError::InvalidMsgid(e)) && e@ == m,
        },
{
    let c = chars_of(data);
    let lines = split_chars(&c, '\n');
    let ghost ls = chunks_view(lines@);
    let mut ids: Vec<String> = Vec::new();
    let mut i: usize = 0;
    assert(ls.take(0) =~= Seq::<Seq<char>>::empty());
    while i < lines.len()
        invariant
            i <= lines.len(),
            ls == chunks_view(lines@),
            ls == split_all(data@, '\n'),
            po_ids_of(ls.take(i as int)) matches Ok(prev) && strings_view(ids@) == prev,
        decreases lines.len() - i,
    {
        assert(ls.take(i + 1).drop_last() =~= ls.take(i as int));
        assert(ls.take(i + 1).last() == lines@[i as int]@);
        match line_value(&lines[i], "msgid ") {
            None => {},
            Some(m) => {
                if !is_quoted(&m) {
                    proof {
                        lemma_po_err_stays(ls, i as int + 1);
                    }
                    return Err(PoError::InvalidMsgid(string_of(&m)));
                }
                let inner = sub_chars(&m, 1, m.len() - 1);
                if inner.len() > 0 {
                    let ghost before = ids@;
                    ids.push(string_of(&inner));
                    assert(strings_view(ids@) =~= strings_view(before).push(inner@));
                }
            },
        }
        i = i + 1;
    }
    assert(ls.take(lines.len() as int) =~= ls);
    Ok(ids)
}

proof fn lemma_po_err_stays(ls: Seq<Seq<char>>, k: int)
    requires
        0 < k <= ls.len(),
        po_ids_of(ls.take(k)) is Err,
    ensures
        po_ids_of(ls) == po_ids_of(ls.take(k)),
    decreases ls.len() - k,
{
    if k < ls.len() {
        assert(ls.take(k + 1).drop_last() =~= ls.take(k));
        lemma_po_err_stays(ls, k + 1);
    } else {
        assert(ls.take(k) =~= ls);
    }
}

/// The ids of `ids` that `existing` lacks, in order.
pub open spec fn missing_ids(ids: Seq<Seq<char>>, existing: Seq<Seq<char>>) -> Seq<Seq<char>>
    decreases ids.len(),
{
    if ids.len() == 0 {
        Seq::empty()
    } else {
        let prev = missing_ids(ids.drop_last(), existing);
        if existing.contains(ids.last()) {
            prev
        } else {
            prev.push(ids.last())
        }
    }
}

/// The ids that a `.po` file does not list yet.
pub fn new_ids(ids: &Vec<String>, existing: &Vec<String>) -> (r: Vec<String>)
    ensures
        strings_view(r@) == missing_ids(strings_view(ids@), strings_view(existing@)),
{
    let ghost iv = strings_view(ids@);
    let mut r: Vec<String> = Vec::new();
    let mut i: usize = 0;
    assert(iv.take(0) =~= Seq::<Seq<char>>::empty());
    while i < ids.len()
        invariant
            i <= ids.len(),
            iv == strings_view(ids@),
            strings_view(r@) == missing_ids(iv.take(i as int), strings_view(existing@)),
        decreases ids.len() - i,
    {
        assert(iv.take(i + 1).drop_last() =~= iv.take(i as int));
        assert(iv.take(i + 1).last() == ids@[i as int]@);
        if !holds(existing, &chars_of(ids[i].as_str())) {
            let ghost before = r@;
            r.push(ids[i].clone());
            assert(strings_view(r@) =~= strings_view(before).push(ids@[i as int]@));
        }
        i = i + 1;
    }
    assert(iv.take(ids.len() as int) =~= iv);
    r
}

/// The `.po` entry of an id.
pub open spec fn po_entry(m: Seq<char>) -> Seq<char> {
    "\nmsgid \""@ + m + "\"\nmsgstr \"\"\n"@
}

pub open spec fn po_entries_of(ids: Seq<Seq<char>>) -> Seq<char>
    decreases ids.len(),
{
    if ids.len() == 0 {
        Seq::empty()
    } else {
        po_entries_of(ids.drop_last()) + po_entry(ids.last())
    }
}

/// The entries appended to a `.po` file for new ids, with an empty
/// translation each.
pub fn po_entries(ids: &Vec<String>) -> (r: String)
    ensures
        r@ == po_entries_of(strings_view(ids@)),
{
    let ghost iv = strings_view(ids@);
    let mut r = String::new();
    let mut i: usize = 0;
    assert(iv.take(0) =~= Seq::<Seq<char>>::empty());
    while i < ids.len()
        invariant
            i <= ids.len(),
            iv == strings_view(ids@),
            r@ == po_entries_of(iv.take(i as int)),
        decreases ids.len() - i,
    {
        assert(iv.take(i + 1).drop_last() =~= iv.take(i as int));
        assert(iv.take(i + 1).last() == ids@[i as int]@);
        let ghost before = r@;
        push_str(&mut r, "\nmsgid \"");
        push_str(&mut r, ids[i].as_str());
        push_str(&mut r, "\"\nmsgstr \"\"\n");
        assert(r@ =~= before + po_entry(ids@[i as int]@));
        i = i + 1;
    }
    assert(iv.take(ids.len() as int) =~= iv);
    r
}

/// The numbers of `msgstr` lines and of those with a translation, or the
/// first `msgstr` that is not quoted.
pub open spec fn po_counts(lines: Seq<Seq<char>>) -> Result<(nat, nat), Seq<char>>
    decreases lines.len(),
{
    if lines.len() == 0 {
        Ok((0, 0))
    } else {
        match po_counts(lines.drop_last()) {
            Err(e) => Err(e),
            Ok((total, translated)) => match keyword_value(lines.last(), "msgstr "@) {
                None => Ok((total, translated)),
                Some(m) => if !quoted(m) {
                    Err(m)
                } else if unquoted(m).len() == 0 {
                    Ok((total + 1, translated))
                } else {
                    Ok((total + 1, translated + 1))
                },
            },
        }
    }
}

proof fn lemma_po_counts_bound(lines: Seq<Seq<char>>)
    ensures
        po_counts(lines) matches Ok((t, tr)) ==> tr <= t <= lines.len(),
    decreases lines.len(),
{
    if lines.len() > 0 {
        lemma_po_counts_bound(lines.drop_last());
    }
}

proof fn lemma_po_counts_err_stays(ls: Seq<Seq<char>>, k: int)
    requires
        0 < k <= ls.len(),
        po_counts(ls.take(k)) is Err,
    ensures
        po_counts(ls) == po_counts(ls.take(k)),
    decreases ls.len() - k,
{
    if k < ls.len() {
        assert(ls.take(k + 1).drop_last() =~= ls.take(k));
        lemma_po_counts_err_stays(ls, k + 1);
    } else {
        assert(ls.take(k) =~= ls);
    }
}

/// Counts the translations of a `.po` file: the `msgstr` lines (the
/// header's, whose text follows on the next lines, among them) and those
/// that are not empty.
pub fn po_stats(data: &str) -> (r: Result<(usize, usize), PoError>)
    ensures
        match po_counts(split_all(data@, '\n')) {
            Ok((t, tr)) => r matches Ok((rt, rtr)) && rt == t && rtr == tr,
            Err(m) => r matches Err(PoError::InvalidMsgstr(e)) && e@ == m,
        },
{
    let c = chars_of(data);
    let lines = split_chars(&c, '\n');
    let ghost ls = chunks_view(lines@);
    let mut total: usize = 0;
    let mut translated: usize = 0;
    let mut i: usize = 0;
    assert(ls.take(0) =~= Seq::<Seq<char>>::empty());
    while i < lines.len()
        invariant
            i <= lines.len(),
            ls == chunks_view(lines@),
            ls == split_all(data@, '\n'),
            po_counts(ls.take(i as int)) matches Ok((t, tr)) && total == t && translated == tr,
            translated <= total <= i,
        decreases lines.len() - i,
    {
        assert(ls.take(i + 1).drop_last() =~= ls.take(i as int));
        assert(ls.take(i + 1).last() == lines@[i as int]@);
        match line_value(&lines[i], "msgstr ") {
            None => {},
            Some(m) => {
                if !is_quoted(&m) {
                    proof {
                        lemma_po_counts_err_stays(ls, i as int + 1);
                    }
                    return Err(PoError::InvalidMsgstr(string_of(&m)));
                }
                total = total + 1;
                if m.len() > 2 {
                    translated = translated + 1;
                }
            },
        }
        i = i + 1;
    }
    assert(ls.take(lines.len() as int) =~= ls);
    Ok((total, translated))
}

/// The number of missing translations: the `msgstr` lines without one,
/// less the header's.
pub fn missing_translations(total: usize, translated: usize) -> (r: usize)
    requires
        translated < total,
    ensures
        r == total - translated - 1,
{
    total - translated - 1
}

/// Ids already listed are not appended again, and every appended id was
/// neither listed nor appended before.
pub proof fn law_new_ids_are_new(ids: Seq<Seq<char>>, existing: Seq<Seq<char>>, x: Seq<char>)
    ensures
        missing_ids(ids, existing).contains(x) <==> (ids.contains(x) && !existing.contains(x)),
    decreases ids.len(),
{
    broadcast use vstd::seq_lib::lemma_seq_contains_after_push;

    if ids.len() > 0 {
        law_new_ids_are_new(ids.drop_last(), existing, x);
        assert(ids =~= ids.drop_last().push(ids.last()));
    }
}

} // verus!
