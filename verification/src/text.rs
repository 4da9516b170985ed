//! Character-level text helpers shared by the parsers.
use vstd::prelude::*;

verus! {

/// Index of the first occurrence of `c` in `s`.
pub open spec fn find_first(s: Seq<char>, c: char) -> Option<int>
    decreases s.len(),
{
    if s.len() == 0 {
        None
    } else if s[0] == c {
        Some(0)
    } else {
        match find_first(s.subrange(1, s.len() as int), c) {
            Some(i) => Some(i + 1),
            None => None,
        }
    }
}

/// The pieces of `s` between the occurrences of `c` (empty pieces included),
/// as `str::split` yields them.
pub open spec fn split_all(s: Seq<char>, c: char) -> Seq<Seq<char>>
    decreases s.len(),
{
    match find_first(s, c) {
        None => seq![s],
        Some(i) => {
            if 0 <= i < s.len() {
                seq![s.take(i)] + split_all(s.skip(i + 1), c)
            } else {
                seq![s]
            }
        },
    }
}

/// `s` cut at the first occurrence of `c`, as `splitn(2, c)` yields it.
pub open spec fn split_once(s: Seq<char>, c: char) -> (Seq<char>, Option<Seq<char>>) {
    match find_first(s, c) {
        None => (s, None),
        Some(i) => (s.take(i), Some(s.skip(i + 1))),
    }
}

pub proof fn lemma_find_first(s: Seq<char>, c: char)
    ensures
        match find_first(s, c) {
            None => !s.contains(c),
            Some(i) => 0 <= i < s.len() && s[i] == c && forall|j: int| 0 <= j < i ==> s[j] != c,
        },
    decreases s.len(),
{
    if s.len() > 0 && s[0] != c {
        let t = s.subrange(1, s.len() as int);
        lemma_find_first(t, c);
        match find_first(t, c) {
            None => {
                assert forall|k: int| 0 <= k < s.len() implies s[k] != c by {
                    if k > 0 {
                        assert(t[k - 1] == s[k]);
                    }
                }
            },
            Some(i) => {
                assert forall|j: int| 0 <= j < i + 1 implies s[j] != c by {
                    if j > 0 {
                        assert(t[j - 1] == s[j]);
                    }
                }
            },
        }
    }
}

/// Index of the first occurrence of `c` in `s`.
pub fn find_char(s: &Vec<char>, c: char) -> (r: Option<usize>)
    ensures
        r matches Some(i) ==> find_first(s@, c) == Some(i as int),
        r is None ==> find_first(s@, c) is None,
{
    proof {
        lemma_find_first(s@, c);
    }
    let mut i: usize = 0;
    while i < s.len()
        invariant
            i <= s.len(),
            forall|j: int| 0 <= j < i ==> s@[j] != c,
            match find_first(s@, c) {
                None => !s@.contains(c),
                Some(k) => 0 <= k < s@.len() && s@[k] == c && forall|j: int|
                    0 <= j < k ==> s@[j] != c,
            },
        decreases s.len() - i,
    {
        if s[i] == c {
            return Some(i);
        }
        i = i + 1;
    }
    None
}

/// The characters of `s` from index `from` up to (not including) `to`.
pub fn sub_chars(s: &Vec<char>, from: usize, to: usize) -> (r: Vec<char>)
    requires
        from <= to <= s.len(),
    ensures
        r@ == s@.subrange(from as int, to as int),
{
    let mut r: Vec<char> = Vec::new();
    let mut i = from;
    while i < to
        invariant
            from <= i <= to <= s.len(),
            r@ == s@.subrange(from as int, i as int),
        decreases to - i,
    {
        r.push(s[i]);
        i = i + 1;
    }
    r
}

/// The characters of a string.
pub fn chars_of(s: &str) -> (r: Vec<char>)
    ensures
        r@ == s@,
{
    let n = s.unicode_len();
    let mut r: Vec<char> = Vec::new();
    let mut i: usize = 0;
    while i < n
        invariant
            n == s@.len(),
            i <= n,
            r@ == s@.subrange(0, i as int),
        decreases n - i,
    {
        r.push(s.get_char(i));
        i = i + 1;
    }
    r
}

/// Appends one character to a string (`String::push`).
#[verifier::external_body]
pub fn push_char(s: &mut String, c: char)
    ensures
        final(s)@ == old(s)@.push(c),
{
    s.push(c);
}

/// The string made of the given characters.
pub fn string_of(v: &Vec<char>) -> (r: String)
    ensures
        r@ == v@,
{
    let mut r = String::new();
    let mut i: usize = 0;
    while i < v.len()
        invariant
            i <= v.len(),
            r@ == v@.subrange(0, i as int),
        decreases v.len() - i,
    {
        push_char(&mut r, v[i]);
        i = i + 1;
    }
    r
}

/// Appends all characters of `t` to `s`.
pub fn push_str(s: &mut String, t: &str)
    ensures
        final(s)@ == old(s)@ + t@,
{
    let v = chars_of(t);
    let mut i: usize = 0;
    while i < v.len()
        invariant
            i <= v.len(),
            v@ == t@,
            s@ == old(s)@ + v@.subrange(0, i as int),
        decreases v.len() - i,
    {
        push_char(s, v[i]);
        i = i + 1;
    }
}

/// Whether two character sequences are equal.
pub fn chars_eq(a: &Vec<char>, b: &Vec<char>) -> (r: bool)
    ensures
        r == (a@ == b@),
{
    if a.len() != b.len() {
        return false;
    }
    let mut i: usize = 0;
    while i < a.len()
        invariant
            a.len() == b.len(),
            i <= a.len(),
            forall|j: int| 0 <= j < i ==> a@[j] == b@[j],
        decreases a.len() - i,
    {
        if a[i] != b[i] {
            return false;
        }
        i = i + 1;
    }
    assert(a@ =~= b@);
    true
}

/// Whether two strings are equal.
pub fn str_eq(a: &str, b: &str) -> (r: bool)
    ensures
        r == (a@ == b@),
{
    let va = chars_of(a);
    let vb = chars_of(b);
    chars_eq(&va, &vb)
}

/// Whether `s` holds the character `c`.
pub fn has_char(s: &Vec<char>, c: char) -> (r: bool)
    ensures
        r == s@.contains(c),
{
    proof {
        lemma_find_first(s@, c);
    }
    find_char(s, c).is_some()
}


/// The character sequences of a list of character vectors.
pub open spec fn chunks_view(v: Seq<Vec<char>>) -> Seq<Seq<char>> {
    v.map_values(|x: Vec<char>| x@)
}

pub proof fn lemma_split_all_unfold(s: Seq<char>, c: char)
    ensures
        match find_first(s, c) {
            None => split_all(s, c) == seq![s],
            Some(i) => 0 <= i < s.len() && split_all(s, c) == seq![s.take(i)] + split_all(
                s.skip(i + 1),
                c,
            ),
        },
{
    lemma_find_first(s, c);
}

/// Every piece of `split_all(s, c)` is no longer than `s`, and strictly
/// shorter when `s` holds `c`.
pub proof fn lemma_split_all_lengths(s: Seq<char>, c: char)
    ensures
        forall|k: int|
            0 <= k < split_all(s, c).len() ==> #[trigger] split_all(s, c)[k].len() <= s.len(),
        s.contains(c) ==> forall|k: int|
            0 <= k < split_all(s, c).len() ==> #[trigger] split_all(s, c)[k].len() < s.len(),
    decreases s.len(),
{
    lemma_find_first(s, c);
    match find_first(s, c) {
        None => {},
        Some(i) => {
            let t = s.skip(i + 1);
            lemma_split_all_lengths(t, c);
            let parts = split_all(s, c);
            assert(parts == seq![s.take(i)] + split_all(t, c));
            assert forall|k: int| 0 <= k < parts.len() implies #[trigger] parts[k].len() < s.len() by {
                if k > 0 {
                    assert(parts[k] == split_all(t, c)[k - 1]);
                }
            }
        },
    }
}

/// The pieces of `s` between the occurrences of `c`, as `str::split` yields
/// them.
pub fn split_chars(s: &Vec<char>, c: char) -> (r: Vec<Vec<char>>)
    ensures
        chunks_view(r@) == split_all(s@, c),
{
    let mut out: Vec<Vec<char>> = Vec::new();
    let mut start: usize = 0;
    assert(s@.skip(0) =~= s@);
    assert(chunks_view(out@) + split_all(s@, c) =~= split_all(s@, c));
    loop
        invariant
            start <= s.len(),
            chunks_view(out@) + split_all(s@.skip(start as int), c) == split_all(s@, c),
        decreases s.len() - start,
    {
        let rest = sub_chars(s, start, s.len());
        assert(rest@ == s@.skip(start as int));
        proof {
            lemma_split_all_unfold(rest@, c);
        }
        match find_char(&rest, c) {
            None => {
                let ghost before = out@;
                out.push(rest);
                proof {
                    assert(chunks_view(out@) =~= chunks_view(before).push(s@.skip(start as int)));
                    assert(chunks_view(before) + seq![s@.skip(start as int)] =~= chunks_view(
                        before,
                    ).push(s@.skip(start as int)));
                }
                return out;
            },
            Some(i) => {
                let piece = sub_chars(&rest, 0, i);
                let ghost before = out@;
                out.push(piece);
                proof {
                    assert(piece@ =~= rest@.take(i as int));
                    assert(rest@.skip(i + 1) =~= s@.skip(start + i + 1));
                    assert(chunks_view(out@) =~= chunks_view(before).push(piece@));
                    assert(chunks_view(before) + split_all(rest@, c) =~= chunks_view(before).push(
                        piece@,
                    ) + split_all(rest@.skip(i + 1), c));
                }
                start = start + i + 1;
            },
        }
    }
}

/// Whether `s` begins with the characters of `p`.
pub fn has_prefix(s: &Vec<char>, p: &Vec<char>) -> (r: bool)
    ensures
        r == p@.is_prefix_of(s@),
{
    if p.len() > s.len() {
        return false;
    }
    let mut i: usize = 0;
    while i < p.len()
        invariant
            p.len() <= s.len(),
            i <= p.len(),
            forall|j: int| 0 <= j < i ==> s@[j] == p@[j],
        decreases p.len() - i,
    {
        if s[i] != p[i] {
            return false;
        }
        i = i + 1;
    }
    assert(s@.subrange(0, p@.len() as int) =~= p@);
    true
}

/// Whether `s` ends with the characters of `p`.
pub fn has_suffix(s: &Vec<char>, p: &Vec<char>) -> (r: bool)
    ensures
        r == p@.is_suffix_of(s@),
{
    if p.len() > s.len() {
        return false;
    }
    let d = s.len() - p.len();
    let mut i: usize = 0;
    while i < p.len()
        invariant
            d + p.len() == s.len(),
            i <= p.len(),
            forall|j: int| 0 <= j < i ==> s@[d + j] == p@[j],
        decreases p.len() - i,
    {
        if s[d + i] != p[i] {
            assert(s@.subrange(d as int, s@.len() as int)[i as int] != p@[i as int]);
            return false;
        }
        i = i + 1;
    }
    assert(s@.subrange(d as int, s@.len() as int) =~= p@);
    true
}

/// Whether `p` occurs in `s` as a run of consecutive characters.
pub open spec fn contains_run(s: Seq<char>, p: Seq<char>) -> bool {
    exists|i: int| 0 <= i && i + p.len() <= s.len() && #[trigger] s.subrange(i, i + p.len()) == p
}

/// Whether `p` occurs in `s` (`str::contains` with a string pattern).
pub fn has_substring(s: &Vec<char>, p: &Vec<char>) -> (r: bool)
    ensures
        r == contains_run(s@, p@),
{
    if p.len() > s.len() {
        assert(!contains_run(s@, p@));
        return false;
    }
    let last = s.len() - p.len();
    let mut i: usize = 0;
    while i <= last
        invariant
            p.len() <= s.len(),
            last == s.len() - p.len(),
            i <= last + 1,
            forall|k: int| 0 <= k < i ==> #[trigger] s@.subrange(k, k + p@.len()) != p@,
        decreases s.len() - i,
    {
        let mut j: usize = 0;
        let mut same = true;
        while j < p.len()
            invariant
                i + p.len() <= s.len(),
                j <= p.len(),
                same == forall|m: int| 0 <= m < j ==> s@[i + m] == p@[m],
            decreases p.len() - j,
        {
            if s[i + j] != p[j] {
                same = false;
            }
            j = j + 1;
        }
        if same {
            assert(s@.subrange(i as int, i + p@.len()) =~= p@);
            return true;
        }
        assert(s@.subrange(i as int, i + p@.len()) != p@) by {
            let k = choose|m: int| 0 <= m < p.len() && s@[i + m] != p@[m];
            assert(s@.subrange(i as int, i + p@.len())[k] != p@[k]);
        }
        i = i + 1;
    }
    assert(!contains_run(s@, p@));
    false
}

/// An index as a mathematical integer.
pub open spec fn index_value(i: usize) -> int {
    i as int
}

/// The length of the longest common prefix of `x` and `y`.
pub fn first_difference(x: &Vec<char>, y: &Vec<char>) -> (i: usize)
    ensures
        i <= x.len(),
        i <= y.len(),
        forall|j: int| 0 <= j < i ==> x@[j] == y@[j],
        i < x.len() && i < y.len() ==> x@[i as int] != y@[i as int],
{
    let mut i: usize = 0;
    while i < x.len() && i < y.len() && x[i] == y[i]
        invariant
            i <= x.len(),
            i <= y.len(),
            forall|j: int| 0 <= j < i ==> x@[j] == y@[j],
        decreases x.len() - i,
    {
        i = i + 1;
    }
    i
}

/// Whether `a` sorts strictly before `b`, character by character (the
/// order of `str`).
pub open spec fn text_lt(a: Seq<char>, b: Seq<char>) -> bool
    decreases a.len(),
{
    if b.len() == 0 {
        false
    } else if a.len() == 0 {
        true
    } else if a[0] != b[0] {
        a[0] < b[0]
    } else {
        text_lt(a.drop_first(), b.drop_first())
    }
}

/// The order of texts is strict and total: no text is before itself, of
/// two different texts one is before the other, never both, and it is
/// transitive.
pub proof fn lemma_text_lt_strict_total(a: Seq<char>, b: Seq<char>)
    ensures
        !text_lt(a, a),
        a != b ==> text_lt(a, b) || text_lt(b, a),
        !(text_lt(a, b) && text_lt(b, a)),
    decreases a.len(),
{
    if a.len() > 0 {
        lemma_text_lt_strict_total(a.drop_first(), a.drop_first());
    }
    if a.len() > 0 && b.len() > 0 && a[0] == b[0] {
        lemma_text_lt_strict_total(a.drop_first(), b.drop_first());
        if a != b {
            if a.drop_first() == b.drop_first() {
                assert forall|i: int| 0 <= i < a.len() implies a[i] == b[i] by {
                    if i > 0 {
                        assert(a[i] == a.drop_first()[i - 1]);
                        assert(b[i] == b.drop_first()[i - 1]);
                    }
                }
                assert(a =~= b);
            }
        }
    }
    if a.len() == 0 && b.len() == 0 {
        assert(a =~= b);
    }
}

pub proof fn lemma_text_lt_transitive(a: Seq<char>, b: Seq<char>, c: Seq<char>)
    requires
        text_lt(a, b),
        text_lt(b, c),
    ensures
        text_lt(a, c),
    decreases a.len(),
{
    if a.len() > 0 && b.len() > 0 && c.len() > 0 && a[0] == b[0] && b[0] == c[0] {
        lemma_text_lt_transitive(a.drop_first(), b.drop_first(), c.drop_first());
    }
}

/// Whether `a` sorts strictly before `b`.
pub fn str_lt(a: &str, b: &str) -> (r: bool)
    ensures
        r == text_lt(a@, b@),
{
    let x = chars_of(a);
    let y = chars_of(b);
    let i = first_difference(&x, &y);
    proof {
        lemma_text_lt_after_prefix(x@, y@, i as int);
    }
    if i < x.len() && i < y.len() {
        x[i] < y[i]
    } else {
        i == x.len() && i < y.len()
    }
}

proof fn lemma_text_lt_after_prefix(a: Seq<char>, b: Seq<char>, n: int)
    requires
        0 <= n <= a.len(),
        n <= b.len(),
        forall|j: int| 0 <= j < n ==> a[j] == b[j],
    ensures
        text_lt(a, b) == text_lt(a.skip(n), b.skip(n)),
    decreases n,
{
    if n > 0 {
        lemma_text_lt_after_prefix(a.drop_first(), b.drop_first(), n - 1);
        assert(a.drop_first().skip(n - 1) =~= a.skip(n));
        assert(b.drop_first().skip(n - 1) =~= b.skip(n));
    } else {
        assert(a.skip(0) =~= a);
        assert(b.skip(0) =~= b);
    }
}

/// The index of the first occurrence of the run `p` in `s`.
pub open spec fn find_run(s: Seq<char>, p: Seq<char>) -> Option<int>
    decreases s.len(),
{
    if p.is_prefix_of(s) {
        Some(0)
    } else if s.len() == 0 {
        None
    } else {
        match find_run(s.drop_first(), p) {
            Some(i) => Some(i + 1),
            None => None,
        }
    }
}

pub proof fn lemma_find_run(s: Seq<char>, p: Seq<char>)
    ensures
        match find_run(s, p) {
            Some(i) => 0 <= i && i + p.len() <= s.len() && s.subrange(i, i + p.len()) == p
                && forall|j: int| 0 <= j < i ==> !p.is_prefix_of(#[trigger] s.skip(j)),
            None => forall|j: int| 0 <= j <= s.len() ==> !p.is_prefix_of(#[trigger] s.skip(j)),
        },
    decreases s.len(),
{
    assert(s.skip(0) =~= s);
    if !p.is_prefix_of(s) && s.len() > 0 {
        let t = s.drop_first();
        lemma_find_run(t, p);
        assert forall|j: int| 1 <= j <= s.len() implies #[trigger] s.skip(j) == t.skip(j - 1) by {
            assert(s.skip(j) =~= t.skip(j - 1));
        }
        match find_run(t, p) {
            Some(i) => {
                assert(s.subrange(i + 1, i + 1 + p.len()) =~= t.subrange(i, i + p.len()));
            },
            None => {},
        }
    } else if p.is_prefix_of(s) {
        assert(s.subrange(0, p.len() as int) =~= p);
    }
}

/// Index of the first occurrence of the run `p` in `s`.
pub fn find_run_in(s: &Vec<char>, p: &Vec<char>) -> (r: Option<usize>)
    ensures
        match r {
            Some(i) => find_run(s@, p@) == Some(i as int),
            None => find_run(s@, p@) is None,
        },
{
    proof {
        lemma_find_run(s@, p@);
    }
    let mut i: usize = 0;
    loop
        invariant
            i <= s.len(),
            forall|j: int| 0 <= j < i ==> !p@.is_prefix_of(#[trigger] s@.skip(j)),
            match find_run(s@, p@) {
                Some(k) => 0 <= k && k + p@.len() <= s@.len() && s@.subrange(k, k + p@.len()) == p@
                    && forall|j: int| 0 <= j < k ==> !p@.is_prefix_of(#[trigger] s@.skip(j)),
                None => forall|j: int| 0 <= j <= s@.len() ==> !p@.is_prefix_of(#[trigger] s@.skip(j)),
            },
        decreases s.len() - i,
    {
        let rest = sub_chars(s, i, s.len());
        assert(rest@ == s@.skip(i as int));
        if has_prefix(&rest, p) {
            proof {
                let ii = i as int;
                match find_run(s@, p@) {
                    Some(k) => {
                        if k < ii {
                            assert(!p@.is_prefix_of(s@.skip(k)));
                        }
                        if k > ii {
                            assert(!p@.is_prefix_of(s@.skip(ii)));
                        }
                    },
                    None => {},
                }
            }
            return Some(i);
        }
        if i == s.len() {
            proof {
                match find_run(s@, p@) {
                    Some(k) => {
                        assert(p@.is_prefix_of(s@.skip(k))) by {
                            assert(s@.skip(k).subrange(0, p@.len() as int) =~= s@.subrange(
                                k,
                                k + p@.len(),
                            ));
                        }
                    },
                    None => {},
                }
            }
            return None;
        }
        i = i + 1;
    }
}

/// Whether `c` is whitespace: it has the Unicode `White_Space` property, as
/// `char::is_whitespace` decides.
pub open spec fn is_ws(c: char) -> bool {
    ||| '\u{9}' <= c <= '\u{d}'
    ||| c == ' '
    ||| c == '\u{85}'
    ||| c == '\u{a0}'
    ||| c == '\u{1680}'
    ||| '\u{2000}' <= c <= '\u{200a}'
    ||| c == '\u{2028}'
    ||| c == '\u{2029}'
    ||| c == '\u{202f}'
    ||| c == '\u{205f}'
    ||| c == '\u{3000}'
}

/// Whether `c` is whitespace.
pub fn is_whitespace(c: char) -> (r: bool)
    ensures
        r == is_ws(c),
{
    ('\u{9}' <= c && c <= '\u{d}') || c == ' ' || c == '\u{85}' || c == '\u{a0}' || c == '\u{1680}'
        || ('\u{2000}' <= c && c <= '\u{200a}') || c == '\u{2028}' || c == '\u{2029}' || c
        == '\u{202f}' || c == '\u{205f}' || c == '\u{3000}'
}

/// The number of whitespace characters that `s` begins with.
pub open spec fn lead_ws(s: Seq<char>) -> nat
    decreases s.len(),
{
    if s.len() > 0 && is_ws(s[0]) {
        1 + lead_ws(s.drop_first())
    } else {
        0
    }
}

/// The number of whitespace characters that `s` ends with.
pub open spec fn trail_ws(s: Seq<char>) -> nat
    decreases s.len(),
{
    if s.len() > 0 && is_ws(s.last()) {
        1 + trail_ws(s.drop_last())
    } else {
        0
    }
}

/// `s` without its leading and trailing whitespace (`str::trim`).
pub open spec fn trim_text(s: Seq<char>) -> Seq<char> {
    if lead_ws(s) == s.len() {
        Seq::empty()
    } else {
        s.subrange(lead_ws(s) as int, s.len() - trail_ws(s))
    }
}

pub proof fn lemma_lead_ws(s: Seq<char>)
    ensures
        lead_ws(s) <= s.len(),
        forall|i: int| 0 <= i < lead_ws(s) ==> is_ws(#[trigger] s[i]),
        lead_ws(s) < s.len() ==> !is_ws(s[lead_ws(s) as int]),
    decreases s.len(),
{
    if s.len() > 0 && is_ws(s[0]) {
        lemma_lead_ws(s.drop_first());
        assert forall|i: int| 0 <= i < lead_ws(s) implies is_ws(#[trigger] s[i]) by {
            if i > 0 {
                assert(s[i] == s.drop_first()[i - 1]);
            }
        }
        if lead_ws(s) < s.len() {
            assert(s[lead_ws(s) as int] == s.drop_first()[lead_ws(s.drop_first()) as int]);
        }
    }
}

pub proof fn lemma_trail_ws(s: Seq<char>)
    ensures
        trail_ws(s) <= s.len(),
        forall|i: int| s.len() - trail_ws(s) <= i < s.len() ==> is_ws(#[trigger] s[i]),
        trail_ws(s) < s.len() ==> !is_ws(s[s.len() - trail_ws(s) - 1]),
    decreases s.len(),
{
    if s.len() > 0 && is_ws(s.last()) {
        let t = s.drop_last();
        lemma_trail_ws(t);
        assert forall|i: int| s.len() - trail_ws(s) <= i < s.len() implies is_ws(#[trigger] s[i]) by {
            if i < s.len() - 1 {
                assert(s[i] == t[i]);
            }
        }
        if trail_ws(s) < s.len() {
            assert(s[s.len() - trail_ws(s) - 1] == t[t.len() - trail_ws(t) - 1]);
        }
    }
}

/// The number of whitespace characters that `s` begins with.
pub fn leading_ws(s: &Vec<char>) -> (r: usize)
    ensures
        r == lead_ws(s@),
{
    proof {
        lemma_lead_ws(s@);
    }
    let mut i: usize = 0;
    while i < s.len() && is_whitespace(s[i])
        invariant
            i <= lead_ws(s@),
            lead_ws(s@) <= s@.len(),
            forall|j: int| 0 <= j < lead_ws(s@) ==> is_ws(#[trigger] s@[j]),
            lead_ws(s@) < s@.len() ==> !is_ws(s@[lead_ws(s@) as int]),
        decreases s.len() - i,
    {
        i = i + 1;
    }
    i
}

/// The number of whitespace characters that `s` ends with.
pub fn trailing_ws(s: &Vec<char>) -> (r: usize)
    ensures
        r == trail_ws(s@),
{
    proof {
        lemma_trail_ws(s@);
    }
    let mut i: usize = 0;
    while i < s.len() && is_whitespace(s[s.len() - 1 - i])
        invariant
            i <= trail_ws(s@),
            trail_ws(s@) <= s@.len(),
            forall|j: int| s@.len() - trail_ws(s@) <= j < s@.len() ==> is_ws(#[trigger] s@[j]),
            trail_ws(s@) < s@.len() ==> !is_ws(s@[s@.len() - trail_ws(s@) - 1]),
        decreases s.len() - i,
    {
        i = i + 1;
    }
    i
}

/// `s` without its leading and trailing whitespace.
pub fn trim_chars(s: &Vec<char>) -> (r: Vec<char>)
    ensures
        r@ == trim_text(s@),
{
    let a = leading_ws(s);
    if a == s.len() {
        return Vec::new();
    }
    let b = trailing_ws(s);
    proof {
        lemma_lead_ws(s@);
        lemma_trail_ws(s@);
        if a + b > s.len() {
            assert(is_ws(s@[a as int]));
        }
    }
    sub_chars(s, a, s.len() - b)
}

/// No piece of `split_all(s, c)` holds `c`.
pub proof fn lemma_split_all_pieces_lack(s: Seq<char>, c: char)
    ensures
        forall|k: int| 0 <= k < split_all(s, c).len() ==> !(#[trigger] split_all(s, c)[k]).contains(c),
    decreases s.len(),
{
    lemma_find_first(s, c);
    match find_first(s, c) {
        None => {},
        Some(i) => {
            let t = s.skip(i + 1);
            lemma_split_all_pieces_lack(t, c);
            let parts = split_all(s, c);
            assert(parts == seq![s.take(i)] + split_all(t, c));
            assert forall|k: int| 0 <= k < parts.len() implies !(#[trigger] parts[k]).contains(c) by {
                if k > 0 {
                    assert(parts[k] == split_all(t, c)[k - 1]);
                } else {
                    assert(parts[0] == s.take(i));
                    if s.take(i).contains(c) {
                        let j = choose|j: int| 0 <= j < s.take(i).len() && s.take(i)[j] == c;
                        assert(s[j] == c);
                    }
                }
            }
        },
    }
}

/// A text without `c` is one piece.
pub proof fn lemma_split_all_single(s: Seq<char>, c: char)
    requires
        !s.contains(c),
    ensures
        split_all(s, c) == seq![s],
{
    lemma_find_first(s, c);
}

/// Splitting two texts joined by `c` splits each of them.
pub proof fn lemma_split_all_join(a: Seq<char>, b: Seq<char>, c: char)
    ensures
        split_all(a + seq![c] + b, c) == split_all(a, c) + split_all(b, c),
    decreases a.len(),
{
    let s = a + seq![c] + b;
    lemma_find_first(a, c);
    lemma_find_first(s, c);
    lemma_split_all_unfold(s, c);
    lemma_split_all_unfold(a, c);
    match find_first(a, c) {
        None => {
            assert(s[a.len() as int] == c);
            let i = find_first(s, c)->0;
            if i < a.len() {
                assert(s[i] == a[i]);
                assert(a.contains(a[i]));
            }
            if i > a.len() {
                assert(s[a.len() as int] != c);
            }
            assert(s.take(a.len() as int) =~= a);
            assert(s.skip(a.len() + 1int) =~= b);
        },
        Some(i) => {
            assert(s[i] == a[i]);
            let k = find_first(s, c)->0;
            if k < i {
                assert(s[k] == a[k]);
            }
            if k > i {
                assert(s[i] != c);
            }
            assert(s.take(i) =~= a.take(i));
            assert(s.skip(i + 1) =~= a.skip(i + 1) + seq![c] + b);
            lemma_split_all_join(a.skip(i + 1), b, c);
            assert(split_all(s, c) =~= seq![a.take(i)] + (split_all(a.skip(i + 1), c) + split_all(b, c)));
        },
    }
}

/// The rest of `s` after the prefix `p`, where `s` begins with it.
pub open spec fn after_prefix(s: Seq<char>, p: Seq<char>) -> Option<Seq<char>> {
    if p.is_prefix_of(s) {
        Some(s.skip(p.len() as int))
    } else {
        None
    }
}

/// The rest of `s` after the prefix `p` (`str::strip_prefix`).
pub fn strip_prefix(s: &str, p: &str) -> (r: Option<String>)
    ensures
        match after_prefix(s@, p@) {
            Some(t) => (r matches Some(x) && x@ == t),
            None => r is None,
        },
{
    let c = chars_of(s);
    let pc = chars_of(p);
    if has_prefix(&c, &pc) {
        let rest = sub_chars(&c, pc.len(), c.len());
        assert(rest@ =~= c@.skip(pc@.len() as int));
        Some(string_of(&rest))
    } else {
        None
    }
}

} // verus!
