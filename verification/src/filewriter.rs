//! The file writer service: the lines it writes for item states, the repair
//! of a broken last line, the suppression of duplicate lines and the choice
//! made on rotation.
use crate::decimal::{int_text, push_i64};
use crate::text::{chars_of, has_char, push_char, push_str};
use vstd::prelude::*;
use vstd::string::StringSliceAdditionalSpecFns;
use vstd::utf8::encode_utf8;

verus! {

/// The format of an output file.
#[derive(PartialEq, Eq, Structural, Debug, Clone, Copy)]
pub enum DataFormat {
    Json,
    Csv,
}

/// A column of an output line.
#[allow(non_camel_case_types, clippy::upper_case_acronyms)]
#[derive(PartialEq, Eq, Structural, Debug, Clone, Copy)]
pub enum FieldKind {
    OID,
    Type,
    Group,
    Id,
    Timestamp,
    Time,
    Status,
    Value,
}

/// The columns used where none are configured.
pub open spec fn spec_default_fields(format: DataFormat) -> Seq<FieldKind> {
    match format {
        DataFormat::Json => seq![FieldKind::OID, FieldKind::Timestamp, FieldKind::Status, FieldKind::Value],
        DataFormat::Csv => seq![
            FieldKind::OID,
            FieldKind::Type,
            FieldKind::Group,
            FieldKind::Id,
            FieldKind::Timestamp,
            FieldKind::Time,
            FieldKind::Status,
            FieldKind::Value,
        ],
    }
}

/// The columns used where none are configured.
pub fn default_fields(format: DataFormat) -> (r: Vec<FieldKind>)
    ensures
        r@ == spec_default_fields(format),
{
    let mut v: Vec<FieldKind> = Vec::new();
    match format {
        DataFormat::Json => {
            v.push(FieldKind::OID);
            v.push(FieldKind::Timestamp);
            v.push(FieldKind::Status);
            v.push(FieldKind::Value);
        },
        DataFormat::Csv => {
            v.push(FieldKind::OID);
            v.push(FieldKind::Type);
            v.push(FieldKind::Group);
            v.push(FieldKind::Id);
            v.push(FieldKind::Timestamp);
            v.push(FieldKind::Time);
            v.push(FieldKind::Status);
            v.push(FieldKind::Value);
        },
    }
    assert(v@ =~= spec_default_fields(format));
    v
}

/// The name of a column: lowercase JSON keys, capitalized CSV headers.
pub open spec fn spec_field_name(f: FieldKind, format: DataFormat) -> Seq<char> {
    match format {
        DataFormat::Json => match f {
            FieldKind::OID => seq!['o', 'i', 'd'],
            FieldKind::Type => seq!['t', 'y', 'p', 'e'],
            FieldKind::Group => seq!['g', 'r', 'o', 'u', 'p'],
            FieldKind::Id => seq!['i', 'd'],
            FieldKind::Timestamp => seq!['t'],
            FieldKind::Time => seq!['d', 't'],
            FieldKind::Status => seq!['s', 't', 'a', 't', 'u', 's'],
            FieldKind::Value => seq!['v', 'a', 'l', 'u', 'e'],
        },
        DataFormat::Csv => match f {
            FieldKind::OID => seq!['O', 'I', 'D'],
            FieldKind::Type => seq!['T', 'y', 'p', 'e'],
            FieldKind::Group => seq!['G', 'r', 'o', 'u', 'p'],
            FieldKind::Id => seq!['I', 'd'],
            FieldKind::Timestamp => seq!['T', 'i', 'm', 'e', 's', 't', 'a', 'm', 'p'],
            FieldKind::Time => seq!['T', 'i', 'm', 'e'],
            FieldKind::Status => seq!['S', 't', 'a', 't', 'u', 's'],
            FieldKind::Value => seq!['V', 'a', 'l', 'u', 'e'],
        },
    }
}

impl FieldKind {
    /// The name of the column in the given format.
    pub fn default_name(self, format: DataFormat) -> (r: &'static str)
        ensures
            r@ == spec_field_name(self, format),
    {
        match format {
            DataFormat::Json => match self {
                FieldKind::OID => {
                    proof {
                        reveal_strlit("oid");
                    }
                    "oid"
                },
                FieldKind::Type => {
                    proof {
                        reveal_strlit("type");
                    }
                    "type"
                },
                FieldKind::Group => {
                    proof {
                        reveal_strlit("group");
                    }
                    "group"
                },
                FieldKind::Id => {
                    proof {
                        reveal_strlit("id");
                    }
                    "id"
                },
                FieldKind::Timestamp => {
                    proof {
                        reveal_strlit("t");
                    }
                    "t"
                },
                FieldKind::Time => {
                    proof {
                        reveal_strlit("dt");
                    }
                    "dt"
                },
                FieldKind::Status => {
                    proof {
                        reveal_strlit("status");
                    }
                    "status"
                },
                FieldKind::Value => {
                    proof {
                        reveal_strlit("value");
                    }
                    "value"
                },
            },
            DataFormat::Csv => match self {
                FieldKind::OID => {
                    proof {
                        reveal_strlit("OID");
                    }
                    "OID"
                },
                FieldKind::Type => {
                    proof {
                        reveal_strlit("Type");
                    }
                    "Type"
                },
                FieldKind::Group => {
                    proof {
                        reveal_strlit("Group");
                    }
                    "Group"
                },
                FieldKind::Id => {
                    proof {
                        reveal_strlit("Id");
                    }
                    "Id"
                },
                FieldKind::Timestamp => {
                    proof {
                        reveal_strlit("Timestamp");
                    }
                    "Timestamp"
                },
                FieldKind::Time => {
                    proof {
                        reveal_strlit("Time");
                    }
                    "Time"
                },
                FieldKind::Status => {
                    proof {
                        reveal_strlit("Status");
                    }
                    "Status"
                },
                FieldKind::Value => {
                    proof {
                        reveal_strlit("Value");
                    }
                    "Value"
                },
            },
        }
    }
}

/// Whether a character makes a CSV cell need quoting.
pub open spec fn csv_special(c: char) -> bool {
    c == ',' || c == '\r' || c == '\n' || c == '"'
}

/// The text with every `"` doubled.
pub open spec fn double_quotes(s: Seq<char>) -> Seq<char>
    decreases s.len(),
{
    if s.len() == 0 {
        Seq::empty()
    } else {
        double_quotes(s.drop_last()) + if s.last() == '"' {
            seq!['"', '"']
        } else {
            seq![s.last()]
        }
    }
}

/// A CSV cell of a text: quotes doubled, and the whole put in quotes where
/// it holds a comma, a line break or a quote.
pub open spec fn spec_escape_csv(s: Seq<char>) -> Seq<char> {
    let d = double_quotes(s);
    if exists|i: int| 0 <= i < d.len() && csv_special(#[trigger] d[i]) {
        seq!['"'] + d + seq!['"']
    } else {
        d
    }
}

proof fn lemma_double_quotes(s: Seq<char>)
    ensures
        forall|c: char| #[trigger] double_quotes(s).contains(c) <==> s.contains(c),
        !s.contains('"') ==> double_quotes(s) == s,
    decreases s.len(),
{
    if s.len() > 0 {
        let p = s.drop_last();
        lemma_double_quotes(p);
        let dp = double_quotes(p);
        let tail = if s.last() == '"' { seq!['"', '"'] } else { seq![s.last()] };
        let d = dp + tail;
        assert(double_quotes(s) == d);
        assert forall|c: char| #[trigger] d.contains(c) <==> s.contains(c) by {
            if d.contains(c) {
                let k = choose|k: int| 0 <= k < d.len() && d[k] == c;
                if k < dp.len() {
                    assert(dp[k] == c);
                    assert(dp.contains(c));
                    let m = choose|m: int| 0 <= m < p.len() && p[m] == c;
                    assert(s[m] == c);
                } else {
                    assert(d[k] == tail[k - dp.len()]);
                    assert(c == s.last());
                    assert(s[s.len() - 1] == c);
                }
            }
            if s.contains(c) {
                let m = choose|m: int| 0 <= m < s.len() && s[m] == c;
                if m < s.len() - 1 {
                    assert(p[m] == c);
                    assert(p.contains(c));
                    assert(dp.contains(c));
                    let k = choose|k: int| 0 <= k < dp.len() && dp[k] == c;
                    assert(d[k] == c);
                } else {
                    assert(c == s.last());
                    assert(d[dp.len() as int] == tail[0]);
                    assert(d[dp.len() as int] == c);
                }
            }
        }
        if !s.contains('"') {
            assert(!p.contains('"')) by {
                if p.contains('"') {
                    let m = choose|m: int| 0 <= m < p.len() && p[m] == '"';
                    assert(s[m] == '"');
                }
            }
            assert(s.last() != '"') by {
                assert(s[s.len() - 1] == s.last());
            }
            assert(d =~= s);
        }
    }
}

/// A CSV cell keeps a row on one line and its cells apart: a text that
/// holds a comma, a carriage return, a line feed or a quote comes out
/// between quotes, and any other text comes out as it is.
pub proof fn law_csv_quotes_special_text(s: Seq<char>)
    ensures
        (s.contains(',') || s.contains('\r') || s.contains('\n') || s.contains('"')) ==> ({
            let r = spec_escape_csv(s);
            r.len() >= 2 && r[0] == '"' && r[r.len() - 1] == '"'
        }),
        !(s.contains(',') || s.contains('\r') || s.contains('\n') || s.contains('"'))
            ==> spec_escape_csv(s) == s,
{
    lemma_double_quotes(s);
    let d = double_quotes(s);
    let special = exists|i: int| 0 <= i < d.len() && csv_special(#[trigger] d[i]);
    if s.contains(',') || s.contains('\r') || s.contains('\n') || s.contains('"') {
        let c = if s.contains(',') {
            ','
        } else if s.contains('\r') {
            '\r'
        } else if s.contains('\n') {
            '\n'
        } else {
            '"'
        };
        assert(d.contains(c));
        let k = choose|k: int| 0 <= k < d.len() && d[k] == c;
        assert(csv_special(d[k]));
        assert(special);
    } else {
        assert(!special) by {
            if special {
                let k = choose|k: int| 0 <= k < d.len() && csv_special(#[trigger] d[k]);
                assert(d.contains(d[k]));
            }
        }
    }
}

/// The CSV cell of a text.
pub fn escape_csv(s: &str) -> (r: String)
    ensures
        r@ == spec_escape_csv(s@),
{
    let c = chars_of(s);
    let mut d = String::new();
    let mut special = false;
    let mut i: usize = 0;
    while i < c.len()
        invariant
            i <= c.len(),
            c@ == s@,
            d@ == double_quotes(c@.take(i as int)),
            special == exists|k: int| 0 <= k < d@.len() && csv_special(#[trigger] d@[k]),
        decreases c.len() - i,
    {
        let ch = c[i];
        let ghost before = d@;
        assert(c@.take(i + 1).drop_last() =~= c@.take(i as int));
        if ch == '"' {
            push_char(&mut d, '"');
            push_char(&mut d, '"');
            special = true;
            assert(csv_special(d@[d@.len() - 1]));
        } else {
            push_char(&mut d, ch);
            proof {
                if csv_special(ch) {
                    assert(csv_special(d@[d@.len() - 1]));
                }
                if special {
                    let k = choose|k: int| 0 <= k < before.len() && csv_special(#[trigger] before[k]);
                    assert(d@[k] == before[k]);
                }
                if !special && !csv_special(ch) {
                    assert forall|k: int| 0 <= k < d@.len() implies !csv_special(#[trigger] d@[k]) by {
                        if k < before.len() {
                            assert(d@[k] == before[k]);
                        }
                    }
                }
            }
            if ch == ',' || ch == '\r' || ch == '\n' {
                special = true;
            }
        }
        proof {
            if ch == '"' {
                let k = d@.len() - 1;
                assert(csv_special(d@[k]));
            }
        }
        i = i + 1;
    }
    assert(c@.take(i as int) =~= s@);
    if special {
        let mut r = String::new();
        push_char(&mut r, '"');
        push_str(&mut r, d.as_str());
        push_char(&mut r, '"');
        assert(r@ =~= seq!['"'] + d@ + seq!['"']);
        r
    } else {
        d
    }
}


/// An item state as the columns of a line read it: the OID text, its kind,
/// group and id, the set time as a number and as a date, the status and the
/// value text.
pub struct StateText {
    pub oid: String,
    pub kind: String,
    pub group: Option<String>,
    pub id: String,
    pub timestamp: String,
    pub time: String,
    pub status: i16,
    pub value: Option<String>,
}

/// The CSV text of one column of a state; an absent group or value gives an
/// empty cell.
pub open spec fn csv_cell(f: FieldKind, st: StateText) -> Seq<char> {
    match f {
        FieldKind::OID => st.oid@,
        FieldKind::Type => st.kind@,
        FieldKind::Group => match st.group {
            Some(g) => g@,
            None => Seq::empty(),
        },
        FieldKind::Id => st.id@,
        FieldKind::Timestamp => st.timestamp@,
        FieldKind::Time => st.time@,
        FieldKind::Status => int_text(st.status as int),
        FieldKind::Value => match st.value {
            Some(v) => spec_escape_csv(v@),
            None => Seq::empty(),
        },
    }
}

/// The CSV text of the columns of a state: each cell is preceded by a comma
/// unless the text so far is empty.
pub open spec fn csv_text(fields: Seq<FieldKind>, st: StateText) -> Seq<char>
    decreases fields.len(),
{
    if fields.len() == 0 {
        Seq::empty()
    } else {
        let acc = csv_text(fields.drop_last(), st);
        let sep = if acc.len() > 0 {
            acc + seq![',']
        } else {
            acc
        };
        sep + csv_cell(fields.last(), st)
    }
}

/// The column names joined by commas.
pub open spec fn header_text(fields: Seq<FieldKind>, format: DataFormat) -> Seq<char>
    decreases fields.len(),
{
    if fields.len() == 0 {
        Seq::empty()
    } else if fields.len() == 1 {
        spec_field_name(fields[0], format)
    } else {
        header_text(fields.drop_last(), format) + seq![','] + spec_field_name(fields.last(), format)
    }
}

/// A text ended as a line: `\r\n` where DOS line ends are used, else `\n`.
pub open spec fn line_text(s: Seq<char>, dos_cr: bool) -> Seq<char> {
    if dos_cr {
        s + seq!['\r', '\n']
    } else {
        s + seq!['\n']
    }
}

/// The JSON keys in their sorted order, with their columns.
pub open spec fn json_key_order() -> Seq<FieldKind> {
    seq![
        FieldKind::Time,
        FieldKind::Group,
        FieldKind::Id,
        FieldKind::OID,
        FieldKind::Status,
        FieldKind::Timestamp,
        FieldKind::Type,
        FieldKind::Value,
    ]
}

/// The generator of output lines.
pub struct DataGen {
    pub format: DataFormat,
    pub dos_cr: bool,
    pub fields: Vec<FieldKind>,
}

fn cell_into(s: &mut String, f: FieldKind, st: &StateText)
    ensures
        final(s)@ == old(s)@ + csv_cell(f, *st),
{
    match f {
        FieldKind::OID => push_str(s, st.oid.as_str()),
        FieldKind::Type => push_str(s, st.kind.as_str()),
        FieldKind::Group => match &st.group {
            Some(g) => push_str(s, g.as_str()),
            None => {
                assert(s@ =~= old(s)@ + Seq::<char>::empty());
            },
        },
        FieldKind::Id => push_str(s, st.id.as_str()),
        FieldKind::Timestamp => push_str(s, st.timestamp.as_str()),
        FieldKind::Time => push_str(s, st.time.as_str()),
        FieldKind::Status => push_i64(s, st.status as i64),
        FieldKind::Value => match &st.value {
            Some(v) => {
                let e = escape_csv(v.as_str());
                push_str(s, e.as_str());
            },
            None => {
                assert(s@ =~= old(s)@ + Seq::<char>::empty());
            },
        },
    }
}

fn line_bytes(s: String, dos_cr: bool) -> (r: Vec<u8>)
    ensures
        r@ == encode_utf8(line_text(s@, dos_cr)),
{
    let ghost s0 = s@;
    let mut s = s;
    if dos_cr {
        push_char(&mut s, '\r');
    }
    push_char(&mut s, '\n');
    assert(s@ =~= line_text(s0, dos_cr));
    let b = s.as_str().as_bytes();
    vstd::slice::slice_to_vec(b)
}

impl DataGen {
    /// A generator; without configured columns the default ones are used.
    pub fn new(format: DataFormat, dos_cr: bool, fields: Option<Vec<FieldKind>>) -> (r: DataGen)
        ensures
            r.format == format,
            r.dos_cr == dos_cr,
            r.fields@ == match fields {
                Some(f) => f@,
                None => spec_default_fields(format),
            },
    {
        let fields = match fields {
            Some(f) => f,
            None => default_fields(format),
        };
        DataGen { format, dos_cr, fields }
    }

    /// The text made a line, as bytes.
    pub fn prepare(&self, s: String) -> (r: Vec<u8>)
        ensures
            r@ == encode_utf8(line_text(s@, self.dos_cr)),
    {
        line_bytes(s, self.dos_cr)
    }

    /// The header line of a new file: the column names for CSV, none for
    /// JSON.
    pub fn header(&self) -> (r: Option<Vec<u8>>)
        ensures
            self.format == DataFormat::Json ==> r is None,
            self.format == DataFormat::Csv ==> (r matches Some(h) && h@ == encode_utf8(
                line_text(header_text(self.fields@, DataFormat::Csv), self.dos_cr),
            )),
    {
        match self.format {
            DataFormat::Json => None,
            DataFormat::Csv => {
                let mut s = String::new();
                let mut i: usize = 0;
                assert(self.fields@.take(0) =~= Seq::<FieldKind>::empty());
                while i < self.fields.len()
                    invariant
                        i <= self.fields.len(),
                        s@ == header_text(self.fields@.take(i as int), DataFormat::Csv),
                    decreases self.fields.len() - i,
                {
                    let ghost t = self.fields@.take(i + 1);
                    assert(t.drop_last() =~= self.fields@.take(i as int));
                    if i > 0 {
                        push_char(&mut s, ',');
                    }
                    let name = self.fields[i].default_name(DataFormat::Csv);
                    push_str(&mut s, name);
                    proof {
                        if i == 0 {
                            assert(s@ =~= header_text(t, DataFormat::Csv));
                        } else {
                            assert(s@ =~= header_text(t, DataFormat::Csv));
                        }
                    }
                    i = i + 1;
                }
                assert(self.fields@.take(i as int) =~= self.fields@);
                Some(line_bytes(s, self.dos_cr))
            },
        }
    }

    /// The CSV line of a state.
    pub fn csv_line(&self, st: &StateText) -> (r: Vec<u8>)
        ensures
            r@ == encode_utf8(line_text(csv_text(self.fields@, *st), self.dos_cr)),
    {
        let mut s = String::new();
        let mut i: usize = 0;
        assert(self.fields@.take(0) =~= Seq::<FieldKind>::empty());
        while i < self.fields.len()
            invariant
                i <= self.fields.len(),
                s@ == csv_text(self.fields@.take(i as int), *st),
            decreases self.fields.len() - i,
        {
            let ghost t = self.fields@.take(i + 1);
            assert(t.drop_last() =~= self.fields@.take(i as int));
            if s.as_str().unicode_len() > 0 {
                push_char(&mut s, ',');
            }
            cell_into(&mut s, self.fields[i], st);
            i = i + 1;
        }
        assert(self.fields@.take(i as int) =~= self.fields@);
        line_bytes(s, self.dos_cr)
    }

    /// The columns of a JSON line in the order of their keys, each once.
    pub fn json_fields(&self) -> (r: Vec<FieldKind>)
        ensures
            r@ == json_key_order().filter(|f: FieldKind| self.fields@.contains(f)),
    {
        let order = [
            FieldKind::Time,
            FieldKind::Group,
            FieldKind::Id,
            FieldKind::OID,
            FieldKind::Status,
            FieldKind::Timestamp,
            FieldKind::Type,
            FieldKind::Value,
        ];
        let ghost ko = json_key_order();
        assert(order@ =~= ko);
        let mut r: Vec<FieldKind> = Vec::new();
        let mut k: usize = 0;
        assert(ko.take(0).filter(|f: FieldKind| self.fields@.contains(f)) =~= Seq::<FieldKind>::empty());
        while k < 8
            invariant
                k <= 8,
                order@ == ko,
                ko.len() == 8,
                r@ == ko.take(k as int).filter(|f: FieldKind| self.fields@.contains(f)),
            decreases 8 - k,
        {
            let f = order[k];
            let mut found = false;
            let mut j: usize = 0;
            while j < self.fields.len()
                invariant
                    j <= self.fields.len(),
                    found == exists|x: int| 0 <= x < j && self.fields@[x] == f,
                decreases self.fields.len() - j,
            {
                if self.fields[j] == f {
                    found = true;
                }
                j = j + 1;
            }
            let ghost t = ko.take(k + 1);
            assert(t.drop_last() =~= ko.take(k as int));
            assert(t.last() == f);
            reveal_with_fuel(Seq::filter, 1);
            if found {
                r.push(f);
            }
            proof {
                if !found {
                    assert(!self.fields@.contains(f));
                }
            }
            k = k + 1;
        }
        assert(ko.take(8) =~= ko);
        r
    }
}


/// A step of cutting off the last, broken line of a file.
#[derive(PartialEq, Eq, Structural, Debug, Clone, Copy)]
pub enum TruncateStep {
    /// cut the file to this length; done
    SetLen(u64),
    /// read the byte at this position and go on
    ReadAt(u64),
}

/// The length to which a file is cut when its last line is removed: just
/// past the last line feed found between position 1 and the byte before the
/// last (the first byte is never looked at), or 0 where there is none.
pub open spec fn truncated_len(c: Seq<u8>) -> int {
    if c.len() < 2 {
        0
    } else {
        cut_point(c, c.len() - 2)
    }
}

/// Just past the last line feed at a position in `1..=j`, or 0.
pub open spec fn cut_point(c: Seq<u8>, j: int) -> int
    decreases j,
{
    if j < 1 {
        0
    } else if c[j] == 10 {
        j + 1
    } else {
        cut_point(c, j - 1)
    }
}

/// Whether a file of this content is broken (does not end a line), and if
/// so the length to cut it to.
pub open spec fn repaired_len(c: Seq<u8>) -> Option<int> {
    if c.len() > 0 && c[c.len() - 1] != 10 {
        Some(truncated_len(c))
    } else {
        None
    }
}

/// The first step of cutting off the last line of a file of `len` bytes.
pub open spec fn spec_truncate_start(len: u64) -> TruncateStep {
    if len < 2 {
        TruncateStep::SetLen(0)
    } else {
        TruncateStep::ReadAt((len - 2) as u64)
    }
}

/// The step after reading `byte` at position `at`.
pub open spec fn spec_truncate_next(at: u64, byte: u8) -> TruncateStep {
    if byte == 10 {
        TruncateStep::SetLen((at + 1) as u64)
    } else if at < 2 {
        TruncateStep::SetLen(0)
    } else {
        TruncateStep::ReadAt((at - 1) as u64)
    }
}

/// The first step of cutting off the last line of a file of `len` bytes.
pub fn truncate_start(len: u64) -> (r: TruncateStep)
    ensures
        r == spec_truncate_start(len),
{
    if len < 2 {
        TruncateStep::SetLen(0)
    } else {
        TruncateStep::ReadAt(len - 2)
    }
}

/// The step after reading `byte` at position `at` of the file.
pub fn truncate_next(at: u64, byte: u8) -> (r: TruncateStep)
    requires
        at < u64::MAX,
    ensures
        r == spec_truncate_next(at, byte),
{
    if byte == 10 {
        TruncateStep::SetLen(at + 1)
    } else if at < 2 {
        TruncateStep::SetLen(0)
    } else {
        TruncateStep::ReadAt(at - 1)
    }
}

/// The steps, read against the file's bytes, end in the length given by
/// [`truncated_len`]: the first step reads the byte before the last or cuts
/// a short file to nothing, and each later step either ends at the cut
/// point or goes on to a position with the same cut point.
pub proof fn law_truncate_steps(c: Seq<u8>, at: u64)
    requires
        c.len() <= u64::MAX,
        1 <= at < c.len(),
    ensures
        match spec_truncate_start(c.len() as u64) {
            TruncateStep::SetLen(n) => n == truncated_len(c),
            TruncateStep::ReadAt(k) => cut_point(c, k as int) == truncated_len(c),
        },
        match spec_truncate_next(at, c[at as int]) {
            TruncateStep::SetLen(n) => n == cut_point(c, at as int),
            TruncateStep::ReadAt(k) => k == at - 1 && k >= 1 && cut_point(c, k as int) == cut_point(
                c,
                at as int,
            ),
        },
{
    if c[at as int] != 10 && at < 2 {
        assert(cut_point(c, at as int) == cut_point(c, at - 1));
        assert(cut_point(c, at - 1) == 0);
    }
}

/// The length to cut a file of this content to when its last line is
/// removed.
pub fn truncated_length(c: &Vec<u8>) -> (r: u64)
    requires
        c.len() <= u64::MAX,
    ensures
        r == truncated_len(c@),
{
    if c.len() < 2 {
        return 0;
    }
    let mut j: usize = c.len() - 2;
    while j >= 1
        invariant
            1 <= c.len(),
            j < c.len(),
            c.len() <= u64::MAX,
            cut_point(c@, j as int) == truncated_len(c@),
        decreases j,
    {
        if c[j] == 10 {
            return (j + 1) as u64;
        }
        j = j - 1;
    }
    0
}

/// The length to cut a broken file to, or `None` where it ends a line.
pub fn repair_length(c: &Vec<u8>) -> (r: Option<u64>)
    requires
        c.len() <= u64::MAX,
    ensures
        match repaired_len(c@) {
            Some(n) => r == Some(n as u64),
            None => r is None,
        },
{
    if c.len() > 0 && c[c.len() - 1] != 10 {
        Some(truncated_length(c))
    } else {
        None
    }
}

/// Whether the base path of the output file is a time pattern (holds `%`).
pub fn is_path_pattern(base: &str) -> (r: bool)
    ensures
        r == base@.contains('%'),
{
    let c = chars_of(base);
    has_char(&c, '%')
}

/// What a rotation does with the current output file.
#[derive(PartialEq, Eq, Structural, Debug, Clone, Copy)]
pub enum RotationPlan {
    /// rename it to the rotated-path pattern, then write to a new file
    /// named by the base pattern
    RenameToRotated,
    /// only start writing to a new file named by the base pattern
    NewFromPattern,
    /// rename it to its own name with the opening time appended
    RenameWithTimeSuffix,
}

/// What a rotation does: with a rotated path the file is renamed to it;
/// without one, a patterned base path only starts a new file, and a plain
/// one is renamed with the opening time appended.
pub fn rotation_plan(base: &str, rotated: Option<&str>) -> (r: RotationPlan)
    ensures
        rotated is Some ==> r == RotationPlan::RenameToRotated,
        rotated is None && base@.contains('%') ==> r == RotationPlan::NewFromPattern,
        rotated is None && !base@.contains('%') ==> r == RotationPlan::RenameWithTimeSuffix,
{
    if rotated.is_some() {
        RotationPlan::RenameToRotated
    } else if is_path_pattern(base) {
        RotationPlan::NewFromPattern
    } else {
        RotationPlan::RenameWithTimeSuffix
    }
}

/// The SHA-256 digest of a byte string.
pub uninterp spec fn sha256(data: Seq<u8>) -> Seq<u8>;

/// Calls `openssl::sha::Sha256` (`update` then `finish`): the SHA-256
/// digest of the bytes, which is 32 bytes long; the contract names it
/// [`sha256`].
#[verifier::external_body]
pub(crate) fn sha256_digest(data: &[u8]) -> (r: Vec<u8>)
    ensures
        r@ == sha256(data@),
        r@.len() == 32,
{
    let mut hasher = openssl::sha::Sha256::new();
    hasher.update(data);
    hasher.finish().to_vec()
}

/// Whether the lines of this checksum are in the entries.
pub open spec fn has_line(entries: Seq<(Seq<u8>, u64)>, sum: Seq<u8>) -> bool {
    exists|i: int| 0 <= i < entries.len() && #[trigger] entries[i].0 == sum
}

/// How long ago `t` was at `now`; 0 for a time to come.
pub open spec fn elapsed(now: u64, t: u64) -> int {
    if now >= t {
        now - t
    } else {
        0
    }
}

/// The entries seen less than `max_age` ago at `now`.
pub open spec fn fresh_lines(entries: Seq<(Seq<u8>, u64)>, now: u64, max_age: u64) -> Seq<(Seq<u8>, u64)> {
    entries.filter(|e: (Seq<u8>, u64)| elapsed(now, e.1) < max_age)
}

/// The checksums of the lines written lately, each with the time it was
/// first seen.
pub struct LineCache {
    entries: Vec<(Vec<u8>, u64)>,
}

pub open spec fn cache_entries_view(v: Seq<(Vec<u8>, u64)>) -> Seq<(Seq<u8>, u64)> {
    v.map_values(|e: (Vec<u8>, u64)| (e.0@, e.1))
}

impl View for LineCache {
    type V = Seq<(Seq<u8>, u64)>;

    closed spec fn view(&self) -> Seq<(Seq<u8>, u64)> {
        cache_entries_view(self.entries@)
    }
}

impl LineCache {
    /// An empty cache.
    pub fn new() -> (r: LineCache)
        ensures
            r@ == Seq::<(Seq<u8>, u64)>::empty(),
    {
        let r = LineCache { entries: Vec::new() };
        assert(r@ =~= Seq::<(Seq<u8>, u64)>::empty());
        r
    }

    /// The checksums remembered, each with the time it was first seen.
    pub fn entries(&self) -> (r: &Vec<(Vec<u8>, u64)>)
        ensures
            cache_entries_view(r@) == self@,
    {
        &self.entries
    }

    /// Whether a line of this checksum may be written at `now`: only if it
    /// has not been seen, in which case it is remembered.
    pub fn accept_line(&mut self, sum: Vec<u8>, now: u64) -> (r: bool)
        ensures
            r == !has_line(old(self)@, sum@),
            r ==> final(self)@ == old(self)@.push((sum@, now)),
            !r ==> final(self)@ == old(self)@,
    {
        let mut i: usize = 0;
        while i < self.entries.len()
            invariant
                i <= self.entries.len(),
                self@ == cache_entries_view(self.entries@),
                self@.len() == self.entries@.len(),
                self == old(self),
                forall|k: int| 0 <= k < i ==> #[trigger] self@[k].0 != sum@,
            decreases self.entries.len() - i,
        {
            if crate::token::bytes_eq(&self.entries[i].0, &sum) {
                assert(self@[i as int].0 == sum@);
                return false;
            }
            i = i + 1;
        }
        let ghost before = self.entries@;
        self.entries.push((sum, now));
        assert(self@ =~= old(self)@.push((sum@, now)));
        true
    }

    /// Forgets the checksums seen `max_age` or longer ago.
    pub fn clean(&mut self, now: u64, max_age: u64)
        ensures
            final(self)@ == fresh_lines(old(self)@, now, max_age),
    {
        let mut kept: Vec<(Vec<u8>, u64)> = Vec::new();
        let ghost src = self@;
        let ghost pred = |e: (Seq<u8>, u64)| elapsed(now, e.1) < max_age;
        assert(fresh_lines(src, now, max_age) == src.filter(pred));
        let mut old_entries = Vec::new();
        std::mem::swap(&mut old_entries, &mut self.entries);
        let ghost orig = old_entries@;
        let n = old_entries.len();
        assert(cache_entries_view(orig) == src);
        let mut i: usize = 0;
        assert(src.take(0).filter(pred) =~= cache_entries_view(kept@));
        #[verifier::loop_isolation(false)]
        while old_entries.len() > 0
            invariant
                i + old_entries@.len() == orig.len(),
                orig.len() == n,
                old_entries@ == orig.skip(i as int),
                src == cache_entries_view(orig),
                cache_entries_view(kept@) == src.take(i as int).filter(pred),
            decreases old_entries.len(),
        {
            let e = old_entries.remove(0);
            let ghost t = src.take(i + 1);
            let ghost kv = cache_entries_view(kept@);
            proof {
                assert(t.drop_last() =~= src.take(i as int));
                assert(e == orig[i as int]);
                assert(t.last() == (e.0@, e.1));
                reveal_with_fuel(Seq::filter, 1);
                assert(t.filter(pred) == if pred(t.last()) {
                    t.drop_last().filter(pred).push(t.last())
                } else {
                    t.drop_last().filter(pred)
                });
            }
            if e.1 <= now && now - e.1 < max_age || e.1 > now && 0 < max_age {
                assert(pred(t.last()));
                kept.push(e);
                assert(cache_entries_view(kept@) =~= kv.push((e.0@, e.1)));
            } else {
                assert(!pred(t.last()));
            }
            assert(old_entries@ =~= orig.skip(i + 1));
            i = i + 1;
        }
        assert(src.take(i as int) =~= src);
        self.entries = kept;
    }

    /// Whether a line may be written at `now`: always where lines are not
    /// deduplicated, else only a line whose checksum has not been seen.
    pub fn can_write_line(&mut self, dedup: bool, line: &[u8], now: u64) -> (r: bool)
        ensures
            !dedup ==> r && final(self)@ == old(self)@,
            dedup ==> r == !has_line(old(self)@, sha256(line@)),
            dedup && r ==> final(self)@ == old(self)@.push((sha256(line@), now)),
            dedup && !r ==> final(self)@ == old(self)@,
    {
        if !dedup {
            return true;
        }
        let sum = sha256_digest(line);
        self.accept_line(sum, now)
    }
}

/// A line admitted to the cache is refused when it comes again, until it
/// is cleaned out.
pub proof fn law_line_written_once(entries: Seq<(Seq<u8>, u64)>, sum: Seq<u8>, now: u64)
    requires
        !has_line(entries, sum),
    ensures
        has_line(entries.push((sum, now)), sum),
{
    assert(entries.push((sum, now))[entries.len() as int].0 == sum);
}

/// After cleaning, no line seen `max_age` or longer ago is remembered.
pub proof fn law_clean_forgets_old(entries: Seq<(Seq<u8>, u64)>, now: u64, max_age: u64)
    ensures
        forall|i: int|
            0 <= i < fresh_lines(entries, now, max_age).len() ==> elapsed(
                now,
                #[trigger] fresh_lines(entries, now, max_age)[i].1,
            ) < max_age,
{
    let pred = |e: (Seq<u8>, u64)| elapsed(now, e.1) < max_age;
    let f = fresh_lines(entries, now, max_age);
    assert forall|i: int| 0 <= i < f.len() implies elapsed(now, #[trigger] f[i].1) < max_age by {
        entries.lemma_filter_pred(pred, i);
    }
}

} // verus!
