//! The integer decisions of the HMI's item state history method: how the
//! fill of a request is read, which output shapes a request may ask for,
//! and how the time series of several items are lined up.
use crate::decimal::{parse_u32, unsigned_text_value};
use crate::text::{chars_of, find_char, split_once, string_of, sub_chars};
use vstd::prelude::*;

verus! {

/// How the history of a period is filled.
#[derive(PartialEq, Eq, Structural, Copy, Clone, Debug)]
pub enum FillSpec {
    /// this many points evenly over the period (`<n>A`); their spacing is
    /// worked out from the period
    Points(u32),
    /// a point every so many seconds (`<n>S`)
    Seconds(u32),
    /// minutes (`<n>T`)
    Minutes(u32),
    /// hours (`<n>H`)
    Hours(u32),
    /// days (`<n>D`)
    Days(u32),
    /// weeks (`<n>W`)
    Weeks(u32),
}

/// Why a history request was refused.
#[derive(PartialEq, Eq, Structural, Copy, Clone, Debug)]
pub enum HistoryError {
    /// a number of points or a precision is not a number
    InvalidNumber,
    /// too many points (max 10k)
    TooManyPoints,
    /// points can not be less than 2
    TooFewPoints,
    /// the fill is not one that the database services take
    InvalidFill,
    /// only output type list is supported for multiple OIDs
    ListOnlyForMultiple,
    /// fill must be specified for multiple OIDs
    FillRequiredForMultiple,
    /// the database gave a shorter time series than the first item's
    FrameTimesMismatch,
}

/// What `eva_sdk::types::Fill::from_str` reads: a number of at least 1 as
/// `u32::from_str` reads it, then the unit `S`, `T`, `H`, `D` or `W`.
pub open spec fn fill_spec(s: Seq<char>) -> Option<FillSpec> {
    if s.len() < 2 {
        None
    } else {
        match unsigned_text_value(s.drop_last(), u32::MAX as nat) {
            None => None,
            Some(n) => if n == 0 {
                None
            } else {
                let v = n as u32;
                let u = s.last();
                if u == 'S' {
                    Some(FillSpec::Seconds(v))
                } else if u == 'T' {
                    Some(FillSpec::Minutes(v))
                } else if u == 'H' {
                    Some(FillSpec::Hours(v))
                } else if u == 'D' {
                    Some(FillSpec::Days(v))
                } else if u == 'W' {
                    Some(FillSpec::Weeks(v))
                } else {
                    None
                }
            },
        }
    }
}

/// Whether the fill parser takes the text without panicking: it cuts the
/// last byte off, so the text must be empty or end with an ASCII
/// character.
pub open spec fn fill_text_ok(s: Seq<char>) -> bool {
    s.len() == 0 || (s.last() as u32) < 128
}

/// Calls `<eva_sdk::types::Fill as FromStr>::from_str` and converts the
/// fill; the contract states what the parser reads ([`fill_spec`]).
#[verifier::external_body]
fn parse_fill(s: &str) -> (r: Option<FillSpec>)
    requires
        fill_text_ok(s@),
    ensures
        r == fill_spec(s@),
{
    match s.parse::<eva_sdk::types::Fill>() {
        Ok(eva_sdk::types::Fill::Seconds(v)) => Some(FillSpec::Seconds(v)),
        Ok(eva_sdk::types::Fill::Minutes(v)) => Some(FillSpec::Minutes(v)),
        Ok(eva_sdk::types::Fill::Hours(v)) => Some(FillSpec::Hours(v)),
        Ok(eva_sdk::types::Fill::Days(v)) => Some(FillSpec::Days(v)),
        Ok(eva_sdk::types::Fill::Weeks(v)) => Some(FillSpec::Weeks(v)),
        Err(_) => None,
    }
}

/// What a fill part (before any `:`) gives: `<n>A` asks for `n` points,
/// 2 to 10000 of them; anything else is read by the fill parser.
pub open spec fn fill_part_spec(f: Seq<char>) -> Result<FillSpec, HistoryError> {
    if f.len() > 0 && f.last() == 'A' {
        match unsigned_text_value(f.drop_last(), u32::MAX as nat) {
            None => Err(HistoryError::InvalidNumber),
            Some(n) => if n > 10000 {
                Err(HistoryError::TooManyPoints)
            } else if n < 2 {
                Err(HistoryError::TooFewPoints)
            } else {
                Ok(FillSpec::Points(n as u32))
            },
        }
    } else {
        match fill_spec(f) {
            Some(x) => Ok(x),
            None => Err(HistoryError::InvalidFill),
        }
    }
}

/// A fill request `fill[:precision]`: the fill, then the precision as a
/// `u32`; the fill is read first.
pub open spec fn history_fill_spec(s: Seq<char>) -> Result<(FillSpec, Option<u32>), HistoryError> {
    let (f, p) = split_once(s, ':');
    match fill_part_spec(f) {
        Err(e) => Err(e),
        Ok(x) => match p {
            None => Ok((x, None)),
            Some(t) => match unsigned_text_value(t, u32::MAX as nat) {
                None => Err(HistoryError::InvalidNumber),
                Some(n) => Ok((x, Some(n as u32))),
            },
        },
    }
}

/// Reads the fill of a history request. The fill parser panics on a fill
/// part that ends with a non-ASCII character, which is left out.
pub fn history_fill(fill: &str) -> (r: Result<(FillSpec, Option<u32>), HistoryError>)
    requires
        fill_text_ok(split_once(fill@, ':').0),
    ensures
        r == history_fill_spec(fill@),
{
    let c = chars_of(fill);
    proof {
        crate::text::lemma_find_first(c@, ':');
    }
    let (f, p) = match find_char(&c, ':') {
        Some(i) => {
            let f = sub_chars(&c, 0, i);
            let p = sub_chars(&c, i + 1, c.len());
            assert(f@ =~= c@.take(i as int));
            assert(p@ =~= c@.skip(i + 1));
            (f, Some(p))
        },
        None => (c, None),
    };
    let fs = string_of(&f);
    let fx = if f.len() > 0 && f[f.len() - 1] == 'A' {
        let x = sub_chars(&f, 0, f.len() - 1);
        assert(x@ =~= f@.drop_last());
        let xs = string_of(&x);
        match parse_u32(xs.as_str()) {
            None => return Err(HistoryError::InvalidNumber),
            Some(n) => {
                if n > 10000 {
                    return Err(HistoryError::TooManyPoints);
                }
                if n < 2 {
                    return Err(HistoryError::TooFewPoints);
                }
                FillSpec::Points(n)
            },
        }
    } else {
        match parse_fill(fs.as_str()) {
            Some(x) => x,
            None => return Err(HistoryError::InvalidFill),
        }
    };
    match p {
        None => Ok((fx, None)),
        Some(pv) => {
            let ps = string_of(&pv);
            match parse_u32(ps.as_str()) {
                None => Err(HistoryError::InvalidNumber),
                Some(n) => Ok((fx, Some(n))),
            }
        },
    }
}

/// Whether the output format suits the request: the dictionary format
/// is for a single item only.
pub fn history_format_ok(multi: bool, dict: bool) -> (r: bool)
    ensures
        r == !(multi && dict),
{
    !(multi && dict)
}

/// The checks of a request for several items: the list format, and a
/// fill, in that order.
pub fn history_multi_check(multi: bool, dict: bool, has_fill: bool) -> (r: Result<(), HistoryError>)
    ensures
        r == (if multi && dict {
            Err(HistoryError::ListOnlyForMultiple)
        } else if multi && !has_fill {
            Err(HistoryError::FillRequiredForMultiple)
        } else {
            Ok(())
        }),
{
    if !history_format_ok(multi, dict) {
        Err(HistoryError::ListOnlyForMultiple)
    } else if multi && !has_fill {
        Err(HistoryError::FillRequiredForMultiple)
    } else {
        Ok(())
    }
}

/// What is done with a further item's time series against the first
/// item's.
#[derive(PartialEq, Eq, Structural, Copy, Clone, Debug)]
pub enum FrameStep {
    /// taken as it is (then compared time by time)
    Keep,
    /// cut to this length, the first series' (a new period began between
    /// the requests)
    Truncate(usize),
    /// refused: the database must give every requested time
    InvalidData,
}

/// Lines a further item's time series of `got_len` times up with the first
/// item's of `first_len`: an empty series is kept as it is.
pub fn reconcile_frame(first_len: usize, got_len: usize) -> (r: FrameStep)
    ensures
        got_len == 0 ==> r == FrameStep::Keep,
        got_len > 0 && first_len > got_len ==> r == FrameStep::InvalidData,
        got_len > 0 && first_len < got_len ==> r == FrameStep::Truncate(first_len),
        got_len > 0 && first_len == got_len ==> r == FrameStep::Keep,
{
    if got_len == 0 {
        FrameStep::Keep
    } else if first_len > got_len {
        FrameStep::InvalidData
    } else if first_len < got_len {
        FrameStep::Truncate(first_len)
    } else {
        FrameStep::Keep
    }
}

} // verus!
