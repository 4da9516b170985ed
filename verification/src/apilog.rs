//! The `WHERE` clause that selects records of the HMI's API call log by the
//! fields a client filters on. Texts are put between single quotes, and a
//! text that holds a single quote is refused.
use crate::decimal::{int_text, push_i64};
use crate::text::{chars_of, has_char, push_str};
use vstd::prelude::*;

verus! {

/// Why a filter was refused.
#[derive(PartialEq, Eq, Structural, Copy, Clone, Debug)]
pub enum SqlError {
    /// a text holds a single quote
    InvalidCharacter,
}

/// A filter over the API call log. The time bounds are given as the
/// decimal text of their timestamps.
pub struct ApiLogFilter {
    pub t_start: Option<String>,
    pub t_end: Option<String>,
    pub user: Option<String>,
    pub acl: Option<String>,
    pub method: Option<String>,
    pub oid: Option<String>,
    pub note: Option<String>,
    pub source: Option<String>,
    pub code: Option<i64>,
    pub success: Option<bool>,
}

pub open spec fn opt_view(o: Option<String>) -> Option<Seq<char>> {
    match o {
        Some(s) => Some(s@),
        None => None,
    }
}

/// `s` between single quotes.
pub open spec fn quoted(s: Seq<char>) -> Seq<char> {
    seq!['\''] + s + seq!['\'']
}

/// Whether a text field of the filter holds a single quote.
pub open spec fn bad_text(o: Option<Seq<char>>) -> bool {
    o matches Some(s) && s.contains('\'')
}

/// ` AND name=value` for a given field.
pub open spec fn clause(name: Seq<char>, value: Option<Seq<char>>) -> Seq<char> {
    match value {
        Some(v) => " AND "@ + name + "="@ + v,
        None => Seq::empty(),
    }
}

pub open spec fn quoted_opt(o: Option<Seq<char>>) -> Option<Seq<char>> {
    match o {
        Some(s) => Some(quoted(s)),
        None => None,
    }
}

/// The condition of a filter, or the refusal of a quote in a text.
pub open spec fn condition_of(f: ApiLogFilter) -> Result<Seq<char>, SqlError> {
    if bad_text(opt_view(f.user)) || bad_text(opt_view(f.acl)) || bad_text(opt_view(f.method))
        || bad_text(opt_view(f.oid)) || bad_text(opt_view(f.note)) || bad_text(opt_view(f.source)) {
        Err(SqlError::InvalidCharacter)
    } else {
        Ok("WHERE 1"@
            + clause("t>"@, opt_view(f.t_start))
            + clause("t<"@, opt_view(f.t_end))
            + clause("login"@, quoted_opt(opt_view(f.user)))
            + clause("acl"@, quoted_opt(opt_view(f.acl)))
            + clause("method"@, quoted_opt(opt_view(f.method)))
            + clause("oid"@, quoted_opt(opt_view(f.oid)))
            + clause("note"@, quoted_opt(opt_view(f.note)))
            + clause("source"@, quoted_opt(opt_view(f.source)))
            + match f.code {
            Some(c) => " AND code="@ + int_text(c as int),
            None => Seq::empty(),
        } + match f.success {
            Some(true) => " AND code=0"@,
            Some(false) => " AND code!=0"@,
            None => Seq::empty(),
        })
    }
}

/// `s` between single quotes; refused where `s` holds one.
pub fn quoted_sql_str(s: &str) -> (r: Result<String, SqlError>)
    ensures
        s@.contains('\'') ==> r == Err::<String, SqlError>(SqlError::InvalidCharacter),
        !s@.contains('\'') ==> (r matches Ok(q) && q@ == quoted(s@)),
{
    let c = chars_of(s);
    if has_char(&c, '\'') {
        return Err(SqlError::InvalidCharacter);
    }
    let mut q = String::new();
    crate::text::push_char(&mut q, '\'');
    push_str(&mut q, s);
    crate::text::push_char(&mut q, '\'');
    assert(q@ =~= quoted(s@));
    Ok(q)
}

fn push_clause(cond: &mut String, name: &str, value: &Option<String>, quote: bool) -> (r: Result<(), SqlError>)
    ensures
        quote && bad_text(opt_view(*value)) ==> r is Err,
        !(quote && bad_text(opt_view(*value))) ==> r is Ok && final(cond)@ == old(cond)@ + clause(
            name@,
            if quote {
                quoted_opt(opt_view(*value))
            } else {
                opt_view(*value)
            },
        ),
{
    match value {
        None => {
            assert(final(cond)@ =~= old(cond)@ + Seq::<char>::empty());
            Ok(())
        },
        Some(v) => {
            let text = if quote {
                match quoted_sql_str(v.as_str()) {
                    Ok(q) => q,
                    Err(e) => {
                        return Err(e);
                    },
                }
            } else {
                v.clone()
            };
            push_str(cond, " AND ");
            push_str(cond, name);
            push_str(cond, "=");
            push_str(cond, text.as_str());
            assert(final(cond)@ =~= old(cond)@ + (" AND "@ + name@ + "="@ + text@));
            Ok(())
        },
    }
}

impl ApiLogFilter {
    /// The `WHERE` clause that selects the records the filter matches.
    pub fn condition(&self) -> (r: Result<String, SqlError>)
        ensures
            match condition_of(*self) {
                Ok(c) => r matches Ok(rc) && rc@ == c,
                Err(e) => r == Err::<String, SqlError>(e),
            },
    {
        let mut cond = "WHERE 1".to_string();
        let ghost c0 = cond@;
        if push_clause(&mut cond, "t>", &self.t_start, false).is_err() {
            return Err(SqlError::InvalidCharacter);
        }
        if push_clause(&mut cond, "t<", &self.t_end, false).is_err() {
            return Err(SqlError::InvalidCharacter);
        }
        if push_clause(&mut cond, "login", &self.user, true).is_err() {
            return Err(SqlError::InvalidCharacter);
        }
        if push_clause(&mut cond, "acl", &self.acl, true).is_err() {
            return Err(SqlError::InvalidCharacter);
        }
        if push_clause(&mut cond, "method", &self.method, true).is_err() {
            return Err(SqlError::InvalidCharacter);
        }
        if push_clause(&mut cond, "oid", &self.oid, true).is_err() {
            return Err(SqlError::InvalidCharacter);
        }
        if push_clause(&mut cond, "note", &self.note, true).is_err() {
            return Err(SqlError::InvalidCharacter);
        }
        if push_clause(&mut cond, "source", &self.source, true).is_err() {
            return Err(SqlError::InvalidCharacter);
        }
        let ghost before_code = cond@;
        match self.code {
            Some(c) => {
                push_str(&mut cond, " AND code=");
                push_i64(&mut cond, c);
            },
            None => {},
        }
        let ghost before_success = cond@;
        match self.success {
            Some(true) => push_str(&mut cond, " AND code=0"),
            Some(false) => push_str(&mut cond, " AND code!=0"),
            None => {},
        }
        proof {
            reveal_strlit("WHERE 1");
        }
        assert(cond@ =~= condition_of(*self)->Ok_0);
        Ok(cond)
    }
}

/// A filter is refused exactly when one of its texts holds a single quote,
/// so no accepted condition carries a quote of the client's.
pub proof fn law_refused_iff_quote(f: ApiLogFilter)
    ensures
        condition_of(f) is Err <==> (bad_text(opt_view(f.user)) || bad_text(opt_view(f.acl))
            || bad_text(opt_view(f.method)) || bad_text(opt_view(f.oid)) || bad_text(opt_view(f.note))
            || bad_text(opt_view(f.source))),
{
}

} // verus!
