//! Whether and how an uploaded file is unpacked on a node: an explicit
//! archive kind, or a flag that asks for the kind to be read from the
//! source's file name.
use crate::paths::{file_name, path_file_name};
use crate::text::{chars_of, has_suffix};
use vstd::prelude::*;

verus! {

/// Archive kinds that a node can unpack.
#[derive(PartialEq, Eq, Structural, Copy, Clone, Debug)]
pub enum Extract {
    No,
    Txz,
    Tgz,
    Tbz2,
    Zip,
    Tar,
}

/// The `extract` field of an upload: a flag or an explicit kind.
#[derive(PartialEq, Eq, Structural, Copy, Clone, Debug)]
pub enum ExtractBoolOrStr {
    Bool(bool),
    Extr(Extract),
}

/// Why an extraction request was refused.
#[derive(PartialEq, Eq, Structural, Copy, Clone, Debug)]
pub enum ExtractError {
    /// extraction requested but the source is not specified
    NoSource,
    /// extraction requested but the source has no file name
    UnknownExtension,
    /// extraction requested but the source extension is unsupported
    UnsupportedExtension,
}

/// Whether `name` ends with `ext`.
pub open spec fn ends(name: Seq<char>, ext: Seq<char>) -> bool {
    ext.is_suffix_of(name)
}

/// The archive kind that a file name's extension stands for.
pub open spec fn kind_of_name(name: Seq<char>) -> Option<Extract> {
    if ends(name, ".tgz"@) || ends(name, ".tar.gz"@) {
        Some(Extract::Tgz)
    } else if ends(name, ".tbz"@) || ends(name, ".tar.bz"@) || ends(name, ".tbz2"@) || ends(
        name,
        ".tar.bz2"@,
    ) {
        Some(Extract::Tbz2)
    } else if ends(name, ".txz"@) || ends(name, ".tar.xz"@) {
        Some(Extract::Txz)
    } else if ends(name, ".zip"@) {
        Some(Extract::Zip)
    } else if ends(name, ".tar"@) {
        Some(Extract::Tar)
    } else {
        None
    }
}

/// What normalizing an extraction request gives for a source path.
pub open spec fn normalized(e: ExtractBoolOrStr, src: Option<Seq<char>>) -> Result<ExtractBoolOrStr, ExtractError> {
    match e {
        ExtractBoolOrStr::Extr(_) => Ok(e),
        ExtractBoolOrStr::Bool(false) => Ok(ExtractBoolOrStr::Extr(Extract::No)),
        ExtractBoolOrStr::Bool(true) => match src {
            None => Err(ExtractError::NoSource),
            Some(p) => match path_file_name(p) {
                None => Err(ExtractError::UnknownExtension),
                Some(f) => match kind_of_name(f) {
                    None => Err(ExtractError::UnsupportedExtension),
                    Some(k) => Ok(ExtractBoolOrStr::Extr(k)),
                },
            },
        },
    }
}

fn ends_with(name: &Vec<char>, ext: &str) -> (r: bool)
    ensures
        r == ends(name@, ext@),
{
    let e = chars_of(ext);
    has_suffix(name, &e)
}

fn kind_from_name(name: &Vec<char>) -> (r: Option<Extract>)
    ensures
        r == kind_of_name(name@),
{
    if ends_with(name, ".tgz") || ends_with(name, ".tar.gz") {
        Some(Extract::Tgz)
    } else if ends_with(name, ".tbz") || ends_with(name, ".tar.bz") || ends_with(name, ".tbz2")
        || ends_with(name, ".tar.bz2") {
        Some(Extract::Tbz2)
    } else if ends_with(name, ".txz") || ends_with(name, ".tar.xz") {
        Some(Extract::Txz)
    } else if ends_with(name, ".zip") {
        Some(Extract::Zip)
    } else if ends_with(name, ".tar") {
        Some(Extract::Tar)
    } else {
        None
    }
}

impl Default for ExtractBoolOrStr {
    /// No extraction.
    fn default() -> (r: Self)
        ensures
            r == ExtractBoolOrStr::Bool(false),
    {
        ExtractBoolOrStr::Bool(false)
    }
}

impl ExtractBoolOrStr {
    /// Whether nothing is to be unpacked.
    pub fn is_no(&self) -> (r: bool)
        ensures
            r == (*self == ExtractBoolOrStr::Bool(false) || *self == ExtractBoolOrStr::Extr(
                Extract::No,
            )),
    {
        match self {
            ExtractBoolOrStr::Bool(v) => !*v,
            ExtractBoolOrStr::Extr(x) => match x {
                Extract::No => true,
                _ => false,
            },
        }
    }

    /// Turns a flag into an explicit kind: `false` into no extraction, `true`
    /// into the kind that the source's file name shows; an explicit kind is
    /// kept.
    pub fn normalize(self, src: Option<&str>) -> (r: Result<ExtractBoolOrStr, ExtractError>)
        ensures
            r == normalized(
                self,
                match src {
                    Some(p) => Some(p@),
                    None => None,
                },
            ),
    {
        match self {
            ExtractBoolOrStr::Bool(v) => {
                if v {
                    match src {
                        None => Err(ExtractError::NoSource),
                        Some(s) => match file_name(s) {
                            None => Err(ExtractError::UnknownExtension),
                            Some(f) => {
                                let fc = chars_of(f.as_str());
                                match kind_from_name(&fc) {
                                    None => Err(ExtractError::UnsupportedExtension),
                                    Some(k) => Ok(ExtractBoolOrStr::Extr(k)),
                                }
                            },
                        },
                    }
                } else {
                    Ok(ExtractBoolOrStr::Extr(Extract::No))
                }
            },
            ExtractBoolOrStr::Extr(_) => Ok(self),
        }
    }
}

/// A normalized request is never a flag, and normalizing it again changes
/// nothing.
pub proof fn law_normalize_is_idempotent(e: ExtractBoolOrStr, src: Option<Seq<char>>)
    requires
        normalized(e, src) is Ok,
    ensures
        normalized(e, src)->Ok_0 is Extr,
        normalized(normalized(e, src)->Ok_0, src) == normalized(e, src),
{
}

} // verus!
