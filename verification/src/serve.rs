//! How the HMI serves a file of its web directories: which paths it
//! refuses, when a directory is redirected to, which file of a directory
//! is served, when a file is rendered as a template, the built-in interface
//! files and the documents that can be converted.
use crate::text::{
    after_prefix, chars_of, contains_run, has_prefix, has_substring, has_suffix, push_str, str_eq,
    strip_prefix,
};
use vstd::prelude::*;

verus! {

/// Whether a served path is refused: one that holds `/../` or `/.`.
pub open spec fn path_refused_spec(path: Seq<char>) -> bool {
    contains_run(path, "/../"@) || contains_run(path, "/."@)
}

/// Whether a served path is refused.
pub fn path_refused(path: &str) -> (r: bool)
    ensures
        r == path_refused_spec(path@),
{
    let c = chars_of(path);
    has_substring(&c, &chars_of("/../")) || has_substring(&c, &chars_of("/."))
}

/// The template directories: the interface's, the private area's, or none.
#[derive(PartialEq, Eq, Structural, Copy, Clone, Debug)]
pub enum TplDirKind {
    Ui,
    Pvt,
    No,
}

impl TplDirKind {
    /// Whether templates are rendered from the directory.
    pub fn allowed(self) -> (r: bool)
        ensures
            r == (self != TplDirKind::No),
    {
        match self {
            TplDirKind::No => false,
            _ => true,
        }
    }
}

/// What is done with a path that exists.
pub enum DirStep {
    /// A directory named without a final `/` is redirected to the URI with
    /// one.
    Redirect(String),
    /// A directory whose default document is served: whether `index.j2`
    /// (this path) exists decides which.
    CheckIndex(String),
    /// The file itself, rendered as a template or not.
    File(bool),
}

/// The step for an existing path `file_path`, asked for by `uri`.
pub open spec fn dir_step_spec(
    uri: Seq<char>,
    file_path: Seq<char>,
    is_dir: bool,
    allow_default: bool,
    tpl: TplDirKind,
) -> (int, Seq<char>, bool) {
    if is_dir && !"/"@.is_suffix_of(file_path) {
        (0, uri + "/"@, false)
    } else if is_dir && allow_default {
        (1, file_path + "index.j2"@, false)
    } else {
        (2, Seq::empty(), tpl != TplDirKind::No && ".j2"@.is_suffix_of(file_path))
    }
}

/// A step as values: its kind, its path and whether it renders.
pub open spec fn dir_step_view(s: DirStep) -> (int, Seq<char>, bool) {
    match s {
        DirStep::Redirect(u) => (0, u@, false),
        DirStep::CheckIndex(p) => (1, p@, false),
        DirStep::File(t) => (2, Seq::empty(), t),
    }
}

/// Decides on an existing path.
pub fn dir_step(uri: &str, file_path: &str, is_dir: bool, allow_default: bool, tpl: TplDirKind) -> (r:
    DirStep)
    ensures
        dir_step_view(r) == dir_step_spec(uri@, file_path@, is_dir, allow_default, tpl),
{
    let fp = chars_of(file_path);
    let slash = chars_of("/");
    if is_dir && !has_suffix(&fp, &slash) {
        let mut u = uri.to_string();
        push_str(&mut u, "/");
        return DirStep::Redirect(u);
    }
    if is_dir && allow_default {
        let mut p = file_path.to_string();
        push_str(&mut p, "index.j2");
        return DirStep::CheckIndex(p);
    }
    let j2 = chars_of(".j2");
    DirStep::File(tpl.allowed() && has_suffix(&fp, &j2))
}

/// The default document of a directory: `index.j2`, rendered where the
/// directory renders templates, where it exists; else `index.html`.
pub fn index_choice(file_path: &str, j2_exists: bool, tpl: TplDirKind) -> (r: (String, bool))
    ensures
        j2_exists ==> r.0@ == file_path@ + "index.j2"@ && r.1 == (tpl != TplDirKind::No),
        !j2_exists ==> r.0@ == file_path@ + "index.html"@ && !r.1,
{
    let mut p = file_path.to_string();
    if j2_exists {
        push_str(&mut p, "index.j2");
        (p, tpl.allowed())
    } else {
        push_str(&mut p, "index.html");
        (p, false)
    }
}

/// The built-in interface file served for a missing one, where built-in
/// files are allowed: the index for the empty path, else the path itself.
pub fn default_ui_key(allow: bool, path: &str) -> (r: Option<String>)
    ensures
        !allow ==> r is None,
        allow && path@.len() == 0 ==> (r matches Some(k) && k@ == "index.html"@),
        allow && path@.len() > 0 ==> (r matches Some(k) && k@ == path@),
{
    if !allow {
        return None;
    }
    if path.unicode_len() == 0 {
        Some("index.html".to_string())
    } else {
        Some(path.to_string())
    }
}

/// The kind of a document that is converted before it is served.
#[derive(PartialEq, Eq, Structural, Copy, Clone, Debug)]
pub enum DocKind {
    Json,
    Yaml,
}

/// Why a document cannot be converted.
#[derive(PartialEq, Eq, Structural, Copy, Clone, Debug)]
pub enum DocError {
    /// its type is neither JSON nor YAML
    Unsupported,
    /// its type is not known
    Unknown,
}

/// The kind of a document to convert, by its MIME type.
pub fn document_kind(mime: Option<&str>) -> (r: Result<DocKind, DocError>)
    ensures
        match mime {
            None => r == Err::<DocKind, DocError>(DocError::Unknown),
            Some(m) => if m@ == "application/json"@ {
                r == Ok::<DocKind, DocError>(DocKind::Json)
            } else if m@ == "application/x-yaml"@ {
                r == Ok::<DocKind, DocError>(DocKind::Yaml)
            } else {
                r == Err::<DocKind, DocError>(DocError::Unsupported)
            },
        },
{
    match mime {
        None => Err(DocError::Unknown),
        Some(m) => {
            if str_eq(m, "application/json") {
                Ok(DocKind::Json)
            } else if str_eq(m, "application/x-yaml") {
                Ok(DocKind::Yaml)
            } else {
                Err(DocError::Unsupported)
            }
        },
    }
}

/// Where a GET request goes.
pub enum GetRoute {
    /// Moved permanently to this location.
    Redirect(String),
    /// A file of the interface directory, served as it is: a favicon (with
    /// the built-in one as a fallback) or a file under `/.evahi/`.
    UiPlain(String, bool),
    /// A file of the vendored applications.
    Vendored(String),
    /// A file of the interface, rendered and converted where asked.
    Ui(String),
    /// A private file.
    Pvt(String),
    /// A remote private file.
    Rpvt(String),
    /// A private user-data key.
    PvtKey(String),
    /// A public user-data key.
    PubKey(String),
    /// `/pvt` or `/rpvt` without the `f` parameter.
    BadRequest,
    NotFound,
}

/// A route as values: its kind (the variants' order, from 0), its text and
/// its flag.
pub open spec fn route_view(r: GetRoute) -> (int, Seq<char>, bool) {
    match r {
        GetRoute::Redirect(s) => (0, s@, false),
        GetRoute::UiPlain(s, b) => (1, s@, b),
        GetRoute::Vendored(s) => (2, s@, false),
        GetRoute::Ui(s) => (3, s@, false),
        GetRoute::Pvt(s) => (4, s@, false),
        GetRoute::Rpvt(s) => (5, s@, false),
        GetRoute::PvtKey(s) => (6, s@, false),
        GetRoute::PubKey(s) => (7, s@, false),
        GetRoute::BadRequest => (8, Seq::empty(), false),
        GetRoute::NotFound => (9, Seq::empty(), false),
    }
}

/// The route of a GET request for `uri`, with the query parameter `f`,
/// where the interface and the vendored applications are served when
/// their directories are set.
pub open spec fn get_route_spec(uri: Seq<char>, f: Option<Seq<char>>, ui: bool, va: bool) -> (
    int,
    Seq<char>,
    bool,
) {
    if uri == "/"@ || uri == "/ui"@ {
        (0, "/ui/"@, false)
    } else if (uri == "/va"@ || uri == "/va/"@) && va {
        (0, "/ui/vendored-apps/"@, false)
    } else if after_prefix(uri, "/va/"@) is Some && va {
        (0, "/ui/vendored-apps/"@ + after_prefix(uri, "/va/"@)->0, false)
    } else if uri == "/favicon.ico"@ && ui {
        (1, "favicon.ico"@, true)
    } else if uri != "/favicon.ico"@ && after_prefix(uri, "/.evahi/"@) is Some && ui {
        (1, uri.skip(1), false)
    } else if after_prefix(uri, "/ui/vendored-apps/"@) is Some && va {
        (2, after_prefix(uri, "/ui/vendored-apps/"@)->0, false)
    } else if after_prefix(uri, "/ui/"@) is Some && ui {
        (3, after_prefix(uri, "/ui/"@)->0, false)
    } else if uri == "/pvt"@ {
        match f {
            Some(x) => (4, x, false),
            None => (8, Seq::empty(), false),
        }
    } else if after_prefix(uri, "/pvt/"@) is Some {
        (4, after_prefix(uri, "/pvt/"@)->0, false)
    } else if uri == "/rpvt"@ {
        match f {
            Some(x) => (5, x, false),
            None => (8, Seq::empty(), false),
        }
    } else if after_prefix(uri, "/rpvt/"@) is Some {
        (5, after_prefix(uri, "/rpvt/"@)->0, false)
    } else if after_prefix(uri, "/:pvt/"@) is Some {
        (6, after_prefix(uri, "/:pvt/"@)->0, false)
    } else if after_prefix(uri, "/:pub/"@) is Some {
        (7, after_prefix(uri, "/:pub/"@)->0, false)
    } else {
        (9, Seq::empty(), false)
    }
}

/// Routes a GET request.
pub fn get_route(uri: &str, f: Option<&str>, ui: bool, va: bool) -> (r: GetRoute)
    ensures
        route_view(r) == get_route_spec(
            uri@,
            match f {
                Some(x) => Some(x@),
                None => None,
            },
            ui,
            va,
        ),
{
    if str_eq(uri, "/") || str_eq(uri, "/ui") {
        return GetRoute::Redirect("/ui/".to_string());
    }
    if (str_eq(uri, "/va") || str_eq(uri, "/va/")) && va {
        return GetRoute::Redirect("/ui/vendored-apps/".to_string());
    }
    if va {
        if let Some(app) = strip_prefix(uri, "/va/") {
            let mut loc = "/ui/vendored-apps/".to_string();
            push_str(&mut loc, app.as_str());
            return GetRoute::Redirect(loc);
        }
    }
    let favicon = str_eq(uri, "/favicon.ico");
    if favicon && ui {
        return GetRoute::UiPlain("favicon.ico".to_string(), true);
    }
    if !favicon && ui {
        if strip_prefix(uri, "/.evahi/").is_some() {
            let c = chars_of(uri);
            proof {
                reveal_strlit("/.evahi/");
            }
            assert(c@.len() >= 1);
            let t = crate::text::sub_chars(&c, 1, c.len());
            assert(t@ =~= uri@.skip(1));
            return GetRoute::UiPlain(crate::text::string_of(&t), false);
        }
    }
    if va {
        if let Some(file) = strip_prefix(uri, "/ui/vendored-apps/") {
            return GetRoute::Vendored(file);
        }
    }
    if ui {
        if let Some(file) = strip_prefix(uri, "/ui/") {
            return GetRoute::Ui(file);
        }
    }
    if str_eq(uri, "/pvt") {
        return match f {
            Some(x) => GetRoute::Pvt(x.to_string()),
            None => GetRoute::BadRequest,
        };
    }
    if let Some(file) = strip_prefix(uri, "/pvt/") {
        return GetRoute::Pvt(file);
    }
    if str_eq(uri, "/rpvt") {
        return match f {
            Some(x) => GetRoute::Rpvt(x.to_string()),
            None => GetRoute::BadRequest,
        };
    }
    if let Some(file) = strip_prefix(uri, "/rpvt/") {
        return GetRoute::Rpvt(file);
    }
    if let Some(key) = strip_prefix(uri, "/:pvt/") {
        return GetRoute::PvtKey(key);
    }
    if let Some(key) = strip_prefix(uri, "/:pub/") {
        return GetRoute::PubKey(key);
    }
    GetRoute::NotFound
}

/// Whether a request path opens a web socket: `/ws`, or the configured
/// web-socket path.
pub fn is_ws_path(path: &str, ws_uri: Option<&str>) -> (r: bool)
    ensures
        r == (path@ == "/ws"@ || (ws_uri matches Some(w) && path@ == w@)),
{
    str_eq(path, "/ws") || match ws_uri {
        Some(w) => str_eq(path, w),
        None => false,
    }
}

/// Whether a POST request is a file upload: to `/upload`, with a multipart
/// boundary in its content type.
pub fn is_upload(uri: &str, has_boundary: bool) -> (r: bool)
    ensures
        r == (uri@ == "/upload"@ && has_boundary),
{
    str_eq(uri, "/upload") && has_boundary
}

} // verus!
