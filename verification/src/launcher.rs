//! The local service launcher used in development: the `cargo add`
//! command lines of a new service project, the id a launched service
//! runs under, the frame that hands a service its initial payload, and
//! the command that starts it.
use crate::decimal::{nat_text, push_u64};
use crate::text::push_str;
use vstd::prelude::*;

verus! {

/// The texts as values.
pub open spec fn arg_view(v: Seq<String>) -> Seq<Seq<char>> {
    v.map_values(|s: String| s@)
}

/// The arguments of `cargo` that add a dependency: `-q add` and the crate
/// (`name@version`, or the bare name for a local path), the path where one
/// is given, each feature, and the switch that turns the default features
/// off.
pub open spec fn cargo_add_spec(
    name: Seq<char>,
    version: Seq<char>,
    features: Seq<Seq<char>>,
    path: Option<Seq<char>>,
    disable_defaults: bool,
) -> Seq<Seq<char>> {
    let dep = match path {
        Some(_) => name,
        None => name + "@"@ + version,
    };
    let head = seq!["-q"@, "add"@, dep];
    let with_path = match path {
        Some(p) => head + seq!["--path"@, p],
        None => head,
    };
    with_path + feature_args(features) + if disable_defaults {
        seq!["--no-default-features"@]
    } else {
        Seq::empty()
    }
}

/// `--features` and the feature, for each feature.
pub open spec fn feature_args(features: Seq<Seq<char>>) -> Seq<Seq<char>>
    decreases features.len(),
{
    if features.len() == 0 {
        Seq::empty()
    } else {
        feature_args(features.drop_last()) + seq!["--features"@, features.last()]
    }
}

/// The arguments of `cargo` that add a dependency.
pub fn cargo_add_args(
    name: &str,
    version: &str,
    features: &Vec<String>,
    path: Option<String>,
    disable_defaults: bool,
) -> (r: Vec<String>)
    ensures
        arg_view(r@) == cargo_add_spec(
            name@,
            version@,
            arg_view(features@),
            match path {
                Some(p) => Some(p@),
                None => None,
            },
            disable_defaults,
        ),
{
    let mut dep = name.to_string();
    if path.is_none() {
        push_str(&mut dep, "@");
        push_str(&mut dep, version);
    }
    let mut r: Vec<String> = Vec::new();
    r.push("-q".to_string());
    r.push("add".to_string());
    r.push(dep);
    match path {
        Some(p) => {
            r.push("--path".to_string());
            r.push(p);
        },
        None => {},
    }
    let ghost head = arg_view(r@);
    let mut i: usize = 0;
    while i < features.len()
        invariant
            i <= features@.len(),
            arg_view(r@) == head + feature_args(arg_view(features@).take(i as int)),
        decreases features@.len() - i,
    {
        let ghost before = r@;
        r.push("--features".to_string());
        r.push(features[i].clone());
        proof {
            let f = arg_view(features@);
            assert(f.take(i + 1).drop_last() =~= f.take(i as int));
            assert(f.take(i + 1).last() == features@[i as int]@);
            assert(arg_view(r@) =~= arg_view(before) + seq!["--features"@, features@[i as int]@]);
        }
        i = i + 1;
    }
    proof {
        assert(arg_view(features@).take(features@.len() as int) =~= arg_view(features@));
    }
    if disable_defaults {
        let ghost before = r@;
        r.push("--no-default-features".to_string());
        assert(arg_view(r@) =~= arg_view(before) + seq!["--no-default-features"@]);
    } else {
        assert(arg_view(r@) =~= arg_view(r@) + Seq::<Seq<char>>::empty());
    }
    r
}

/// The id a launched service runs under: the override, else the service's
/// id, the host name and the process id, joined by dots.
pub fn launched_service_id(service_id: &str, hostname: &str, pid: u32, id_override: Option<String>) -> (r:
    String)
    ensures
        match id_override {
            Some(o) => r@ == o@,
            None => r@ == service_id@ + "."@ + hostname@ + "."@ + nat_text(pid as nat),
        },
{
    match id_override {
        Some(o) => o,
        None => {
            let mut r = service_id.to_string();
            push_str(&mut r, ".");
            push_str(&mut r, hostname);
            push_str(&mut r, ".");
            push_u64(&mut r, pid as u64);
            r
        },
    }
}

/// Why a frame could not be built.
#[derive(PartialEq, Eq, Structural, Copy, Clone, Debug)]
pub enum LaunchError {
    /// The payload is longer than four bytes can count.
    PayloadTooLong,
}

/// A length as four little-endian bytes.
pub open spec fn le_u32(n: nat) -> Seq<u8> {
    seq![(n % 256) as u8, ((n / 0x100) % 256) as u8, ((n / 0x10000) % 256) as u8, ((n / 0x1000000) % 256) as u8]
}

/// The frame that hands a service its initial payload on its standard
/// input: the marker byte, the payload's length as four little-endian
/// bytes, and the payload.
pub fn initial_frame(marker: u8, packed: &[u8]) -> (r: Result<Vec<u8>, LaunchError>)
    ensures
        packed@.len() > u32::MAX ==> r == Err::<Vec<u8>, LaunchError>(LaunchError::PayloadTooLong),
        packed@.len() <= u32::MAX ==> (r matches Ok(v) && v@ == seq![marker] + le_u32(packed@.len()) + packed@),
{
    if packed.len() as u64 > 0xffff_ffffu64 {
        return Err(LaunchError::PayloadTooLong);
    }
    let n: u32 = packed.len() as u32;
    let mut v: Vec<u8> = Vec::new();
    v.push(marker);
    v.push((n % 256) as u8);
    v.push(((n / 0x100) % 256) as u8);
    v.push(((n / 0x10000) % 256) as u8);
    v.push((n / 0x1000000) as u8);
    let ghost head = v@;
    assert(head =~= seq![marker] + le_u32(packed@.len()));
    let mut i: usize = 0;
    while i < packed.len()
        invariant
            i <= packed@.len(),
            v@ == head + packed@.take(i as int),
        decreases packed@.len() - i,
    {
        v.push(packed[i]);
        i = i + 1;
        assert(v@ =~= head + packed@.take(i as int));
    }
    assert(packed@.take(packed@.len() as int) =~= packed@);
    Ok(v)
}

/// The command that runs the service: the given binary with no
/// arguments, else `cargo run`, in release mode where asked.
pub fn launch_command(binary: Option<String>, release: bool) -> (r: (String, Vec<String>))
    ensures
        match binary {
            Some(b) => r.0@ == b@ && r.1@.len() == 0,
            None => r.0@ == "cargo"@ && arg_view(r.1@) == (if release {
                seq!["run"@, "--release"@]
            } else {
                seq!["run"@]
            }),
        },
{
    match binary {
        Some(b) => (b, Vec::new()),
        None => {
            let mut a: Vec<String> = Vec::new();
            a.push("run".to_string());
            if release {
                a.push("--release".to_string());
            }
            proof {
                if release {
                    assert(arg_view(a@) =~= seq!["run"@, "--release"@]);
                } else {
                    assert(arg_view(a@) =~= seq!["run"@]);
                }
            }
            ("cargo".to_string(), a)
        },
    }
}

/// What happened to a watched source file.
#[derive(PartialEq, Eq, Structural, Copy, Clone, Debug)]
pub enum SourceChange {
    Create,
    Modify,
    Remove,
    Other,
}

/// Whether a change of the sources restarts the service: where watching is
/// on and a file was created, modified or removed.
pub fn restarts_on(watch: bool, change: SourceChange) -> (r: bool)
    ensures
        r == (watch && change != SourceChange::Other),
{
    watch && match change {
        SourceChange::Other => false,
        _ => true,
    }
}

} // verus!
