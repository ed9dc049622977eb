//! Path helpers: where the configuration, the database and other files of
//! the application lie under its data root.

use vstd::prelude::*;
use crate::text::{chars_of, contains_lit, contains_seq};

verus! {

/// Whether the target platform's `Path::is_absolute` holds of `p`.
pub uninterp spec fn path_is_absolute(p: Seq<char>) -> bool;

/// The text of `Path::join(base, rel)` on the target platform.
pub uninterp spec fn path_joined(base: Seq<char>, rel: Seq<char>) -> Seq<char>;

/// `std::path::Path::is_absolute`: whether `p` names a path from the root
/// (on Unix, one that starts with `/`). The contract says only that the
/// answer is a function of `p` on the platform the crate is built for.
#[verifier::external_body]
fn is_absolute(p: &str) -> (r: bool)
    ensures
        r == path_is_absolute(p@),
{
    std::path::Path::new(p).is_absolute()
}

/// `std::path::Path::join`, as text. Both arguments are UTF-8, so is the
/// joined path, and the conversion back to a `String` keeps it exactly. The
/// contract says only that the result is a function of the two arguments on
/// the platform the crate is built for.
#[verifier::external_body]
fn join(base: &str, rel: &str) -> (r: String)
    ensures
        r@ == path_joined(base@, rel@),
{
    std::path::Path::new(base).join(rel).to_string_lossy().into_owned()
}

/// What `project_path` gives: an absolute `relative` as it is, any other
/// joined to the data root.
pub open spec fn under_root(root: Seq<char>, relative: Seq<char>) -> Seq<char> {
    if path_is_absolute(relative) {
        relative
    } else {
        path_joined(root, relative)
    }
}

/// A path of the application: `relative` under the data root `root`, or
/// `relative` itself where it is absolute.
pub fn project_path(root: &str, relative: &str) -> (r: String)
    ensures
        r@ == under_root(root@, relative@),
{
    if is_absolute(relative) {
        String::from_str(relative)
    } else {
        join(root, relative)
    }
}

/// The bundled default configuration, `config.default.json` under the root.
pub fn default_config_file(root: &str) -> (r: String)
    ensures
        r@ == under_root(root@, "config.default.json"@),
{
    project_path(root, "config.default.json")
}

/// The configuration file: the one `GETRICH_CONFIG` names where it is set
/// (`env_config`), else `config.json` under the root.
pub fn config_file(env_config: Option<&str>, root: &str) -> (r: String)
    ensures
        r@ == match env_config {
            Some(p) => p@,
            None => under_root(root@, "config.json"@),
        },
{
    match env_config {
        Some(p) => String::from_str(p),
        None => project_path(root, "config.json"),
    }
}

/// The database file: the one `GETRICH_DB` names where it is set and not
/// empty (`env_db`), else `db_name` under the root.
pub fn db_path(env_db: Option<&str>, root: &str, db_name: &str) -> (r: String)
    ensures
        r@ == match env_db {
            Some(p) => if p@.len() > 0 {
                p@
            } else {
                under_root(root@, db_name@)
            },
            None => under_root(root@, db_name@),
        },
{
    if let Some(p) = env_db {
        if !p.is_empty() {
            return String::from_str(p);
        }
    }
    project_path(root, db_name)
}

/// Whether an executable directory is a development build's output
/// (`target/debug` or `target/release` in its text).
pub open spec fn dev_build_dir(dir: Seq<char>) -> bool {
    contains_seq(dir, "target"@) && (contains_seq(dir, "debug"@) || contains_seq(dir, "release"@))
}

/// The writable data root: `GETRICH_DATA_ROOT` where it is set and not empty;
/// else the executable's directory, or the workspace of a development build
/// where it is known; else the working directory.
pub open spec fn root_of(
    env_root: Option<Seq<char>>,
    exe_dir: Option<Seq<char>>,
    workspace: Option<Seq<char>>,
    cwd: Seq<char>,
) -> Seq<char> {
    match env_root {
        Some(r) if r.len() > 0 => r,
        _ => match exe_dir {
            Some(d) => if dev_build_dir(d) && workspace is Some {
                workspace->0
            } else {
                d
            },
            None => cwd,
        },
    }
}

/// Picks the data root from what the environment says: `env_root` is
/// `GETRICH_DATA_ROOT`, `exe_dir` the running executable's directory,
/// `workspace` the workspace above `CARGO_MANIFEST_DIR`, `cwd` the working
/// directory.
pub fn data_root(
    env_root: Option<&str>,
    exe_dir: Option<&str>,
    workspace: Option<&str>,
    cwd: &str,
) -> (r: String)
    ensures
        r@ == root_of(
            match env_root {
                Some(s) => Some(s@),
                None => None,
            },
            match exe_dir {
                Some(s) => Some(s@),
                None => None,
            },
            match workspace {
                Some(s) => Some(s@),
                None => None,
            },
            cwd@,
        ),
{
    if let Some(r) = env_root {
        if !r.is_empty() {
            return String::from_str(r);
        }
    }
    match exe_dir {
        Some(d) => {
            let dc = chars_of(d);
            let dev = contains_lit(dc.as_slice(), "target") && (contains_lit(dc.as_slice(), "debug")
                || contains_lit(dc.as_slice(), "release"));
            match workspace {
                Some(w) if dev => String::from_str(w),
                _ => String::from_str(d),
            }
        },
        None => String::from_str(cwd),
    }
}

/// Where the application icon may lie, in the order they are tried: under
/// the data root `icon/`, `Icon/`, the root itself and `packaging/`; then
/// beside the executable, directly, under `icon/` and under `Icon/`.
pub fn icon_candidates(root: &str, exe_dir: Option<&str>) -> (r: Vec<String>)
    ensures
        r@.len() == if exe_dir is Some {
            7nat
        } else {
            4nat
        },
        r@[0]@ == under_root(root@, path_joined("icon"@, "GetRich.ico"@)),
        r@[1]@ == under_root(root@, path_joined("Icon"@, "GetRich.ico"@)),
        r@[2]@ == under_root(root@, "GetRich.ico"@),
        r@[3]@ == under_root(root@, path_joined("packaging"@, "GetRich.ico"@)),
        exe_dir matches Some(d) ==> r@[4]@ == path_joined(d@, "GetRich.ico"@) && r@[5]@
            == path_joined(d@, "icon/GetRich.ico"@) && r@[6]@ == path_joined(
            d@,
            "Icon/GetRich.ico"@,
        ),
{
    let mut r: Vec<String> = Vec::new();
    let a = join("icon", "GetRich.ico");
    r.push(project_path(root, a.as_str()));
    let b = join("Icon", "GetRich.ico");
    r.push(project_path(root, b.as_str()));
    r.push(project_path(root, "GetRich.ico"));
    let c = join("packaging", "GetRich.ico");
    r.push(project_path(root, c.as_str()));
    if let Some(d) = exe_dir {
        r.push(join(d, "GetRich.ico"));
        r.push(join(d, "icon/GetRich.ico"));
        r.push(join(d, "Icon/GetRich.ico"));
    }
    r
}

} // verus!
