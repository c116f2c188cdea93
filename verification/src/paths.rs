//! Where the vault and the runtime file stand.

use vstd::prelude::*;
use vstd::string::*;

use crate::text;

verus! {

/// What the environment says about directories.
#[derive(Debug)]
pub struct Environment {
    /// The directory that was asked for, whatever the platform's habit.
    pub data_dir: Option<String>,
    /// The runtime file that was asked for.
    pub runtime: Option<String>,
    pub home: Option<String>,
    pub xdg_data_home: Option<String>,
    pub macos: bool,
}

/// The path of `name` in the directory `dir`; a `name` that starts at the root
/// stands for itself.
pub open spec fn joined(dir: Seq<char>, name: Seq<char>) -> Seq<char> {
    if name.len() > 0 && name[0] == '/' {
        name
    } else if dir.len() == 0 || dir.last() == '/' {
        dir + name
    } else {
        dir.push('/') + name
    }
}

/// The path of `name` in the directory `dir`.
pub fn join(dir: &str, name: &str) -> (r: String)
    ensures
        r@ == joined(dir@, name@),
{
    if name.unicode_len() > 0 && name.get_char(0) == '/' {
        return name.to_owned();
    }
    let n: usize = dir.unicode_len();
    if n == 0 || dir.get_char(n - 1) == '/' {
        return text::concat(dir, name);
    }
    let mut r = dir.to_owned();
    r.push('/');
    r.append(name);
    r
}

/// The directory of the platform for the data of this application.
pub open spec fn platform_directory(
    home: Option<Seq<char>>,
    xdg_data_home: Option<Seq<char>>,
    macos: bool,
) -> Result<Seq<char>, Seq<char>> {
    match home {
        None => Err("HOME is not set"@),
        Some(home) => if macos {
            Ok(joined(joined(joined(home, "Library"@), "Application Support"@), "secretd"@))
        } else {
            match xdg_data_home {
                Some(shared) => Ok(joined(shared, "secretd"@)),
                None => Ok(joined(joined(joined(home, ".local"@), "share"@), "secretd"@)),
            }
        },
    }
}

/// The view of a text that may be missing.
pub open spec fn given(value: Option<String>) -> Option<Seq<char>> {
    match value {
        Some(value) => Some(value@),
        None => None,
    }
}

/// The view of a path or of the reason why there is none.
pub open spec fn shown(path: Result<String, String>) -> Result<Seq<char>, Seq<char>> {
    match path {
        Ok(path) => Ok(path@),
        Err(error) => Err(error@),
    }
}

/// The directory of the platform for the data of this application.
pub fn app_data_directory_from(
    home: Option<String>,
    xdg_data_home: Option<String>,
    macos: bool,
) -> (r: Result<String, String>)
    ensures
        shown(r) == platform_directory(given(home), given(xdg_data_home), macos),
{
    match home {
        None => Err("HOME is not set".to_owned()),
        Some(home) => if macos {
            let library = join(home.as_str(), "Library");
            let support = join(library.as_str(), "Application Support");
            Ok(join(support.as_str(), "secretd"))
        } else {
            match xdg_data_home {
                Some(shared) => Ok(join(shared.as_str(), "secretd")),
                None => {
                    let local = join(home.as_str(), ".local");
                    let share = join(local.as_str(), "share");
                    Ok(join(share.as_str(), "secretd"))
                },
            }
        },
    }
}

/// The directory that was asked for, or else that of the platform.
pub open spec fn data_directory(environment: Environment) -> Result<Seq<char>, Seq<char>> {
    match environment.data_dir {
        Some(path) => Ok(path@),
        None => platform_directory(
            given(environment.home),
            given(environment.xdg_data_home),
            environment.macos,
        ),
    }
}

/// The directory for the data of this application: the one that was asked for,
/// or else that of the platform.
pub fn app_data_directory(environment: &Environment) -> (r: Result<String, String>)
    ensures
        shown(r) == data_directory(*environment),
{
    match &environment.data_dir {
        Some(path) => Ok(path.clone()),
        None => app_data_directory_from(
            environment.home.clone(),
            environment.xdg_data_home.clone(),
            environment.macos,
        ),
    }
}

/// The path of a file in the directory for the data of this application.
pub open spec fn data_file(environment: Environment, name: Seq<char>) -> Result<
    Seq<char>,
    Seq<char>,
> {
    match data_directory(environment) {
        Ok(directory) => Ok(joined(directory, name)),
        Err(error) => Err(error),
    }
}

fn file_path(environment: &Environment, name: &str) -> (r: Result<String, String>)
    ensures
        shown(r) == data_file(*environment, name@),
{
    match app_data_directory(environment) {
        Ok(directory) => Ok(join(directory.as_str(), name)),
        Err(error) => Err(error),
    }
}

/// Where the vault is kept.
pub fn default_vault_path(environment: &Environment) -> (r: Result<String, String>)
    ensures
        shown(r) == data_file(*environment, "vault.json"@),
{
    file_path(environment, "vault.json")
}

/// Where the running application says how it can be reached.
pub fn default_runtime_path(environment: &Environment) -> (r: Result<String, String>)
    ensures
        shown(r) == data_file(*environment, "runtime.json"@),
{
    file_path(environment, "runtime.json")
}

/// The runtime file that was asked for, or else the usual one.
pub open spec fn runtime_file(environment: Environment) -> Result<Seq<char>, Seq<char>> {
    match environment.runtime {
        Some(path) => Ok(path@),
        None => data_file(environment, "runtime.json"@),
    }
}

/// Where a command looks for the running application.
pub fn cli_runtime_path(environment: &Environment) -> (r: Result<String, String>)
    ensures
        shown(r) == runtime_file(*environment),
{
    match &environment.runtime {
        Some(path) => Ok(path.clone()),
        None => default_runtime_path(environment),
    }
}

/// The path without its last component, as the standard library takes paths
/// apart on Unix.
pub uninterp spec fn parent_of(path: Seq<char>) -> Option<Seq<char>>;

/// `std::path::Path::parent`: the path without its last component, or nothing
/// for the root and for the empty path. On the Unix systems that this library
/// is written for it depends on the path alone; how repeated separators and
/// dots are read is left unsaid.
#[verifier::external_body]
fn path_parent(path: &str) -> (r: Option<String>)
    ensures
        given(r) == parent_of(path@),
{
    std::path::Path::new(path).parent().map(|parent| parent.to_string_lossy().into_owned())
}

/// A parent directory, or the complaint that `path` has none.
pub open spec fn parent_or_error(path: Seq<char>, parent: Option<Seq<char>>) -> Result<
    Seq<char>,
    Seq<char>,
> {
    match parent {
        Some(parent) => Ok(parent),
        None => Err(path + " has no parent directory"@),
    }
}

/// The parent directory that was found for `path`, or the complaint that it has
/// none.
pub fn require_parent(path: &str, parent: Option<String>) -> (r: Result<String, String>)
    ensures
        shown(r) == parent_or_error(path@, given(parent)),
{
    match parent {
        Some(parent) => Ok(parent),
        None => Err(text::concat(path, " has no parent directory")),
    }
}

/// The directory that a file stands in.
pub fn ensure_parent(path: &str) -> (r: Result<String, String>)
    ensures
        shown(r) == parent_or_error(path@, parent_of(path@)),
{
    require_parent(path, path_parent(path))
}

} // verus!
