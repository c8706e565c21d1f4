//! The host platform and the paths that depend on it.

use vstd::prelude::*;
use crate::text::concat;
use crate::text::contains_text;

verus! {

/// The family of the host system.
#[derive(Clone, Copy, Debug, PartialEq, Eq, Structural)]
pub enum Platform {
    Windows,
    MacOs,
    Linux,
}

/// `Path::file_name`, as text: the final component of the path, if it has
/// one. Which characters separate components depends on the host, so only
/// what holds on every host is stated: the component is a non-empty part of
/// the path.
#[verifier::external_body]
pub(crate) fn path_file_name(path: &str) -> (r: Option<String>)
    ensures
        r matches Some(n) ==> n@.len() > 0 && contains_text(path@, n@),
{
    std::path::Path::new(path).file_name().and_then(|s| s.to_str()).map(|s| s.to_owned())
}

/// `Path::join`, as text: `part` appended to `base` as the host's paths are
/// built. Nothing is stated of the result, which depends on the host.
#[verifier::external_body]
pub(crate) fn path_join(base: &str, part: &str) -> String {
    std::path::Path::new(base).join(part).to_string_lossy().into_owned()
}

/// The name to show for a directory: its final component where it has one,
/// else the path itself.
pub open spec fn dir_name_value(path: Seq<char>, file_name: Option<Seq<char>>) -> Seq<char> {
    match file_name {
        Some(n) => n,
        None => path,
    }
}

/// The name to show for a directory, given the final component of its path.
pub fn dir_name_from(path: &str, file_name: Option<String>) -> (r: String)
    ensures
        r@ == dir_name_value(
            path@,
            match file_name {
                Some(n) => Some(n@),
                None => None,
            },
        ),
{
    match file_name {
        Some(n) => n,
        None => path.to_owned(),
    }
}

/// The name to show for the directory at `path`: the final component of the
/// path, or the path itself where it has none.
pub fn get_dir_name(path: &str) -> (r: String)
    ensures
        r@ == path@ || (r@.len() > 0 && contains_text(path@, r@)),
{
    let name = path_file_name(path);
    dir_name_from(path, name)
}

/// The name of a hook's binary where the destination path gives none: the
/// hook's name with the platform's suffix.
pub open spec fn default_binary_name(name: Seq<char>, platform: Platform) -> Seq<char> {
    match platform {
        Platform::Windows => name + ".exe"@,
        Platform::MacOs => name + "_macos"@,
        Platform::Linux => name + "_linux"@,
    }
}

/// The name of a hook's binary: the final component of its destination path,
/// or the default name where the path has none.
pub open spec fn binary_name_value(
    file_name: Option<Seq<char>>,
    name: Seq<char>,
    platform: Platform,
) -> Seq<char> {
    match file_name {
        Some(n) => n,
        None => default_binary_name(name, platform),
    }
}

/// The name of a hook's binary, given the final component of its destination
/// path.
pub fn hook_binary_name(file_name: Option<String>, name: &str, platform: Platform) -> (r: String)
    ensures
        r@ == binary_name_value(
            match file_name {
                Some(n) => Some(n@),
                None => None,
            },
            name@,
            platform,
        ),
{
    match file_name {
        Some(n) => n,
        None => match platform {
            Platform::Windows => concat(name, ".exe"),
            Platform::MacOs => concat(name, "_macos"),
            Platform::Linux => concat(name, "_linux"),
        },
    }
}

/// The command that runs an installed file of the directory `folder` of the
/// configuration home. Where the home directory can be abbreviated, the
/// command is `config_home` (the configuration home written with `~`), a
/// slash, the folder, a slash and the file's name; on Windows, which does not
/// expand `~`, it is the path that the host builds from the destination
/// directory, the folder and the name.
pub fn installed_command(
    config_home: &str,
    dest_dir: &str,
    folder: &str,
    file: &str,
    platform: Platform,
) -> (r: String)
    ensures
        platform != Platform::Windows ==> r@ == config_home@ + "/"@ + folder@ + "/"@ + file@,
{
    match platform {
        Platform::Windows => {
            let dir = path_join(dest_dir, folder);
            path_join(dir.as_str(), file)
        },
        _ => {
            let a = concat(config_home, "/");
            let b = concat(a.as_str(), folder);
            let c = concat(b.as_str(), "/");
            concat(c.as_str(), file)
        },
    }
}

} // verus!
