use vstd::prelude::*;

use crate::error::KeysetError;

verus! {

/// Joining a file name onto a directory: an absolute name replaces the base,
/// otherwise exactly one separator stands between the two.
pub open spec fn path_join(base: Seq<char>, name: Seq<char>) -> Seq<char> {
    if name.len() > 0 && name[0] == '/' {
        name
    } else if base.len() == 0 || base.last() == '/' {
        base + name
    } else {
        base + seq!['/'] + name
    }
}

/// Joins `name` onto the directory `base`.
pub fn join_path(base: &str, name: &str) -> (r: String)
    ensures
        r@ == path_join(base@, name@),
{
    let name_len = name.unicode_len();
    if name_len > 0 && name.get_char(0) == '/' {
        return name.to_owned();
    }
    let base_len = base.unicode_len();
    let mut r = base.to_owned();
    if !(base_len == 0 || base.get_char(base_len - 1) == '/') {
        r.append("/");
        proof {
            reveal_strlit("/");
        }
    }
    r.append(name);
    r
}

/// The configuration file's place below the home directory.
pub open spec fn config_file_name() -> Seq<char> {
    "dotfiles/keyset.toml"@
}

/// The remap files' directory below the synced directory.
pub open spec fn xmodmap_dir_name() -> Seq<char> {
    "xmodmapconfigs"@
}

/// The configuration file's path, from the home directory if it is known.
pub fn config_path(home: &Option<String>) -> (r: Result<String, KeysetError>)
    ensures
        home is None ==> r is Err && r->Err_0 is ConfigError,
        home is Some ==> r is Ok && r->Ok_0@ == path_join(home->0@, config_file_name()),
{
    match home {
        Some(h) => Ok(join_path(h.as_str(), "dotfiles/keyset.toml")),
        None => Err(KeysetError::ConfigError("HOME is not set".to_owned())),
    }
}

/// The remap files' directory, from the synced directory if it is known.
pub fn xmodmap_dir(cloud: &Option<String>) -> (r: Result<String, KeysetError>)
    ensures
        cloud is None ==> r is Err && r->Err_0 is ConfigError,
        cloud is Some ==> r is Ok && r->Ok_0@ == path_join(cloud->0@, xmodmap_dir_name()),
{
    match cloud {
        Some(c) => Ok(join_path(c.as_str(), "xmodmapconfigs")),
        None => Err(KeysetError::ConfigError("CLOUDPATH is not set".to_owned())),
    }
}

} // verus!
