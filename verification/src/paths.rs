use vstd::prelude::*;

use crate::fail::{WError, WResult};

verus! {

/// Relies on dirs_2's `home_dir`: where the user's home directory lies,
/// if the platform knows one.  The answer depends on the environment.
#[verifier::external_body]
fn os_home_dir() -> (r: Option<String>) {
    dirs_2::home_dir().map(|p| p.to_string_lossy().to_string())
}

/// Relies on dirs_2's `config_dir`: where per-user configuration lives,
/// if the platform knows such a place.  The answer depends on the
/// environment.
#[verifier::external_body]
fn os_config_dir() -> (r: Option<String>) {
    dirs_2::config_dir().map(|p| p.to_string_lossy().to_string())
}

/// The user's home directory.
pub fn home_path() -> (r: WResult<String>)
    ensures
        r matches Err(e) ==> e == WError::NoneError,
{
    match os_home_dir() {
        Some(h) => Ok(h),
        None => Err(WError::NoneError),
    }
}

/// Ranger's configuration directory, for importing its bookmarks.
pub fn ranger_path() -> (r: WResult<String>)
    ensures
        r matches Ok(p) ==> exists|d: Seq<char>| p@ == d + "/ranger/"@,
        r matches Err(e) ==> e == WError::NoneError,
{
    match os_config_dir() {
        Some(c) => {
            let mut p = c;
            p.append("/ranger/");
            Ok(p)
        }
        None => Err(WError::NoneError),
    }
}

/// This file manager's own configuration directory.
pub fn wandex_path() -> (r: WResult<String>)
    ensures
        r matches Ok(p) ==> exists|d: Seq<char>| p@ == d + "/wandex/"@,
        r matches Err(e) ==> e == WError::NoneError,
{
    match os_config_dir() {
        Some(c) => {
            let mut p = c;
            p.append("/wandex/");
            Ok(p)
        }
        None => Err(WError::NoneError),
    }
}

/// A file inside the configuration directory.
fn config_file(name: &str) -> (r: WResult<String>)
    ensures
        r matches Ok(p) ==> exists|d: Seq<char>| p@ == d + "/wandex/"@ + name@,
        r matches Err(e) ==> e == WError::NoneError,
{
    match wandex_path() {
        Ok(mut p) => {
            p.append(name);
            Ok(p)
        }
        Err(e) => Err(e),
    }
}

pub fn config_path() -> (r: WResult<String>)
    ensures
        r matches Ok(p) ==> exists|d: Seq<char>| p@ == d + "/wandex/"@ + "config"@,
        r matches Err(e) ==> e == WError::NoneError,
{
    config_file("config")
}

pub fn bindings_path() -> (r: WResult<String>)
    ensures
        r matches Ok(p) ==> exists|d: Seq<char>| p@ == d + "/wandex/"@ + "keys"@,
        r matches Err(e) ==> e == WError::NoneError,
{
    config_file("keys")
}

pub fn bookmark_path() -> (r: WResult<String>)
    ensures
        r matches Ok(p) ==> exists|d: Seq<char>| p@ == d + "/wandex/"@ + "bookmarks"@,
        r matches Err(e) ==> e == WError::NoneError,
{
    config_file("bookmarks")
}

pub fn tagfile_path() -> (r: WResult<String>)
    ensures
        r matches Ok(p) ==> exists|d: Seq<char>| p@ == d + "/wandex/"@ + "tags"@,
        r matches Err(e) ==> e == WError::NoneError,
{
    config_file("tags")
}

pub fn history_path() -> (r: WResult<String>)
    ensures
        r matches Ok(p) ==> exists|d: Seq<char>| p@ == d + "/wandex/"@ + "history"@,
        r matches Err(e) ==> e == WError::NoneError,
{
    config_file("history")
}

pub fn actions_path() -> (r: WResult<String>)
    ensures
        r matches Ok(p) ==> exists|d: Seq<char>| p@ == d + "/wandex/"@ + "actions"@,
        r matches Err(e) ==> e == WError::NoneError,
{
    config_file("actions")
}

pub fn previewers_path() -> (r: WResult<String>)
    ensures
        r matches Ok(p) ==> exists|d: Seq<char>| p@ == d + "/wandex/"@ + "previewers"@,
        r matches Err(e) ==> e == WError::NoneError,
{
    config_file("previewers")
}

} // verus!
