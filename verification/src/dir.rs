//! The platform's standard user directories, as paths of this crate. A
//! platform (or environment) can define none of them, so each lookup
//! yields an `Option` instead of assuming an answer.

use vstd::prelude::*;

use crate::filesystem::Path;

verus! {

/// Relies on dirs::home_dir: the platform's home directory, or `None`
/// when the platform defines none. Nothing can be promised of the value.
#[verifier::external_body]
fn home_dir_string() -> (s: Option<String>) {
    dirs::home_dir().map(|p| p.display().to_string())
}

/// Relies on dirs::config_dir: the platform's configuration directory, or
/// `None` when the platform defines none. Nothing can be promised of the
/// value.
#[verifier::external_body]
fn config_dir_string() -> (s: Option<String>) {
    dirs::config_dir().map(|p| p.display().to_string())
}

/// Relies on dirs::cache_dir: the platform's cache directory, or `None`
/// when the platform defines none. Nothing can be promised of the value.
#[verifier::external_body]
fn cache_dir_string() -> (s: Option<String>) {
    dirs::cache_dir().map(|p| p.display().to_string())
}

/// The user's home directory, when the platform defines one.
pub fn home() -> Option<Path> {
    match home_dir_string() {
        Some(s) => Some(Path::new(s.as_str())),
        None => None,
    }
}

/// The user's configuration directory, when the platform defines one.
pub fn config() -> Option<Path> {
    match config_dir_string() {
        Some(s) => Some(Path::new(s.as_str())),
        None => None,
    }
}

/// The user's cache directory, when the platform defines one.
pub fn cache() -> Option<Path> {
    match cache_dir_string() {
        Some(s) => Some(Path::new(s.as_str())),
        None => None,
    }
}

} // verus!
