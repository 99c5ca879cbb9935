use vstd::prelude::*;

pub mod arguments;
pub mod auth;
pub mod auth_structs;
pub mod fetcher;
pub mod forge_installer;
pub mod instances;
pub mod libraries;
pub mod manifests;
pub mod settings;
pub mod mc_structs;
pub mod modloaders;
pub mod paths;
pub mod rules;
pub mod strutil;

verus! {

/// The state a lifecycle notification reports.
#[derive(Clone, Copy, Debug, PartialEq, Eq, Structural)]
pub enum NotificationState {
    Running,
    Error,
    Success,
}

/// The character that separates entries of a java classpath on the host.
/// Windows uses `;`, every other platform `:`.
pub fn get_classpath_separator(host_is_windows: bool) -> (r: String)
    ensures
        host_is_windows ==> r@ == ";"@,
        !host_is_windows ==> r@ == ":"@,
{
    if host_is_windows {
        String::from_str(";")
    } else {
        String::from_str(":")
    }
}

} // verus!
