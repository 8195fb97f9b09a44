//! Where the configuration is looked up.

use vstd::prelude::*;

use crate::text::{is_blank, owned};

verus! {

/// The project-relative configuration files, in lookup order, each with
/// whether it is the legacy name (which is still read, with a warning).
pub fn candidate_paths() -> (r: Vec<(String, bool)>)
    ensures
        r@.len() == 2,
        r@[0].0@ == "maestro/config.yml"@ && !r@[0].1,
        r@[1].0@ == "maestro/config.yaml"@ && r@[1].1,
{
    let mut v: Vec<(String, bool)> = Vec::new();
    v.push((owned("maestro/config.yml"), false));
    v.push((owned("maestro/config.yaml"), true));
    v
}

/// The user-level configuration file: under `$XDG_CONFIG_HOME` when it is
/// set and not empty, else under `$HOME/.config` when `$HOME` is set and not
/// empty. Returned as a base directory and the path below it.
pub fn xdg_config_path(xdg_config_home: Option<&str>, home: Option<&str>) -> (r: Option<(String, String)>)
    ensures
        match xdg_config_home {
            Some(x) if x@.len() > 0 => r matches Some((base, rest)) && base@ == x@ && rest@ == "maestro/config.yml"@,
            _ => match home {
                Some(h) if h@.len() > 0 => r matches Some((base, rest)) && base@ == h@ && rest@ == ".config/maestro/config.yml"@,
                _ => r is None,
            },
        },
{
    match xdg_config_home {
        Some(x) => {
            if x.unicode_len() > 0 {
                return Some((owned(x), owned("maestro/config.yml")));
            }
        },
        None => {},
    }
    match home {
        Some(h) => {
            if h.unicode_len() > 0 {
                Some((owned(h), owned(".config/maestro/config.yml")))
            } else {
                None
            }
        },
        None => None,
    }
}

} // verus!
