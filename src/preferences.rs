use vstd::prelude::*;
use crate::text::push_text;

verus! {

/// The launcher's settings, as read from and written to its configuration
/// file.
pub struct Preferences {
    /// Where the settings are stored.
    pub path: String,
    /// Window opacity, in percent.
    pub opacity: u32,
    /// Hide the window when it loses focus.
    pub hide_on_unfocus: bool,
    /// Keep the window above the others.
    pub always_on_top: bool,
    /// Show the developer tools.
    pub developer: bool,
}

/// The opacity used when the configuration names none.
pub fn default_opacity() -> (r: u32)
    ensures
        r == 90,
{
    90
}

/// Whether to hide on losing focus when the configuration does not say.
pub fn default_hide_on_unfocus() -> (r: bool)
    ensures
        r,
{
    true
}

/// Whether to stay on top when the configuration does not say.
pub fn default_always_on_top() -> (r: bool)
    ensures
        r,
{
    true
}

/// Whether to show the developer tools when the configuration does not say.
pub fn default_developer() -> (r: bool)
    ensures
        !r,
{
    false
}

/// The configuration file of user `user`: `/home/<user>/.config/scout.conf`.
pub open spec fn config_path_spec(user: Seq<char>) -> Seq<char> {
    "/home/"@ + user + "/.config/scout.conf"@
}

impl Preferences {
    /// The settings stored at `path` when the file holds none: every field
    /// takes its default.
    pub fn defaults(path: String) -> (r: Preferences)
        ensures
            r.path == path,
            r.opacity == 90,
            r.hide_on_unfocus,
            r.always_on_top,
            !r.developer,
    {
        Preferences {
            path,
            opacity: default_opacity(),
            hide_on_unfocus: default_hide_on_unfocus(),
            always_on_top: default_always_on_top(),
            developer: default_developer(),
        }
    }

    /// Where user `user` keeps the configuration when no path is given.
    pub fn config_path(user: &str) -> (r: String)
        ensures
            r@ == config_path_spec(user@),
    {
        let mut p = String::new();
        push_text(&mut p, "/home/");
        push_text(&mut p, user);
        push_text(&mut p, "/.config/scout.conf");
        assert(p@ =~= config_path_spec(user@));
        p
    }
}

} // verus!
