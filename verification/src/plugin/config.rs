//! Configuration of the plugin system.

use vstd::prelude::*;
use crate::text::string_of;

verus! {

/// Configuration of the plugin system.
#[derive(Debug, Clone)]
pub struct Config {
    /// Directory that holds the plugins.
    pub plugin_dir: String,
    /// Whether plugins are reloaded when they change.
    pub hot_reload: bool,
}

impl Default for Config {
    fn default() -> (r: Self)
        ensures
            r.plugin_dir@ == "plugins"@,
            !r.hot_reload,
    {
        Config { plugin_dir: string_of("plugins"), hot_reload: false }
    }
}

} // verus!
