//! User settings of the preview and of the language server.

use vstd::prelude::*;
use vstd::string::StringExecFns;

verus! {

/// How the preview behaves.
#[derive(Debug, Clone)]
pub struct PreviewSettings {
    pub default_zoom: String,
    pub sync_scroll: bool,
    pub render_quality: String,
}

impl Default for PreviewSettings {
    fn default() -> (s: PreviewSettings)
        ensures
            s.default_zoom@ == "fit_width"@,
            s.sync_scroll,
            s.render_quality@ == "normal"@,
    {
        PreviewSettings {
            default_zoom: String::from_str("fit_width"),
            sync_scroll: true,
            render_quality: String::from_str("normal"),
        }
    }
}

/// How the language server is used. Delays are in milliseconds.
#[derive(Debug, Clone)]
pub struct LspSettings {
    pub enable: bool,
    pub diagnostic_delay: u64,
    pub completion_trigger_delay: u64,
}

impl Default for LspSettings {
    fn default() -> (s: LspSettings)
        ensures
            s.enable,
            s.diagnostic_delay == 500,
            s.completion_trigger_delay == 100,
    {
        LspSettings { enable: true, diagnostic_delay: 500, completion_trigger_delay: 100 }
    }
}

} // verus!
