//! The logo front end: picks the glyph art for a host.

use vstd::prelude::*;

verus! {

use crate::ascii::{AsciiArt, resolves};
use crate::config::Config;
use crate::logo_config::LogoConfig;

pub struct LogoDisplay;

impl LogoDisplay {
    /// The logo lines for an OS name: ASCII art resolved against the
    /// custom catalog (the display configuration currently plays no
    /// part in the choice).
    pub fn show_logo(os_name: &str, _config: &Config, logos: &LogoConfig) -> (r: Vec<String>)
        ensures
            resolves(os_name@, logos.logos@, r.deep_view()),
    {
        AsciiArt::get_logo(os_name, logos)
    }
}

} // verus!
