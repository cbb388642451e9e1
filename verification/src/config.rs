//! The read-only display configuration: the glyphs the grid is drawn with
//! and the color names the renderer resolves. Loading and persisting the
//! configuration file is the caller's business.

use vstd::prelude::*;

verus! {

/// The fallback glyph for any character a configuration leaves out.
pub fn base_char() -> (r: char)
    ensures
        r == '\u{00b7}',
{
    '\u{00b7}'
}

/// The glyphs one habit cell can show: done, not done, future, missing.
pub struct Characters {
    pub true_chr: char,
    pub false_chr: char,
    pub future_chr: char,
    pub missing_chr: char,
}

impl Default for Characters {
    fn default() -> (r: Self)
        ensures
            r.true_chr == '+',
            r.false_chr == '-',
            r.future_chr == '.',
            r.missing_chr == '?',
    {
        Characters { true_chr: '+', false_chr: '-', future_chr: '.', missing_chr: '?' }
    }
}

/// The default color name for reached goals.
pub fn cyan() -> (r: String)
    ensures
        r@ == "cyan"@,
{
    "cyan".to_owned()
}

/// The default color name for outstanding goals.
pub fn magenta() -> (r: String)
    ensures
        r@ == "magenta"@,
{
    "magenta".to_owned()
}

/// The default color name for inactive cells.
pub fn light_black() -> (r: String)
    ensures
        r@ == "light black"@,
{
    "light black".to_owned()
}

/// The color names the renderer resolves against its terminal palette.
pub struct Colors {
    pub reached: String,
    pub todo: String,
    pub inactive: String,
}

impl Default for Colors {
    fn default() -> (r: Self)
        ensures
            r.reached@ == "cyan"@,
            r.todo@ == "magenta"@,
            r.inactive@ == "light black"@,
    {
        Colors { reached: cyan(), todo: magenta(), inactive: light_black() }
    }
}

/// The whole display configuration.
pub struct AppConfig {
    pub look: Characters,
    pub colors: Colors,
}

impl Default for AppConfig {
    fn default() -> (r: Self)
        ensures
            r.look.true_chr == '+',
            r.look.false_chr == '-',
            r.look.future_chr == '.',
            r.look.missing_chr == '?',
            r.colors.reached@ == "cyan"@,
            r.colors.todo@ == "magenta"@,
            r.colors.inactive@ == "light black"@,
    {
        AppConfig { look: Characters::default(), colors: Colors::default() }
    }
}

} // verus!
