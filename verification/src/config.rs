use vstd::prelude::*;

use crate::utils::{Color, color_of, lowercase, string_to_color};

verus! {

/// The colours of the interface, each written as a colour name, a hex code
/// or a palette index (see `utils::string_to_color`).
pub struct Theme {
    /// The text colour.
    pub foreground: Option<String>,
    /// The background colour.
    pub background: Option<String>,
    /// The colour of the playback controls.
    pub controls: Option<String>,
    /// The colour of the played part of the play bar.
    pub playbar: Option<String>,
}

/// The settings read from `~/.config/GLAP/config.toml`.
pub struct Config {
    /// Overrides the music folder of the system.
    pub music_folder: Option<String>,
    /// When true, files that cannot be played are listed too.
    pub dont_filter_unplayable: Option<bool>,
    /// The colours of the interface.
    pub theme: Option<Theme>,
}

impl Default for Theme {
    /// A theme that sets no colour.
    fn default() -> (r: Self)
        ensures
            r.foreground is None,
            r.background is None,
            r.controls is None,
            r.playbar is None,
    {
        Theme { foreground: None, background: None, controls: None, playbar: None }
    }
}

impl Default for Config {
    /// A configuration that sets nothing.
    fn default() -> (r: Self)
        ensures
            r.music_folder is None,
            r.dont_filter_unplayable is None,
            r.theme is None,
    {
        Config { music_folder: None, dont_filter_unplayable: None, theme: None }
    }
}

/// The folder the file explorer opens in: the configured music folder when
/// there is one, else the system's audio folder, if it has one.
pub fn start_folder(music_folder: Option<String>, audio_dir: Option<String>) -> (r: Option<
    String,
>)
    ensures
        r == (match music_folder {
            Some(m) => Some(m),
            None => audio_dir,
        }),
{
    match music_folder {
        Some(m) => Some(m),
        None => audio_dir,
    }
}

/// The colours of a theme, each read from its text; `None` where the theme
/// sets none.
#[derive(Clone, Copy, Debug, PartialEq, Eq, Structural)]
pub struct ThemeColors {
    pub foreground: Option<Color>,
    pub background: Option<Color>,
    pub controls: Option<Color>,
    pub playbar: Option<Color>,
}

/// The colour that a theme entry writes, as `string_to_color` reads it.
pub open spec fn theme_color(entry: Option<String>) -> Option<Color> {
    match entry {
        Some(t) => Some(color_of(lowercase(t@), t@)),
        None => None,
    }
}

/// Reads one theme entry.
fn entry_color(entry: &Option<String>) -> (r: Option<Color>)
    ensures
        r == theme_color(*entry),
{
    match entry {
        Some(t) => Some(string_to_color(t.clone())),
        None => None,
    }
}

impl Theme {
    /// The colours that the theme sets.
    pub fn colors(&self) -> (r: ThemeColors)
        ensures
            r.foreground == theme_color(self.foreground),
            r.background == theme_color(self.background),
            r.controls == theme_color(self.controls),
            r.playbar == theme_color(self.playbar),
    {
        ThemeColors {
            foreground: entry_color(&self.foreground),
            background: entry_color(&self.background),
            controls: entry_color(&self.controls),
            playbar: entry_color(&self.playbar),
        }
    }
}

} // verus!
