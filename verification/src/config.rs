//! Process-wide user preferences: the auto-download and auto-remove flags
//! and the UI theme name. The preferences are loaded once at startup and
//! written back on every change; reading and writing the file is the
//! caller's business, this module only models the record.
use vstd::prelude::*;
use vstd::string::*;

verus! {

/// The persisted user preferences.
#[derive(Debug, Clone)]
pub struct CastironConfig {
    pub auto_dl_new: bool,
    pub auto_rm_after_listen: bool,
    pub theme: String,
}

/// The mathematical value of a `CastironConfig`.
pub struct CastironConfigView {
    pub auto_dl_new: bool,
    pub auto_rm_after_listen: bool,
    pub theme: Seq<char>,
}

impl View for CastironConfig {
    type V = CastironConfigView;

    open spec fn view(&self) -> CastironConfigView {
        CastironConfigView {
            auto_dl_new: self.auto_dl_new,
            auto_rm_after_listen: self.auto_rm_after_listen,
            theme: self.theme@,
        }
    }
}

impl DeepView for CastironConfig {
    type V = CastironConfigView;

    open spec fn deep_view(&self) -> CastironConfigView {
        self.view()
    }
}

/// The UI themes the client knows by name.
#[derive(Debug, Clone, Copy, PartialEq, Eq, Structural)]
pub enum ThemeKind {
    Light,
    Dark,
    Dracula,
    Nord,
    SolarizedLight,
    SolarizedDark,
    GruvboxLight,
    GruvboxDark,
    CatppuccinLatte,
    CatppuccinFrappe,
    CatppuccinMacchiato,
    CatppuccinMocha,
    TokyoNight,
    TokyoNightStorm,
    TokyoNightLight,
    KanagawaWave,
    KanagawaDragon,
    KanagawaLotus,
    Moonfly,
    Nightfly,
    Oxocarbon,
}

/// The theme a stored name stands for; an unknown name falls back to the
/// default theme.
pub open spec fn spec_theme_of_name(s: Seq<char>) -> ThemeKind {
    if s == "Light"@ {
        ThemeKind::Light
    } else if s == "Dark"@ {
        ThemeKind::Dark
    } else if s == "Dracula"@ {
        ThemeKind::Dracula
    } else if s == "Nord"@ {
        ThemeKind::Nord
    } else if s == "Solarized Light"@ {
        ThemeKind::SolarizedLight
    } else if s == "Solarized Dark"@ {
        ThemeKind::SolarizedDark
    } else if s == "Gruvbox Light"@ {
        ThemeKind::GruvboxLight
    } else if s == "Gruvbox Dark"@ {
        ThemeKind::GruvboxDark
    } else if s == "Catppuccin Latte"@ {
        ThemeKind::CatppuccinLatte
    } else if s == "Catppuccin Frappe"@ {
        ThemeKind::CatppuccinFrappe
    } else if s == "Catppuccin Macchiato"@ {
        ThemeKind::CatppuccinMacchiato
    } else if s == "Catppuccin Mocha"@ {
        ThemeKind::CatppuccinMocha
    } else if s == "Tokyo Night"@ {
        ThemeKind::TokyoNight
    } else if s == "Tokyo Night Storm"@ {
        ThemeKind::TokyoNightStorm
    } else if s == "Tokyo Night Light"@ {
        ThemeKind::TokyoNightLight
    } else if s == "Kanagawa Wave"@ {
        ThemeKind::KanagawaWave
    } else if s == "Kanagawa Dragon"@ {
        ThemeKind::KanagawaDragon
    } else if s == "Kanagawa Lotus"@ {
        ThemeKind::KanagawaLotus
    } else if s == "Moonfly"@ {
        ThemeKind::Moonfly
    } else if s == "Nightfly"@ {
        ThemeKind::Nightfly
    } else if s == "Oxocarbon"@ {
        ThemeKind::Oxocarbon
    } else {
        ThemeKind::Light
    }
}

/// The theme the stored preference names; any unknown name falls back
/// to the default theme.
pub fn convert_theme_string_to_enum(theme: &str) -> (r: ThemeKind)
    ensures
        r == spec_theme_of_name(theme@),
{
    if crate::text::str_eq(theme, "Light") {
        ThemeKind::Light
    } else if crate::text::str_eq(theme, "Dark") {
        ThemeKind::Dark
    } else if crate::text::str_eq(theme, "Dracula") {
        ThemeKind::Dracula
    } else if crate::text::str_eq(theme, "Nord") {
        ThemeKind::Nord
    } else if crate::text::str_eq(theme, "Solarized Light") {
        ThemeKind::SolarizedLight
    } else if crate::text::str_eq(theme, "Solarized Dark") {
        ThemeKind::SolarizedDark
    } else if crate::text::str_eq(theme, "Gruvbox Light") {
        ThemeKind::GruvboxLight
    } else if crate::text::str_eq(theme, "Gruvbox Dark") {
        ThemeKind::GruvboxDark
    } else if crate::text::str_eq(theme, "Catppuccin Latte") {
        ThemeKind::CatppuccinLatte
    } else if crate::text::str_eq(theme, "Catppuccin Frappe") {
        ThemeKind::CatppuccinFrappe
    } else if crate::text::str_eq(theme, "Catppuccin Macchiato") {
        ThemeKind::CatppuccinMacchiato
    } else if crate::text::str_eq(theme, "Catppuccin Mocha") {
        ThemeKind::CatppuccinMocha
    } else if crate::text::str_eq(theme, "Tokyo Night") {
        ThemeKind::TokyoNight
    } else if crate::text::str_eq(theme, "Tokyo Night Storm") {
        ThemeKind::TokyoNightStorm
    } else if crate::text::str_eq(theme, "Tokyo Night Light") {
        ThemeKind::TokyoNightLight
    } else if crate::text::str_eq(theme, "Kanagawa Wave") {
        ThemeKind::KanagawaWave
    } else if crate::text::str_eq(theme, "Kanagawa Dragon") {
        ThemeKind::KanagawaDragon
    } else if crate::text::str_eq(theme, "Kanagawa Lotus") {
        ThemeKind::KanagawaLotus
    } else if crate::text::str_eq(theme, "Moonfly") {
        ThemeKind::Moonfly
    } else if crate::text::str_eq(theme, "Nightfly") {
        ThemeKind::Nightfly
    } else if crate::text::str_eq(theme, "Oxocarbon") {
        ThemeKind::Oxocarbon
    } else {
        ThemeKind::Light
    }
}

impl Default for CastironConfig {
    /// The configuration written when none exists yet: both automatic
    /// behaviours off, the default theme.
    fn default() -> (r: CastironConfig)
        ensures
            !r@.auto_dl_new,
            !r@.auto_rm_after_listen,
            r@.theme == "Light"@,
    {
        CastironConfig {
            auto_dl_new: false,
            auto_rm_after_listen: false,
            theme: String::from_str("Light"),
        }
    }
}

} // verus!
