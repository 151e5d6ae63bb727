use vstd::prelude::*;

verus! {

/// The light theme presets of the interface.
#[derive(Clone, Copy, Debug, PartialEq, Eq, Structural)]
pub enum LightThemePreset {
    Default,
    Latte,
    Crab,
}

/// The dark theme presets of the interface.
#[derive(Clone, Copy, Debug, PartialEq, Eq, Structural)]
pub enum DarkThemePreset {
    Default,
    Frappe,
    Macchiato,
    Mocha,
    Blackpink,
}

/// An ANSI 16-color terminal palette, colors written as `#rrggbb`.
#[derive(Debug)]
pub struct AnsiPalette {
    pub foreground: String,
    pub background: String,
    pub black: String,
    pub red: String,
    pub green: String,
    pub yellow: String,
    pub blue: String,
    pub magenta: String,
    pub cyan: String,
    pub white: String,
    pub bright_black: String,
    pub bright_red: String,
    pub bright_green: String,
    pub bright_yellow: String,
    pub bright_blue: String,
    pub bright_magenta: String,
    pub bright_cyan: String,
    pub bright_white: String,
    pub bright_foreground: Option<String>,
    pub dim_foreground: String,
    pub dim_black: String,
    pub dim_red: String,
    pub dim_green: String,
    pub dim_yellow: String,
    pub dim_blue: String,
    pub dim_magenta: String,
    pub dim_cyan: String,
    pub dim_white: String,
}

/// Which palette the terminal uses.
#[derive(Clone, Copy, Debug, PartialEq, Eq, Structural)]
pub enum PaletteChoice {
    DefaultDark,
    Mocha,
    Macchiato,
    Frappe,
    Blackpink,
    Latte,
    Crab,
    DefaultLight,
}

/// The palette that matches the theme: the dark preset in dark mode, the light preset
/// otherwise.
pub open spec fn palette_choice(
    is_dark_mode: bool,
    light_theme: LightThemePreset,
    dark_theme: DarkThemePreset,
) -> PaletteChoice {
    if is_dark_mode {
        match dark_theme {
            DarkThemePreset::Default => PaletteChoice::DefaultDark,
            DarkThemePreset::Frappe => PaletteChoice::Frappe,
            DarkThemePreset::Macchiato => PaletteChoice::Macchiato,
            DarkThemePreset::Mocha => PaletteChoice::Mocha,
            DarkThemePreset::Blackpink => PaletteChoice::Blackpink,
        }
    } else {
        match light_theme {
            LightThemePreset::Default => PaletteChoice::DefaultLight,
            LightThemePreset::Latte => PaletteChoice::Latte,
            LightThemePreset::Crab => PaletteChoice::Crab,
        }
    }
}

/// The palette that matches the theme.
pub fn palette_choice_for_theme(
    is_dark_mode: bool,
    light_theme: LightThemePreset,
    dark_theme: DarkThemePreset,
) -> (r: PaletteChoice)
    ensures
        r == palette_choice(is_dark_mode, light_theme, dark_theme),
{
    if is_dark_mode {
        match dark_theme {
            DarkThemePreset::Default => PaletteChoice::DefaultDark,
            DarkThemePreset::Frappe => PaletteChoice::Frappe,
            DarkThemePreset::Macchiato => PaletteChoice::Macchiato,
            DarkThemePreset::Mocha => PaletteChoice::Mocha,
            DarkThemePreset::Blackpink => PaletteChoice::Blackpink,
        }
    } else {
        match light_theme {
            LightThemePreset::Default => PaletteChoice::DefaultLight,
            LightThemePreset::Latte => PaletteChoice::Latte,
            LightThemePreset::Crab => PaletteChoice::Crab,
        }
    }
}

/// Whether `p` holds the colors of the `mocha` palette.
pub open spec fn is_mocha(p: AnsiPalette) -> bool {
    &&& p.foreground@ == "#cdd6f4"@
    &&& p.background@ == "#1e1e2e"@
    &&& p.black@ == "#45475a"@
    &&& p.red@ == "#f38ba8"@
    &&& p.green@ == "#a6e3a1"@
    &&& p.yellow@ == "#f9e2af"@
    &&& p.blue@ == "#89b4fa"@
    &&& p.magenta@ == "#f5c2e7"@
    &&& p.cyan@ == "#94e2d5"@
    &&& p.white@ == "#bac2de"@
    &&& p.bright_black@ == "#585b70"@
    &&& p.bright_red@ == "#f38ba8"@
    &&& p.bright_green@ == "#a6e3a1"@
    &&& p.bright_yellow@ == "#f9e2af"@
    &&& p.bright_blue@ == "#89b4fa"@
    &&& p.bright_magenta@ == "#f5c2e7"@
    &&& p.bright_cyan@ == "#94e2d5"@
    &&& p.bright_white@ == "#a6adc8"@
    &&& p.bright_foreground is Some && p.bright_foreground->0@ == "#cdd6f4"@
    &&& p.dim_foreground@ == "#7f849c"@
    &&& p.dim_black@ == "#45475a"@
    &&& p.dim_red@ == "#f38ba8"@
    &&& p.dim_green@ == "#a6e3a1"@
    &&& p.dim_yellow@ == "#f9e2af"@
    &&& p.dim_blue@ == "#89b4fa"@
    &&& p.dim_magenta@ == "#f5c2e7"@
    &&& p.dim_cyan@ == "#94e2d5"@
    &&& p.dim_white@ == "#bac2de"@
}

/// Catppuccin Mocha ANSI palette (dark default).
pub fn mocha_palette() -> (p: AnsiPalette)
    ensures
        is_mocha(p),
{
    AnsiPalette {
        foreground: "#cdd6f4".to_owned(),
        background: "#1e1e2e".to_owned(),
        black: "#45475a".to_owned(),
        red: "#f38ba8".to_owned(),
        green: "#a6e3a1".to_owned(),
        yellow: "#f9e2af".to_owned(),
        blue: "#89b4fa".to_owned(),
        magenta: "#f5c2e7".to_owned(),
        cyan: "#94e2d5".to_owned(),
        white: "#bac2de".to_owned(),
        bright_black: "#585b70".to_owned(),
        bright_red: "#f38ba8".to_owned(),
        bright_green: "#a6e3a1".to_owned(),
        bright_yellow: "#f9e2af".to_owned(),
        bright_blue: "#89b4fa".to_owned(),
        bright_magenta: "#f5c2e7".to_owned(),
        bright_cyan: "#94e2d5".to_owned(),
        bright_white: "#a6adc8".to_owned(),
        bright_foreground: Some("#cdd6f4".to_owned()),
        dim_foreground: "#7f849c".to_owned(),
        dim_black: "#45475a".to_owned(),
        dim_red: "#f38ba8".to_owned(),
        dim_green: "#a6e3a1".to_owned(),
        dim_yellow: "#f9e2af".to_owned(),
        dim_blue: "#89b4fa".to_owned(),
        dim_magenta: "#f5c2e7".to_owned(),
        dim_cyan: "#94e2d5".to_owned(),
        dim_white: "#bac2de".to_owned(),
    }
}

/// Whether `p` holds the colors of the `macchiato` palette.
pub open spec fn is_macchiato(p: AnsiPalette) -> bool {
    &&& p.foreground@ == "#cad3f5"@
    &&& p.background@ == "#24273a"@
    &&& p.black@ == "#494d64"@
    &&& p.red@ == "#ed8796"@
    &&& p.green@ == "#a6da95"@
    &&& p.yellow@ == "#eed49f"@
    &&& p.blue@ == "#8aadf4"@
    &&& p.magenta@ == "#f5bde6"@
    &&& p.cyan@ == "#8bd5ca"@
    &&& p.white@ == "#b8c0e0"@
    &&& p.bright_black@ == "#5b6078"@
    &&& p.bright_red@ == "#ed8796"@
    &&& p.bright_green@ == "#a6da95"@
    &&& p.bright_yellow@ == "#eed49f"@
    &&& p.bright_blue@ == "#8aadf4"@
    &&& p.bright_magenta@ == "#f5bde6"@
    &&& p.bright_cyan@ == "#8bd5ca"@
    &&& p.bright_white@ == "#a5adcb"@
    &&& p.bright_foreground is Some && p.bright_foreground->0@ == "#cad3f5"@
    &&& p.dim_foreground@ == "#8087a2"@
    &&& p.dim_black@ == "#494d64"@
    &&& p.dim_red@ == "#ed8796"@
    &&& p.dim_green@ == "#a6da95"@
    &&& p.dim_yellow@ == "#eed49f"@
    &&& p.dim_blue@ == "#8aadf4"@
    &&& p.dim_magenta@ == "#f5bde6"@
    &&& p.dim_cyan@ == "#8bd5ca"@
    &&& p.dim_white@ == "#b8c0e0"@
}

/// Catppuccin Macchiato ANSI palette (dark).
pub fn macchiato_palette() -> (p: AnsiPalette)
    ensures
        is_macchiato(p),
{
    AnsiPalette {
        foreground: "#cad3f5".to_owned(),
        background: "#24273a".to_owned(),
        black: "#494d64".to_owned(),
        red: "#ed8796".to_owned(),
        green: "#a6da95".to_owned(),
        yellow: "#eed49f".to_owned(),
        blue: "#8aadf4".to_owned(),
        magenta: "#f5bde6".to_owned(),
        cyan: "#8bd5ca".to_owned(),
        white: "#b8c0e0".to_owned(),
        bright_black: "#5b6078".to_owned(),
        bright_red: "#ed8796".to_owned(),
        bright_green: "#a6da95".to_owned(),
        bright_yellow: "#eed49f".to_owned(),
        bright_blue: "#8aadf4".to_owned(),
        bright_magenta: "#f5bde6".to_owned(),
        bright_cyan: "#8bd5ca".to_owned(),
        bright_white: "#a5adcb".to_owned(),
        bright_foreground: Some("#cad3f5".to_owned()),
        dim_foreground: "#8087a2".to_owned(),
        dim_black: "#494d64".to_owned(),
        dim_red: "#ed8796".to_owned(),
        dim_green: "#a6da95".to_owned(),
        dim_yellow: "#eed49f".to_owned(),
        dim_blue: "#8aadf4".to_owned(),
        dim_magenta: "#f5bde6".to_owned(),
        dim_cyan: "#8bd5ca".to_owned(),
        dim_white: "#b8c0e0".to_owned(),
    }
}

/// Whether `p` holds the colors of the `frappe` palette.
pub open spec fn is_frappe(p: AnsiPalette) -> bool {
    &&& p.foreground@ == "#c6d0f5"@
    &&& p.background@ == "#303446"@
    &&& p.black@ == "#51576d"@
    &&& p.red@ == "#e78284"@
    &&& p.green@ == "#a6d189"@
    &&& p.yellow@ == "#e5c890"@
    &&& p.blue@ == "#8caaee"@
    &&& p.magenta@ == "#f4b8e4"@
    &&& p.cyan@ == "#81c8be"@
    &&& p.white@ == "#b5bfe2"@
    &&& p.bright_black@ == "#626880"@
    &&& p.bright_red@ == "#e78284"@
    &&& p.bright_green@ == "#a6d189"@
    &&& p.bright_yellow@ == "#e5c890"@
    &&& p.bright_blue@ == "#8caaee"@
    &&& p.bright_magenta@ == "#f4b8e4"@
    &&& p.bright_cyan@ == "#81c8be"@
    &&& p.bright_white@ == "#a5adce"@
    &&& p.bright_foreground is Some && p.bright_foreground->0@ == "#c6d0f5"@
    &&& p.dim_foreground@ == "#838ba7"@
    &&& p.dim_black@ == "#51576d"@
    &&& p.dim_red@ == "#e78284"@
    &&& p.dim_green@ == "#a6d189"@
    &&& p.dim_yellow@ == "#e5c890"@
    &&& p.dim_blue@ == "#8caaee"@
    &&& p.dim_magenta@ == "#f4b8e4"@
    &&& p.dim_cyan@ == "#81c8be"@
    &&& p.dim_white@ == "#b5bfe2"@
}

/// Catppuccin Frappé ANSI palette (dark).
pub fn frappe_palette() -> (p: AnsiPalette)
    ensures
        is_frappe(p),
{
    AnsiPalette {
        foreground: "#c6d0f5".to_owned(),
        background: "#303446".to_owned(),
        black: "#51576d".to_owned(),
        red: "#e78284".to_owned(),
        green: "#a6d189".to_owned(),
        yellow: "#e5c890".to_owned(),
        blue: "#8caaee".to_owned(),
        magenta: "#f4b8e4".to_owned(),
        cyan: "#81c8be".to_owned(),
        white: "#b5bfe2".to_owned(),
        bright_black: "#626880".to_owned(),
        bright_red: "#e78284".to_owned(),
        bright_green: "#a6d189".to_owned(),
        bright_yellow: "#e5c890".to_owned(),
        bright_blue: "#8caaee".to_owned(),
        bright_magenta: "#f4b8e4".to_owned(),
        bright_cyan: "#81c8be".to_owned(),
        bright_white: "#a5adce".to_owned(),
        bright_foreground: Some("#c6d0f5".to_owned()),
        dim_foreground: "#838ba7".to_owned(),
        dim_black: "#51576d".to_owned(),
        dim_red: "#e78284".to_owned(),
        dim_green: "#a6d189".to_owned(),
        dim_yellow: "#e5c890".to_owned(),
        dim_blue: "#8caaee".to_owned(),
        dim_magenta: "#f4b8e4".to_owned(),
        dim_cyan: "#81c8be".to_owned(),
        dim_white: "#b5bfe2".to_owned(),
    }
}

/// Whether `p` holds the colors of the `blackpink` palette.
pub open spec fn is_blackpink(p: AnsiPalette) -> bool {
    &&& p.foreground@ == "#FBF3F8"@
    &&& p.background@ == "#0B080D"@
    &&& p.black@ == "#18011B"@
    &&& p.red@ == "#FF779E"@
    &&& p.green@ == "#A6E3A1"@
    &&& p.yellow@ == "#FFC56E"@
    &&& p.blue@ == "#82B4FA"@
    &&& p.magenta@ == "#FF69B4"@
    &&& p.cyan@ == "#93D3C3"@
    &&& p.white@ == "#B8C0D0"@
    &&& p.bright_black@ == "#241422"@
    &&& p.bright_red@ == "#FFA6D5"@
    &&& p.bright_green@ == "#AAC474"@
    &&& p.bright_yellow@ == "#FECA88"@
    &&& p.bright_blue@ == "#89B4FA"@
    &&& p.bright_magenta@ == "#FFA6D5"@
    &&& p.bright_cyan@ == "#8BD5CA"@
    &&& p.bright_white@ == "#A5ADCB"@
    &&& p.bright_foreground is Some && p.bright_foreground->0@ == "#FBF3F8"@
    &&& p.dim_foreground@ == "#B85190"@
    &&& p.dim_black@ == "#18011B"@
    &&& p.dim_red@ == "#FF779E"@
    &&& p.dim_green@ == "#A6E3A1"@
    &&& p.dim_yellow@ == "#FFC56E"@
    &&& p.dim_blue@ == "#82B4FA"@
    &&& p.dim_magenta@ == "#FF69B4"@
    &&& p.dim_cyan@ == "#93D3C3"@
    &&& p.dim_white@ == "#B8C0D0"@
}

/// Blackpink ANSI palette (dark) — derived from `BlackpinkTheme` in klaw-ui-kit.
pub fn blackpink_palette() -> (p: AnsiPalette)
    ensures
        is_blackpink(p),
{
    AnsiPalette {
        foreground: "#FBF3F8".to_owned(),
        background: "#0B080D".to_owned(),
        black: "#18011B".to_owned(),
        red: "#FF779E".to_owned(),
        green: "#A6E3A1".to_owned(),
        yellow: "#FFC56E".to_owned(),
        blue: "#82B4FA".to_owned(),
        magenta: "#FF69B4".to_owned(),
        cyan: "#93D3C3".to_owned(),
        white: "#B8C0D0".to_owned(),
        bright_black: "#241422".to_owned(),
        bright_red: "#FFA6D5".to_owned(),
        bright_green: "#AAC474".to_owned(),
        bright_yellow: "#FECA88".to_owned(),
        bright_blue: "#89B4FA".to_owned(),
        bright_magenta: "#FFA6D5".to_owned(),
        bright_cyan: "#8BD5CA".to_owned(),
        bright_white: "#A5ADCB".to_owned(),
        bright_foreground: Some("#FBF3F8".to_owned()),
        dim_foreground: "#B85190".to_owned(),
        dim_black: "#18011B".to_owned(),
        dim_red: "#FF779E".to_owned(),
        dim_green: "#A6E3A1".to_owned(),
        dim_yellow: "#FFC56E".to_owned(),
        dim_blue: "#82B4FA".to_owned(),
        dim_magenta: "#FF69B4".to_owned(),
        dim_cyan: "#93D3C3".to_owned(),
        dim_white: "#B8C0D0".to_owned(),
    }
}

/// Whether `p` holds the colors of the `latte` palette.
pub open spec fn is_latte(p: AnsiPalette) -> bool {
    &&& p.foreground@ == "#4c4f69"@
    &&& p.background@ == "#eff1f5"@
    &&& p.black@ == "#bcc0cc"@
    &&& p.red@ == "#d20f39"@
    &&& p.green@ == "#40a02b"@
    &&& p.yellow@ == "#df8e1d"@
    &&& p.blue@ == "#1e66f5"@
    &&& p.magenta@ == "#ea76cb"@
    &&& p.cyan@ == "#179299"@
    &&& p.white@ == "#5c5f77"@
    &&& p.bright_black@ == "#acb0be"@
    &&& p.bright_red@ == "#d20f39"@
    &&& p.bright_green@ == "#40a02b"@
    &&& p.bright_yellow@ == "#df8e1d"@
    &&& p.bright_blue@ == "#1e66f5"@
    &&& p.bright_magenta@ == "#ea76cb"@
    &&& p.bright_cyan@ == "#179299"@
    &&& p.bright_white@ == "#6c6f85"@
    &&& p.bright_foreground is Some && p.bright_foreground->0@ == "#4c4f69"@
    &&& p.dim_foreground@ == "#8c8fa1"@
    &&& p.dim_black@ == "#bcc0cc"@
    &&& p.dim_red@ == "#d20f39"@
    &&& p.dim_green@ == "#40a02b"@
    &&& p.dim_yellow@ == "#df8e1d"@
    &&& p.dim_blue@ == "#1e66f5"@
    &&& p.dim_magenta@ == "#ea76cb"@
    &&& p.dim_cyan@ == "#179299"@
    &&& p.dim_white@ == "#5c5f77"@
}

/// Catppuccin Latte ANSI palette (light).
pub fn latte_palette() -> (p: AnsiPalette)
    ensures
        is_latte(p),
{
    AnsiPalette {
        foreground: "#4c4f69".to_owned(),
        background: "#eff1f5".to_owned(),
        black: "#bcc0cc".to_owned(),
        red: "#d20f39".to_owned(),
        green: "#40a02b".to_owned(),
        yellow: "#df8e1d".to_owned(),
        blue: "#1e66f5".to_owned(),
        magenta: "#ea76cb".to_owned(),
        cyan: "#179299".to_owned(),
        white: "#5c5f77".to_owned(),
        bright_black: "#acb0be".to_owned(),
        bright_red: "#d20f39".to_owned(),
        bright_green: "#40a02b".to_owned(),
        bright_yellow: "#df8e1d".to_owned(),
        bright_blue: "#1e66f5".to_owned(),
        bright_magenta: "#ea76cb".to_owned(),
        bright_cyan: "#179299".to_owned(),
        bright_white: "#6c6f85".to_owned(),
        bright_foreground: Some("#4c4f69".to_owned()),
        dim_foreground: "#8c8fa1".to_owned(),
        dim_black: "#bcc0cc".to_owned(),
        dim_red: "#d20f39".to_owned(),
        dim_green: "#40a02b".to_owned(),
        dim_yellow: "#df8e1d".to_owned(),
        dim_blue: "#1e66f5".to_owned(),
        dim_magenta: "#ea76cb".to_owned(),
        dim_cyan: "#179299".to_owned(),
        dim_white: "#5c5f77".to_owned(),
    }
}

/// Whether `p` holds the colors of the `crab` palette.
pub open spec fn is_crab(p: AnsiPalette) -> bool {
    &&& p.foreground@ == "#603038"@
    &&& p.background@ == "#FFFCF8"@
    &&& p.black@ == "#CCA172"@
    &&& p.red@ == "#C05A44"@
    &&& p.green@ == "#5F6F3A"@
    &&& p.yellow@ == "#D0A058"@
    &&& p.blue@ == "#E87050"@
    &&& p.magenta@ == "#603038"@
    &&& p.cyan@ == "#4D7770"@
    &&& p.white@ == "#603038"@
    &&& p.bright_black@ == "#F4E8DA"@
    &&& p.bright_red@ == "#E87050"@
    &&& p.bright_green@ == "#90A959"@
    &&& p.bright_yellow@ == "#F4BF75"@
    &&& p.bright_blue@ == "#82B8C8"@
    &&& p.bright_magenta@ == "#AA759F"@
    &&& p.bright_cyan@ == "#75B5AA"@
    &&& p.bright_white@ == "#8E8E8E"@
    &&& p.bright_foreground is None
    &&& p.dim_foreground@ == "#603038"@
    &&& p.dim_black@ == "#CCA172"@
    &&& p.dim_red@ == "#C05A44"@
    &&& p.dim_green@ == "#5F6F3A"@
    &&& p.dim_yellow@ == "#D0A058"@
    &&& p.dim_blue@ == "#E87050"@
    &&& p.dim_magenta@ == "#603038"@
    &&& p.dim_cyan@ == "#4D7770"@
    &&& p.dim_white@ == "#603038"@
}

/// Crab ANSI palette (light) — derived from `CrabTheme` in klaw-ui-kit.
pub fn crab_palette() -> (p: AnsiPalette)
    ensures
        is_crab(p),
{
    AnsiPalette {
        foreground: "#603038".to_owned(),
        background: "#FFFCF8".to_owned(),
        black: "#CCA172".to_owned(),
        red: "#C05A44".to_owned(),
        green: "#5F6F3A".to_owned(),
        yellow: "#D0A058".to_owned(),
        blue: "#E87050".to_owned(),
        magenta: "#603038".to_owned(),
        cyan: "#4D7770".to_owned(),
        white: "#603038".to_owned(),
        bright_black: "#F4E8DA".to_owned(),
        bright_red: "#E87050".to_owned(),
        bright_green: "#90A959".to_owned(),
        bright_yellow: "#F4BF75".to_owned(),
        bright_blue: "#82B8C8".to_owned(),
        bright_magenta: "#AA759F".to_owned(),
        bright_cyan: "#75B5AA".to_owned(),
        bright_white: "#8E8E8E".to_owned(),
        bright_foreground: None,
        dim_foreground: "#603038".to_owned(),
        dim_black: "#CCA172".to_owned(),
        dim_red: "#C05A44".to_owned(),
        dim_green: "#5F6F3A".to_owned(),
        dim_yellow: "#D0A058".to_owned(),
        dim_blue: "#E87050".to_owned(),
        dim_magenta: "#603038".to_owned(),
        dim_cyan: "#4D7770".to_owned(),
        dim_white: "#603038".to_owned(),
    }
}

/// Whether `p` holds the colors of the `default_light` palette.
pub open spec fn is_default_light(p: AnsiPalette) -> bool {
    &&& p.foreground@ == "#383a42"@
    &&& p.background@ == "#fafafa"@
    &&& p.black@ == "#383a42"@
    &&& p.red@ == "#e45649"@
    &&& p.green@ == "#50a14f"@
    &&& p.yellow@ == "#c18401"@
    &&& p.blue@ == "#4078f2"@
    &&& p.magenta@ == "#a626a4"@
    &&& p.cyan@ == "#0184bc"@
    &&& p.white@ == "#a0a1a7"@
    &&& p.bright_black@ == "#4f525e"@
    &&& p.bright_red@ == "#e06c75"@
    &&& p.bright_green@ == "#98c379"@
    &&& p.bright_yellow@ == "#e5c07b"@
    &&& p.bright_blue@ == "#61afef"@
    &&& p.bright_magenta@ == "#c678dd"@
    &&& p.bright_cyan@ == "#56b6c2"@
    &&& p.bright_white@ == "#e5e5e5"@
    &&& p.bright_foreground is None
    &&& p.dim_foreground@ == "#a0a1a7"@
    &&& p.dim_black@ == "#383a42"@
    &&& p.dim_red@ == "#e45649"@
    &&& p.dim_green@ == "#50a14f"@
    &&& p.dim_yellow@ == "#c18401"@
    &&& p.dim_blue@ == "#4078f2"@
    &&& p.dim_magenta@ == "#a626a4"@
    &&& p.dim_cyan@ == "#0184bc"@
    &&& p.dim_white@ == "#a0a1a7"@
}

/// Default light palette — classic light terminal colours with a light background.
pub fn default_light_palette() -> (p: AnsiPalette)
    ensures
        is_default_light(p),
{
    AnsiPalette {
        foreground: "#383a42".to_owned(),
        background: "#fafafa".to_owned(),
        black: "#383a42".to_owned(),
        red: "#e45649".to_owned(),
        green: "#50a14f".to_owned(),
        yellow: "#c18401".to_owned(),
        blue: "#4078f2".to_owned(),
        magenta: "#a626a4".to_owned(),
        cyan: "#0184bc".to_owned(),
        white: "#a0a1a7".to_owned(),
        bright_black: "#4f525e".to_owned(),
        bright_red: "#e06c75".to_owned(),
        bright_green: "#98c379".to_owned(),
        bright_yellow: "#e5c07b".to_owned(),
        bright_blue: "#61afef".to_owned(),
        bright_magenta: "#c678dd".to_owned(),
        bright_cyan: "#56b6c2".to_owned(),
        bright_white: "#e5e5e5".to_owned(),
        bright_foreground: None,
        dim_foreground: "#a0a1a7".to_owned(),
        dim_black: "#383a42".to_owned(),
        dim_red: "#e45649".to_owned(),
        dim_green: "#50a14f".to_owned(),
        dim_yellow: "#c18401".to_owned(),
        dim_blue: "#4078f2".to_owned(),
        dim_magenta: "#a626a4".to_owned(),
        dim_cyan: "#0184bc".to_owned(),
        dim_white: "#a0a1a7".to_owned(),
    }
}

/// Whether `p` holds the colors of the terminal widget's own dark palette, the one
/// `egui_term::ColorPalette::default()` gives.
pub open spec fn is_default_dark(p: AnsiPalette) -> bool {
    &&& p.foreground@ == "#d8d8d8"@
    &&& p.background@ == "#181818"@
    &&& p.black@ == "#181818"@
    &&& p.red@ == "#ac4242"@
    &&& p.green@ == "#90a959"@
    &&& p.yellow@ == "#f4bf75"@
    &&& p.blue@ == "#6a9fb5"@
    &&& p.magenta@ == "#aa759f"@
    &&& p.cyan@ == "#75b5aa"@
    &&& p.white@ == "#d8d8d8"@
    &&& p.bright_black@ == "#6b6b6b"@
    &&& p.bright_red@ == "#c55555"@
    &&& p.bright_green@ == "#aac474"@
    &&& p.bright_yellow@ == "#feca88"@
    &&& p.bright_blue@ == "#82b8c8"@
    &&& p.bright_magenta@ == "#c28cb8"@
    &&& p.bright_cyan@ == "#93d3c3"@
    &&& p.bright_white@ == "#f8f8f8"@
    &&& p.bright_foreground is None
    &&& p.dim_foreground@ == "#828482"@
    &&& p.dim_black@ == "#0f0f0f"@
    &&& p.dim_red@ == "#712b2b"@
    &&& p.dim_green@ == "#5f6f3a"@
    &&& p.dim_yellow@ == "#a17e4d"@
    &&& p.dim_blue@ == "#456877"@
    &&& p.dim_magenta@ == "#704d68"@
    &&& p.dim_cyan@ == "#4d7770"@
    &&& p.dim_white@ == "#8e8e8e"@
}

/// `egui_term::ColorPalette::default()`, field by field. Its source sets each color to a
/// fixed string; the contract repeats those strings (`is_default_dark`).
#[verifier::external_body]
fn terminal_widget_palette() -> (p: AnsiPalette)
    ensures
        is_default_dark(p),
{
    let c = egui_term::ColorPalette::default();
    AnsiPalette { foreground: c.foreground, background: c.background, black: c.black, red: c.red,
        green: c.green, yellow: c.yellow, blue: c.blue, magenta: c.magenta, cyan: c.cyan,
        white: c.white, bright_black: c.bright_black, bright_red: c.bright_red,
        bright_green: c.bright_green, bright_yellow: c.bright_yellow, bright_blue: c.bright_blue,
        bright_magenta: c.bright_magenta, bright_cyan: c.bright_cyan, bright_white: c.bright_white,
        bright_foreground: c.bright_foreground, dim_foreground: c.dim_foreground,
        dim_black: c.dim_black, dim_red: c.dim_red, dim_green: c.dim_green,
        dim_yellow: c.dim_yellow, dim_blue: c.dim_blue, dim_magenta: c.dim_magenta,
        dim_cyan: c.dim_cyan, dim_white: c.dim_white }
}

/// The default dark palette: the terminal widget's own colors.
pub fn default_dark_palette() -> (p: AnsiPalette)
    ensures
        is_default_dark(p),
{
    terminal_widget_palette()
}

/// The palette that matches the theme: the dark preset selects it in dark mode, the light
/// preset otherwise.
pub fn palette_for_theme(
    is_dark_mode: bool,
    light_theme: LightThemePreset,
    dark_theme: DarkThemePreset,
) -> (r: AnsiPalette)
    ensures
        match palette_choice(is_dark_mode, light_theme, dark_theme) {
            PaletteChoice::DefaultDark => is_default_dark(r),
            PaletteChoice::Mocha => is_mocha(r),
            PaletteChoice::Macchiato => is_macchiato(r),
            PaletteChoice::Frappe => is_frappe(r),
            PaletteChoice::Blackpink => is_blackpink(r),
            PaletteChoice::Latte => is_latte(r),
            PaletteChoice::Crab => is_crab(r),
            PaletteChoice::DefaultLight => is_default_light(r),
        },
{
    match palette_choice_for_theme(is_dark_mode, light_theme, dark_theme) {
        PaletteChoice::DefaultDark => default_dark_palette(),
        PaletteChoice::Mocha => mocha_palette(),
        PaletteChoice::Macchiato => macchiato_palette(),
        PaletteChoice::Frappe => frappe_palette(),
        PaletteChoice::Blackpink => blackpink_palette(),
        PaletteChoice::Latte => latte_palette(),
        PaletteChoice::Crab => crab_palette(),
        PaletteChoice::DefaultLight => default_light_palette(),
    }
}

/// Whether `p` is one of the preset palettes.
pub open spec fn is_preset_palette(p: AnsiPalette) -> bool {
    is_mocha(p) || is_macchiato(p) || is_frappe(p) || is_blackpink(p) || is_latte(p) || is_crab(p)
        || is_default_light(p)
}

/// In every preset palette the dim colors are the normal colors: dimming is left to the
/// renderer.
pub proof fn lemma_dim_mirrors_normal(p: AnsiPalette)
    requires
        is_preset_palette(p),
    ensures
        p.dim_black@ == p.black@,
        p.dim_red@ == p.red@,
        p.dim_green@ == p.green@,
        p.dim_yellow@ == p.yellow@,
        p.dim_blue@ == p.blue@,
        p.dim_magenta@ == p.magenta@,
        p.dim_cyan@ == p.cyan@,
        p.dim_white@ == p.white@,
{
}

} // verus!
