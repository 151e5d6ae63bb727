use klaw_gui::terminal_palette::{
    blackpink_palette, crab_palette, default_dark_palette, default_light_palette,
    frappe_palette, latte_palette, macchiato_palette, mocha_palette, palette_for_theme,
    AnsiPalette, DarkThemePreset, LightThemePreset,
};

fn background(p: AnsiPalette) -> Option<String> {
    Some(p.background)
}

#[test]
fn mocha_background_differs_from_default_dark() {
    let mocha = mocha_palette();
    let default = default_dark_palette();
    assert_ne!(mocha.background, default.background);
    assert_eq!(mocha.background, "#1e1e2e");
}

#[test]
fn macchiato_background_differs_from_default_dark() {
    let macchiato = macchiato_palette();
    let default = default_dark_palette();
    assert_ne!(macchiato.background, default.background);
    assert_eq!(macchiato.background, "#24273a");
}

#[test]
fn frappe_background_differs_from_default_dark() {
    let frappe = frappe_palette();
    let default = default_dark_palette();
    assert_ne!(frappe.background, default.background);
    assert_eq!(frappe.background, "#303446");
}

#[test]
fn blackpink_background_differs_from_default_dark() {
    let blackpink = blackpink_palette();
    let default = default_dark_palette();
    assert_ne!(blackpink.background, default.background);
    assert_eq!(blackpink.background, "#0B080D");
}

#[test]
fn dark_presets_have_distinct_backgrounds_from_each_other() {
    let backgrounds = [
        default_dark_palette().background,
        mocha_palette().background,
        macchiato_palette().background,
        frappe_palette().background,
        blackpink_palette().background,
    ];
    for (i, bg_i) in backgrounds.iter().enumerate() {
        for (j, bg_j) in backgrounds.iter().enumerate() {
            if i != j {
                assert_ne!(bg_i, bg_j, "dark preset backgrounds must differ");
            }
        }
    }
}

#[test]
fn palette_for_theme_switches_all_dark_presets() {
    for (preset, expected_bg) in [
        (DarkThemePreset::Default, "#181818"),
        (DarkThemePreset::Mocha, "#1e1e2e"),
        (DarkThemePreset::Macchiato, "#24273a"),
        (DarkThemePreset::Frappe, "#303446"),
        (DarkThemePreset::Blackpink, "#0B080D"),
    ] {
        let palette = palette_for_theme(true, LightThemePreset::Default, preset);
        assert_eq!(
            palette.background, expected_bg,
            "dark preset {preset:?} background mismatch"
        );
    }
}

#[test]
fn default_dark_palette_is_the_terminal_widget_default() {
    let ours = default_dark_palette();
    let theirs = egui_term::ColorPalette::default();
    let pairs = [
        (ours.foreground, theirs.foreground),
        (ours.background, theirs.background),
        (ours.black, theirs.black),
        (ours.red, theirs.red),
        (ours.green, theirs.green),
        (ours.yellow, theirs.yellow),
        (ours.blue, theirs.blue),
        (ours.magenta, theirs.magenta),
        (ours.cyan, theirs.cyan),
        (ours.white, theirs.white),
        (ours.bright_black, theirs.bright_black),
        (ours.bright_red, theirs.bright_red),
        (ours.bright_green, theirs.bright_green),
        (ours.bright_yellow, theirs.bright_yellow),
        (ours.bright_blue, theirs.bright_blue),
        (ours.bright_magenta, theirs.bright_magenta),
        (ours.bright_cyan, theirs.bright_cyan),
        (ours.bright_white, theirs.bright_white),
        (ours.dim_foreground, theirs.dim_foreground),
        (ours.dim_black, theirs.dim_black),
        (ours.dim_red, theirs.dim_red),
        (ours.dim_green, theirs.dim_green),
        (ours.dim_yellow, theirs.dim_yellow),
        (ours.dim_blue, theirs.dim_blue),
        (ours.dim_magenta, theirs.dim_magenta),
        (ours.dim_cyan, theirs.dim_cyan),
        (ours.dim_white, theirs.dim_white),
    ];
    for (a, b) in pairs {
        assert_eq!(a, b);
    }
    assert_eq!(ours.bright_foreground, theirs.bright_foreground);
}

#[test]
fn latte_background_differs_from_default_light() {
    let latte = latte_palette();
    let default = default_light_palette();
    assert_ne!(latte.background, default.background);
    assert_eq!(latte.background, "#eff1f5");
}

#[test]
fn crab_background_differs_from_default_light() {
    let crab = crab_palette();
    let default = default_light_palette();
    assert_ne!(crab.background, default.background);
    assert_eq!(crab.background, "#FFFCF8");
}

#[test]
fn light_presets_have_distinct_backgrounds_from_each_other() {
    let backgrounds = [
        default_light_palette().background,
        latte_palette().background,
        crab_palette().background,
    ];
    for (i, bg_i) in backgrounds.iter().enumerate() {
        for (j, bg_j) in backgrounds.iter().enumerate() {
            if i != j {
                assert_ne!(bg_i, bg_j, "light preset backgrounds must differ");
            }
        }
    }
}

#[test]
fn dark_presets_backgrounds_match_their_themes() {
    assert_eq!(mocha_palette().background, "#1e1e2e");
    assert_eq!(macchiato_palette().background, "#24273a");
    assert_eq!(frappe_palette().background, "#303446");
    assert_eq!(blackpink_palette().background, "#0B080D");
}

#[test]
fn palette_for_theme_returns_dark_palette_when_is_dark_mode_true() {
    let palette = palette_for_theme(true, LightThemePreset::Latte, DarkThemePreset::Mocha);
    assert_eq!(background(palette).as_deref(), Some("#1e1e2e"));
}

#[test]
fn palette_for_theme_returns_light_palette_when_is_dark_mode_false() {
    let palette = palette_for_theme(false, LightThemePreset::Latte, DarkThemePreset::Mocha);
    assert_eq!(background(palette).as_deref(), Some("#eff1f5"));
}

#[test]
fn palette_for_theme_switches_dark_presets_in_dark_mode() {
    for (preset, expected_bg) in [
        (DarkThemePreset::Mocha, "#1e1e2e"),
        (DarkThemePreset::Macchiato, "#24273a"),
        (DarkThemePreset::Frappe, "#303446"),
        (DarkThemePreset::Blackpink, "#0B080D"),
    ] {
        let palette = palette_for_theme(true, LightThemePreset::Default, preset);
        assert_eq!(background(palette).as_deref(), Some(expected_bg));
    }
}

#[test]
fn palette_for_theme_switches_all_light_presets() {
    for (preset, expected_bg) in [
        (LightThemePreset::Default, "#fafafa"),
        (LightThemePreset::Latte, "#eff1f5"),
        (LightThemePreset::Crab, "#FFFCF8"),
    ] {
        let palette = palette_for_theme(false, preset, DarkThemePreset::Default);
        assert_eq!(background(palette).as_deref(), Some(expected_bg));
    }
}

#[test]
fn mocha_foreground_and_background_match_official_values() {
    let mocha = mocha_palette();
    assert_eq!(mocha.foreground, "#cdd6f4");
    assert_eq!(mocha.background, "#1e1e2e");
}

#[test]
fn mocha_normal_colors_match_official_values() {
    let mocha = mocha_palette();
    assert_eq!(mocha.black, "#45475a");
    assert_eq!(mocha.red, "#f38ba8");
    assert_eq!(mocha.green, "#a6e3a1");
    assert_eq!(mocha.yellow, "#f9e2af");
    assert_eq!(mocha.blue, "#89b4fa");
    assert_eq!(mocha.magenta, "#f5c2e7");
    assert_eq!(mocha.cyan, "#94e2d5");
    assert_eq!(mocha.white, "#bac2de");
}

#[test]
fn mocha_bright_colors_match_official_values() {
    let mocha = mocha_palette();
    assert_eq!(mocha.bright_black, "#585b70");
    assert_eq!(mocha.bright_white, "#a6adc8");
}

#[test]
fn mocha_dim_foreground_and_bright_foreground_match_official() {
    let mocha = mocha_palette();
    assert_eq!(mocha.dim_foreground, "#7f849c");
    assert_eq!(mocha.bright_foreground, Some(String::from("#cdd6f4")));
}

#[test]
fn mocha_dim_colors_equal_normal_colors() {
    let mocha = mocha_palette();
    assert_eq!(mocha.dim_black, mocha.black);
    assert_eq!(mocha.dim_red, mocha.red);
    assert_eq!(mocha.dim_green, mocha.green);
    assert_eq!(mocha.dim_yellow, mocha.yellow);
    assert_eq!(mocha.dim_blue, mocha.blue);
    assert_eq!(mocha.dim_magenta, mocha.magenta);
    assert_eq!(mocha.dim_cyan, mocha.cyan);
    assert_eq!(mocha.dim_white, mocha.white);
}

#[test]
fn every_preset_keeps_dim_colors_equal_to_normal_colors() {
    for p in [
        mocha_palette(),
        macchiato_palette(),
        frappe_palette(),
        blackpink_palette(),
        latte_palette(),
        crab_palette(),
        default_light_palette(),
    ] {
        assert_eq!(p.dim_black, p.black);
        assert_eq!(p.dim_white, p.white);
        assert_eq!(p.dim_cyan, p.cyan);
    }
}
