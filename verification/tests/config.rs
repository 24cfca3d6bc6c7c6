use smooth_terminal::config::{
    dark_colors, is_dark_background, light_colors, parse_hex_color, ColorsConfig,
    KeybindingsConfig, Rgba,
};

/// The channels of a colour on the scale from 0 to 1.
fn channels(c: Rgba) -> [f32; 4] {
    [c.r as f32 / 255.0, c.g as f32 / 255.0, c.b as f32 / 255.0, c.a as f32 / 255.0]
}

// ── parse_hex_color ─────────────────────────────────────────────────

#[test]
fn parse_hex_6_digit() {
    let c = channels(parse_hex_color("#ff0000").unwrap());
    assert!((c[0] - 1.0).abs() < 0.001);
    assert!((c[1]).abs() < 0.001);
    assert!((c[2]).abs() < 0.001);
    assert!((c[3] - 1.0).abs() < 0.001);
}

#[test]
fn parse_hex_8_digit() {
    let c = channels(parse_hex_color("#ff000080").unwrap());
    assert!((c[0] - 1.0).abs() < 0.001);
    assert!((c[3] - 128.0 / 255.0).abs() < 0.01);
}

#[test]
fn parse_hex_without_hash() {
    let c = channels(parse_hex_color("00ff00").unwrap());
    assert!((c[1] - 1.0).abs() < 0.001);
}

#[test]
fn parse_hex_invalid() {
    assert!(parse_hex_color("xyz").is_none());
    assert!(parse_hex_color("#gg0000").is_none());
    assert!(parse_hex_color("").is_none());
}

#[test]
fn parse_hex_wrong_length() {
    assert!(parse_hex_color("#fff").is_none());
    assert!(parse_hex_color("#fffffffff").is_none());
}

// ── is_dark_background ──────────────────────────────────────────────

#[test]
fn black_is_dark() {
    assert!(is_dark_background("#000000"));
}

#[test]
fn white_is_light() {
    assert!(!is_dark_background("#ffffff"));
}

#[test]
fn mid_gray_threshold() {
    // Luminance of #808080: 0.299*0.502 + 0.587*0.502 + 0.114*0.502 ≈ 0.502
    assert!(!is_dark_background("#808080"));
    // Darker gray
    assert!(is_dark_background("#333333"));
}

#[test]
fn invalid_hex_assumed_dark() {
    assert!(is_dark_background("not-a-color"));
}

// ── ColorsConfig::ansi_palette ──────────────────────────────────────

#[test]
fn ansi_palette_has_16_entries() {
    let colors = ColorsConfig::default();
    let palette = colors.ansi_palette();
    assert_eq!(palette.len(), 16);
}

#[test]
fn ansi_palette_index_0_is_black() {
    let colors = ColorsConfig::default();
    let palette = colors.ansi_palette();
    let expected = parse_hex_color(&colors.black).unwrap();
    assert_eq!(palette[0], expected);
}

#[test]
fn ansi_palette_index_8_is_bright_black() {
    let colors = ColorsConfig::default();
    let palette = colors.ansi_palette();
    let expected = parse_hex_color(&colors.bright_black).unwrap();
    assert_eq!(palette[8], expected);
}

// ── dark_colors / light_colors ──────────────────────────────────────

#[test]
fn dark_colors_bg_is_dark() {
    let c = dark_colors();
    assert!(is_dark_background(&c.background));
}

#[test]
fn light_colors_bg_is_light() {
    let c = light_colors();
    assert!(!is_dark_background(&c.background));
}

// ── Further cases ───────────────────────────────────────────────────

#[test]
fn parse_hex_exact_channels() {
    assert_eq!(parse_hex_color("#12aBcD"), Some(Rgba { r: 0x12, g: 0xab, b: 0xcd, a: 255 }));
    assert_eq!(parse_hex_color("#00ff7f80"), Some(Rgba { r: 0, g: 255, b: 127, a: 128 }));
    assert_eq!(parse_hex_color("##ffffff"), Some(Rgba { r: 255, g: 255, b: 255, a: 255 }));
    assert_eq!(parse_hex_color("#+f0000"), None);
    assert_eq!(parse_hex_color("#ff00 0"), None);
    assert_eq!(parse_hex_color("#\u{e9}\u{e9}\u{e9}"), None);
    assert_eq!(parse_hex_color("#1234567"), None);
    assert_eq!(parse_hex_color("#"), None);
}

#[test]
fn luminance_threshold() {
    // 299 r + 587 g + 114 b against 127500.
    assert!(is_dark_background("#7f7f7f"));
    assert!(!is_dark_background("#808080"));
    assert!(is_dark_background("#0000ff"));
    assert!(!is_dark_background("#00ff00"));
    assert!(is_dark_background("#ff0000"));
    assert!(!is_dark_background("#ffff00"));
}

#[test]
fn ansi_palette_unreadable_entry_is_white() {
    let mut colors = ColorsConfig::default();
    colors.red = "rouge".to_string();
    let palette = colors.ansi_palette();
    assert_eq!(palette[1], Rgba { r: 255, g: 255, b: 255, a: 255 });
    assert_eq!(palette[2], Rgba { r: 0xa6, g: 0xe3, b: 0xa1, a: 255 });
    assert_eq!(palette[15], Rgba { r: 0xa6, g: 0xad, b: 0xc8, a: 255 });
}

#[test]
fn theme_toggles_both_ways() {
    let dark = dark_colors();
    let light = light_colors();
    assert_eq!(dark.toggled(), light);
    assert_eq!(light.toggled(), dark);
    assert_eq!(ColorsConfig::default(), dark);
    assert_eq!(light.background, "#eff1f5");
    assert_eq!(light.bright_white, "#bcc0cc");
    assert_eq!(dark.cursor, "#bf00ff");
}

#[test]
fn default_keybindings() {
    let keys = KeybindingsConfig::default();
    assert_eq!(keys.split_horizontal, "Cmd+D");
    assert_eq!(keys.split_vertical, "Cmd+Shift+D");
    assert_eq!(keys.close_pane, "Cmd+W");
    assert_eq!(keys.focus_next, "Cmd+]");
    assert_eq!(keys.focus_prev, "Cmd+[");
}
