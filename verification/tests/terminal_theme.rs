use herdr::terminal_theme::{
    host_terminal_theme_query_sequence, osc_reset_default_color_sequence,
    osc_set_default_color_sequence, parse_default_color_response, parse_hex_component,
    parse_palette_color_response, parse_rgb_color, DefaultColorKind, HostAppearance,
    HostThemeBaseline, RgbColor, TerminalTheme, HOST_COLOR_QUERY_SEQUENCE,
    HOST_COLOR_SCHEME_QUERY_SEQUENCE, HOST_COLOR_SCHEME_REPORT_DISABLE_SEQUENCE,
    HOST_COLOR_SCHEME_REPORT_ENABLE_SEQUENCE,
};

fn rgb(r: u8, g: u8, b: u8) -> RgbColor {
    RgbColor { r, g, b }
}

#[test]
fn theme_baseline_requeries_only_on_scheme_changes() {
    let mut baseline = HostThemeBaseline::default();

    // Without any prior sweep, the first report must query.
    assert!(baseline.observe(HostAppearance::Dark));
    // Re-reports of the same scheme arrive on every focus gain; the
    // captured palette still stands.
    assert!(!baseline.observe(HostAppearance::Dark));
    // A genuine change invalidates the baseline.
    assert!(baseline.observe(HostAppearance::Light));
    assert!(!baseline.observe(HostAppearance::Light));
}

#[test]
fn theme_baseline_seeded_by_startup_sweep_skips_first_report() {
    let mut baseline = HostThemeBaseline::default();
    baseline.sweep_sent_before_first_report();

    // The startup sweep already captured the palette for whatever scheme
    // the host is in, so its first report is the baseline, not a change.
    assert!(!baseline.observe(HostAppearance::Dark));
    assert!(!baseline.observe(HostAppearance::Dark));
    assert!(baseline.observe(HostAppearance::Light));
}

#[test]
fn parses_st_terminated_rgb_response() {
    let parsed = parse_default_color_response("\x1b]10;rgb:cccc/dddd/eeee\x1b\\");
    assert_eq!(
        parsed,
        Some((
            DefaultColorKind::Foreground,
            RgbColor {
                r: 0xcc,
                g: 0xdd,
                b: 0xee,
            },
        ))
    );
}

#[test]
fn parses_bel_terminated_hash_response() {
    let parsed = parse_default_color_response("\x1b]11;#123456\u{7}");
    assert_eq!(
        parsed,
        Some((
            DefaultColorKind::Background,
            RgbColor {
                r: 0x12,
                g: 0x34,
                b: 0x56,
            },
        ))
    );
}

#[test]
fn parses_palette_responses_and_builds_full_query() {
    assert_eq!(
        parse_palette_color_response("\x1b]4;255;rgb:1111/2222/3333\x1b\\"),
        Some((
            255,
            RgbColor {
                r: 0x11,
                g: 0x22,
                b: 0x33,
            }
        ))
    );

    let query = host_terminal_theme_query_sequence(true);
    assert!(query.starts_with(HOST_COLOR_QUERY_SEQUENCE));
    assert!(query.contains("\x1b]4;0;?\x1b\\"));
    assert!(query.ends_with("\x1b]4;255;?\x1b\\"));
    assert_eq!(query.matches("\x1b]4;").count(), 256);

    assert_eq!(
        host_terminal_theme_query_sequence(false),
        HOST_COLOR_QUERY_SEQUENCE
    );
}

#[test]
fn default_color_reset_sequences_use_xterm_osc_numbers() {
    assert_eq!(
        osc_reset_default_color_sequence(DefaultColorKind::Foreground),
        "\x1b]110\x1b\\"
    );
    assert_eq!(
        osc_reset_default_color_sequence(DefaultColorKind::Background),
        "\x1b]111\x1b\\"
    );
}

#[test]
fn scales_short_hex_components() {
    assert_eq!(parse_hex_component("f"), Some(255));
    assert_eq!(parse_hex_component("80"), Some(128));
    assert_eq!(parse_hex_component("800"), Some(128));
    assert_eq!(parse_hex_component("8000"), Some(128));
}

#[test]
fn hex_components_need_one_to_four_hex_digits() {
    assert_eq!(parse_hex_component(""), None);
    assert_eq!(parse_hex_component("12345"), None);
    assert_eq!(parse_hex_component("1g"), None);
    assert_eq!(parse_hex_component("+1"), None);
    assert_eq!(parse_hex_component("é"), None);
    assert_eq!(parse_hex_component("0"), Some(0));
    assert_eq!(parse_hex_component("Ff"), Some(255));
    assert_eq!(parse_hex_component("7f80"), Some(127));
}

#[test]
fn hex_components_are_off_by_less_than_half_a_step() {
    for value in 0u64..=0xffff {
        let step = parse_hex_component(&format!("{value:04x}")).unwrap() as i64;
        let off = 2 * (step * 0xffff - value as i64 * 255);
        assert!(-0xffff < off && off < 0xffff, "{value:04x}");
    }
    for value in 0u64..=0xfff {
        let step = parse_hex_component(&format!("{value:03x}")).unwrap() as i64;
        let off = 2 * (step * 0xfff - value as i64 * 255);
        assert!(-0xfff < off && off < 0xfff, "{value:03x}");
    }
    for value in 0..=0xffu8 {
        assert_eq!(parse_hex_component(&format!("{value:02x}")), Some(value));
        assert_eq!(parse_hex_component(&format!("{value:02x}{value:02X}")), Some(value));
    }
}

#[test]
fn colors_are_read_in_both_notations() {
    assert_eq!(parse_rgb_color("rgb:f/80/0000"), Some(rgb(255, 128, 0)));
    assert_eq!(parse_rgb_color("rgb:ff/80"), None);
    assert_eq!(parse_rgb_color("rgb:ff/80/00/"), None);
    assert_eq!(parse_rgb_color("rgb:ff//00"), None);
    assert_eq!(parse_rgb_color("rgb:"), None);
    assert_eq!(parse_rgb_color("#f80"), Some(rgb(255, 136, 0)));
    assert_eq!(parse_rgb_color("#ffff80800000"), Some(rgb(255, 128, 0)));
    assert_eq!(parse_rgb_color("#"), None);
    assert_eq!(parse_rgb_color("#ff80"), None);
    assert_eq!(parse_rgb_color("#0000000000000000"), None);
    assert_eq!(parse_rgb_color("#12345x"), None);
    assert_eq!(parse_rgb_color("ff8000"), None);
    assert_eq!(parse_rgb_color(""), None);
}

#[test]
fn default_color_replies_need_introducer_terminator_and_command() {
    assert_eq!(parse_default_color_response("\x1b]10;rgb:ff/ff/ff"), None);
    assert_eq!(parse_default_color_response("]10;rgb:ff/ff/ff\x1b\\"), None);
    assert_eq!(parse_default_color_response("\x1b]12;rgb:ff/ff/ff\x1b\\"), None);
    assert_eq!(parse_default_color_response("\x1b]10rgb:ff/ff/ff\x1b\\"), None);
    assert_eq!(parse_default_color_response("\x1b]10;?\x1b\\"), None);
    assert_eq!(parse_default_color_response("\x1b]\x1b\\"), None);
    assert_eq!(parse_default_color_response(""), None);
}

#[test]
fn palette_replies_need_an_index_of_one_byte() {
    let black = rgb(0, 0, 0);
    assert_eq!(
        parse_palette_color_response("\x1b]4;+7;#000\u{7}"),
        Some((7, black))
    );
    assert_eq!(
        parse_palette_color_response("\x1b]4;007;#000\u{7}"),
        Some((7, black))
    );
    assert_eq!(parse_palette_color_response("\x1b]4;256;#000\u{7}"), None);
    assert_eq!(parse_palette_color_response("\x1b]4;-1;#000\u{7}"), None);
    assert_eq!(parse_palette_color_response("\x1b]4;;#000\u{7}"), None);
    assert_eq!(parse_palette_color_response("\x1b]4;1\u{7}"), None);
    assert_eq!(parse_palette_color_response("\x1b]4;1;#00\u{7}"), None);
    assert_eq!(parse_palette_color_response("\x1b]5;1;#000\u{7}"), None);
}

#[test]
fn set_sequences_read_back() {
    let color = rgb(0x01, 0xab, 0xff);
    assert_eq!(
        osc_set_default_color_sequence(DefaultColorKind::Foreground, color),
        "\x1b]10;rgb:01/ab/ff\x1b\\"
    );
    for kind in [DefaultColorKind::Foreground, DefaultColorKind::Background] {
        for step in 0..=255u8 {
            let color = rgb(step, 255 - step, step / 2);
            let sequence = osc_set_default_color_sequence(kind, color);
            assert_eq!(parse_default_color_response(&sequence), Some((kind, color)));
        }
    }
}

#[test]
fn palette_replies_read_back() {
    for index in 0..=255u8 {
        let color = rgb(index, 255 - index, index / 3);
        for terminator in ["\x1b\\", "\u{7}"] {
            let reply = format!(
                "\x1b]4;{index};rgb:{0:02x}{0:02x}/{1:02x}{1:02x}/{2:02x}{2:02x}{terminator}",
                color.r, color.g, color.b
            );
            assert_eq!(parse_palette_color_response(&reply), Some((index, color)));
        }
    }
}

#[test]
fn a_sweep_queries_every_entry() {
    let query = host_terminal_theme_query_sequence(true);
    for index in 0..256 {
        assert!(query.contains(&format!("\x1b]4;{index};?\x1b\\")));
    }
}

#[test]
fn sweeps_follow_the_scheme_changes() {
    let reports = [
        HostAppearance::Dark,
        HostAppearance::Dark,
        HostAppearance::Light,
        HostAppearance::Light,
        HostAppearance::Dark,
    ];
    let mut unqueried = HostThemeBaseline::Unqueried;
    assert_eq!(reports.iter().filter(|report| unqueried.observe(**report)).count(), 3);
    let mut swept = HostThemeBaseline::AwaitingFirstReport;
    assert_eq!(reports.iter().filter(|report| swept.observe(**report)).count(), 2);
    assert_eq!(swept, HostThemeBaseline::Known(HostAppearance::Dark));
}

#[test]
fn appearance_is_inferred_from_luminance() {
    assert_eq!(rgb(128, 128, 128).inferred_appearance(), HostAppearance::Light);
    assert_eq!(rgb(127, 128, 128).inferred_appearance(), HostAppearance::Dark);
    assert_eq!(rgb(0, 219, 0).inferred_appearance(), HostAppearance::Light);
    assert_eq!(rgb(0, 218, 0).inferred_appearance(), HostAppearance::Dark);
    assert_eq!(rgb(255, 0, 255).inferred_appearance(), HostAppearance::Dark);
    assert_eq!(RgbColor::default().inferred_appearance(), HostAppearance::Dark);
}

#[test]
fn scheme_reports_and_queries_are_the_documented_sequences() {
    assert_eq!(HostAppearance::Dark.color_scheme_report(), b"\x1b[?997;1n");
    assert_eq!(HostAppearance::Light.color_scheme_report(), b"\x1b[?997;2n");
    assert_eq!(HOST_COLOR_SCHEME_QUERY_SEQUENCE, "\x1b[?996n");
    assert_eq!(HOST_COLOR_SCHEME_REPORT_ENABLE_SEQUENCE, "\x1b[?2031h");
    assert_eq!(HOST_COLOR_SCHEME_REPORT_DISABLE_SEQUENCE, "\x1b[?2031l");
}

#[test]
fn themes_collect_colors() {
    let theme = TerminalTheme::default();
    assert!(theme.is_empty());
    assert!(theme.palette.iter().all(|entry| entry.is_none()));

    let theme = theme.with_palette_color(255, rgb(1, 2, 3));
    assert_eq!(theme.palette[255], Some(rgb(1, 2, 3)));
    assert_eq!(theme.palette[254], None);
    assert!(theme.is_empty(), "palette entries do not count");

    let theme = theme.with_color(DefaultColorKind::Background, rgb(4, 5, 6));
    assert_eq!(theme.background, Some(rgb(4, 5, 6)));
    assert_eq!(theme.foreground, None);
    assert!(!theme.is_empty());

    let theme = theme.with_color(DefaultColorKind::Foreground, rgb(7, 8, 9));
    assert_eq!(theme.foreground, Some(rgb(7, 8, 9)));
    assert_eq!(theme.background, Some(rgb(4, 5, 6)));
    assert_eq!(theme.palette[255], Some(rgb(1, 2, 3)));
}

#[test]
fn brighter_colors_stay_light() {
    for step in 0..=255u8 {
        if rgb(step, 100, 40).inferred_appearance() == HostAppearance::Light {
            for more in step..=255 {
                assert_eq!(rgb(more, 120, 40).inferred_appearance(), HostAppearance::Light);
            }
        }
    }
}

#[test]
fn replies_are_told_apart() {
    let default = "\x1b]10;#000\x1b\\";
    let palette = "\x1b]4;10;#000\x1b\\";
    assert!(parse_default_color_response(default).is_some());
    assert!(parse_palette_color_response(default).is_none());
    assert!(parse_default_color_response(palette).is_none());
    assert!(parse_palette_color_response(palette).is_some());
}
