use winshell::config::Config;
use winshell::theme::{parse_color, Theme};

fn luminance(rgb: u32) -> f64 {
    [16, 8, 0]
        .into_iter()
        .zip([0.2126, 0.7152, 0.0722])
        .map(|(shift, weight)| {
            let c = f64::from((rgb >> shift) & 255) / 255.;
            weight
                * if c <= 0.04045 {
                    c / 12.92
                } else {
                    ((c + 0.055) / 1.055).powf(2.4)
                }
        })
        .sum()
}

#[test]
fn parses_only_rgb_values() {
    assert_eq!(parse_color("#74d5bb").unwrap(), 0x74d5bb);
    for invalid in ["#xyzxyz", "#fff", "red", "ffffffff"] {
        assert!(parse_color(invalid).is_err());
    }
}

#[test]
fn light_and_dark_defaults_have_readable_contrast() {
    let mut light = Config::default_config();
    light.theme = "light".into();
    for theme in [Theme::default(), Theme::resolve(&light)] {
        let a = luminance(theme.foreground);
        let b = luminance(theme.background);
        assert!((a.max(b) + 0.05) / (a.min(b) + 0.05) > 7.);
    }
}

#[test]
fn colors_with_and_without_hash() {
    assert_eq!(parse_color("ABCDEF").unwrap(), 0xabcdef);
    assert_eq!(parse_color("#000000").unwrap(), 0);
    assert!(parse_color("##000000").is_err());
    assert!(parse_color("").is_err());
    assert!(parse_color("#12345é").is_err());
    assert_eq!(
        parse_color("#12").unwrap_err().message(),
        "Theme colors must be #RRGGBB"
    );
}

#[test]
fn overrides_apply_to_the_custom_skin_only() {
    let mut config = Config::default_config();
    config.custom_theme.background = Some("#010203".into());
    config.custom_theme.accent = Some("not a color".into());
    config.theme = "nord".into();
    assert_eq!(Theme::resolve(&config).background, 0x2e3440);
    config.theme = "custom".into();
    let custom = Theme::resolve(&config);
    assert_eq!(custom.background, 0x010203);
    assert_eq!(custom.accent, 0x74d5bb);
    assert_eq!(custom.raised, 0x222d39);
    config.theme = "unknown".into();
    assert_eq!(Theme::resolve(&config).background, 0x101419);
    config.theme = "catppuccin".into();
    assert_eq!(Theme::resolve(&config).ansi[4], 0x89b4fa);
}

#[test]
fn tokens_and_palette_follow_the_skin() {
    let mut config = Config::default_config();
    config.theme = "light".into();
    let light = Theme::resolve(&config);
    assert_eq!(light.map(0x101419), 0xf8fafc);
    assert_eq!(light.map(0xdce5f0), 0x202b3b);
    assert_eq!(light.map(0x293340), 0xe1e8ef);
    assert_eq!(light.map(0x123456), 0x596b81);
    assert_eq!(light.palette(1), 0xad2245);
    assert_eq!(light.palette(256), 0x202b3b);
    assert_eq!(light.palette(257), 0xf8fafc);
    assert_eq!(light.palette(258), 0x087f68);
    assert_eq!(light.palette(260), 0xad2245);
    assert_eq!(light.palette(16), 0);
    assert_eq!(light.palette(300), 0xd8dee9);
}

#[test]
fn colors_read_back_as_written() {
    for n in [0u32, 0x74d5bb, 0xffffff, 0x0000ff, 0x123456] {
        assert_eq!(parse_color(&format!("#{:06x}", n)), Ok(n));
        assert_eq!(parse_color(&format!("{:06x}", n)), Ok(n));
    }
    assert!(parse_color("##74d5bb").is_err());
}
