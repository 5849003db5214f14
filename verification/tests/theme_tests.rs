use window_list_overlay::config::Config;
use window_list_overlay::theme::{
    blend_alpha, generate_css, hex_to_rgb, hex_to_rgb_is_defined, parse_theme, ThemeColors,
};

#[test]
fn theme_defaults() {
    let t = ThemeColors::default();
    assert_eq!(t.foreground, "#d3c6aa");
    assert_eq!(t.background, "#2d353b");
}

#[test]
fn parse_theme_empty_keeps_defaults() {
    let t = parse_theme("");
    assert_eq!(t.foreground, "#d3c6aa");
    assert_eq!(t.background, "#2d353b");
}

#[test]
fn parse_theme_reads_define_color_lines() {
    let css = "/* theme */\n@define-color foreground #cdd6f4;\n  @define-color background   #1e1e2e ;;  \r\n@define-color accent #89b4fa;\n";
    let t = parse_theme(css);
    assert_eq!(t.foreground, "#cdd6f4");
    assert_eq!(t.background, "#1e1e2e");
}

#[test]
fn parse_theme_later_line_wins() {
    let css = "@define-color foreground #111111;\n@define-color foreground #222222;";
    let t = parse_theme(css);
    assert_eq!(t.foreground, "#222222");
    assert_eq!(t.background, "#2d353b");
}

#[test]
fn parse_theme_ignores_lines_without_value() {
    let css = "@define-color foreground\n@define-colorforeground #123456;\ndefine-color background #654321;";
    let t = parse_theme(css);
    assert_eq!(t.foreground, "#d3c6aa");
    assert_eq!(t.background, "#2d353b");
}

#[test]
fn parse_theme_tab_before_name() {
    let t = parse_theme("@define-color \tbackground rgba(0,0,0,0.5);");
    assert_eq!(t.background, "rgba(0,0,0,0.5)");
}

#[test]
fn hex_to_rgb_six_digits() {
    assert_eq!(hex_to_rgb("#2d353b"), (45, 53, 59));
    assert_eq!(hex_to_rgb("#D3C6AA"), (211, 198, 170));
    assert_eq!(hex_to_rgb("ffffff"), (255, 255, 255));
}

#[test]
fn hex_to_rgb_three_digits_doubles_each() {
    assert_eq!(hex_to_rgb("#abc"), hex_to_rgb("#aabbcc"));
    assert_eq!(hex_to_rgb("#abc"), (0xaa, 0xbb, 0xcc));
    assert_eq!(hex_to_rgb("#f0a"), (255, 0, 170));
}

#[test]
fn hex_to_rgb_other_lengths_are_black() {
    assert_eq!(hex_to_rgb("#abcd"), (0, 0, 0));
    assert_eq!(hex_to_rgb(""), (0, 0, 0));
    assert_eq!(hex_to_rgb("rgba(1,2,3,4)"), (0, 0, 0));
}

#[test]
fn hex_to_rgb_bad_digits_give_zero() {
    assert_eq!(hex_to_rgb("#zz3456"), (0, 0x34, 0x56));
    assert_eq!(hex_to_rgb("#g12"), (0, 0x11, 0x22));
    assert_eq!(hex_to_rgb("#+f+f+f"), (15, 15, 15));
    assert_eq!(hex_to_rgb("#-f12ab"), (0, 0x12, 0xab));
}

#[test]
fn hex_to_rgb_strips_every_leading_hash() {
    assert_eq!(hex_to_rgb("###fff"), (255, 255, 255));
}

#[test]
fn hex_to_rgb_defined_only_on_char_boundaries() {
    assert!(hex_to_rgb_is_defined("#abc"));
    assert!(hex_to_rgb_is_defined("#\u{e9}\u{e9}12"));
    assert_eq!(hex_to_rgb("#\u{e9}\u{e9}12"), (0, 0, 0x12));
    assert!(!hex_to_rgb_is_defined("#\u{e9}1"));
    assert!(!hex_to_rgb_is_defined("#1\u{e9}\u{e9}1"));
    assert!(hex_to_rgb_is_defined("#\u{e9}\u{e9}\u{e9}"));
}

#[test]
fn blend_matches_float_rounding_at_twelve_percent() {
    for f in 0..=255u8 {
        for b in 0..=255u8 {
            let expected = (f as f64 * 0.12 + b as f64 * (1.0 - 0.12)).round() as u8;
            let got = blend_alpha((f, 0, 0), (b, 0, 0), 12).0;
            assert_eq!(got, expected, "f={} b={}", f, b);
        }
    }
}

#[test]
fn blend_endpoints() {
    assert_eq!(blend_alpha((10, 20, 30), (200, 100, 0), 0), (200, 100, 0));
    assert_eq!(blend_alpha((10, 20, 30), (200, 100, 0), 100), (10, 20, 30));
    assert_eq!(blend_alpha((211, 198, 170), (45, 53, 59), 12), (65, 70, 72));
}

#[test]
fn generate_css_with_defaults() {
    let css = generate_css(&ThemeColors::default(), &Config::default());
    let expected = "window {
  background-color: alpha(#2d353b, 0.92);
  border: 1px solid alpha(#d3c6aa, 0.15);
}
.window-row {
  color: #d3c6aa;
}
.window-row.active {
  background-color: alpha(#d3c6aa, 0.12);
}
.window-title {
  color: #d3c6aa;
  font-family: 'monospace';
  font-size: 14px;
}
.window-row .fade-left {
  background: linear-gradient(to right, rgba(45,53,59,0.92), transparent);
}
.window-row .fade-right {
  background: linear-gradient(to left, rgba(45,53,59,0.92), transparent);
}
.window-row.active .fade-left {
  background: linear-gradient(to right, rgba(65,70,72,0.92), transparent);
}
.window-row.active .fade-right {
  background: linear-gradient(to left, rgba(65,70,72,0.92), transparent);
}
";
    assert_eq!(css, expected);
}

#[test]
fn generate_css_negative_font_size_and_custom_font() {
    let mut c = Config::default();
    c.font_size = -3;
    c.font_family = "JetBrainsMono Nerd Font".to_string();
    c.opacity = "1".to_string();
    let colors = ThemeColors { foreground: "#fff".to_string(), background: "#000".to_string() };
    let css = generate_css(&colors, &c);
    assert!(css.contains("font-family: 'JetBrainsMono Nerd Font';"));
    assert!(css.contains("font-size: -3px;"));
    assert!(css.contains("rgba(0,0,0,1)"));
    assert!(css.contains("rgba(31,31,31,1)"));
}

#[test]
fn parse_theme_without_definitions_falls_back() {
    let css = "window { color: red; }\n/* no colors here */\n";
    let t = parse_theme(css);
    assert_eq!(t.foreground, "#d3c6aa");
    assert_eq!(t.background, "#2d353b");
}

#[test]
fn blend_clamps_outside_zero_to_hundred() {
    assert_eq!(blend_alpha((255, 0, 10), (0, 255, 10), 150), (255, 0, 10));
    assert_eq!(blend_alpha((255, 0, 10), (0, 255, 10), -50), (0, 255, 10));
    // the exact weighted value 162.5 rounds away from zero
    assert_eq!(blend_alpha((14, 0, 0), (164, 0, 0), 1).0, 163);
}
