use window_list_overlay::config::{
    Config, EffectiveConfig, Layout, MonitorOverride, MonitorOverrides, OverflowStyle, Position,
};

fn override_with_margin(margin: i32) -> MonitorOverride {
    MonitorOverride {
        position: None,
        layout: None,
        margin: Some(margin),
        width: None,
        max_element_width: None,
    }
}

#[test]
fn default_config_matches_documented_defaults() {
    let c = Config::default();
    assert_eq!(c.monitor, "");
    assert_eq!(c.position, Position::Right);
    assert_eq!(c.layout, Layout::Vertical);
    assert_eq!(c.margin, 20);
    assert_eq!(c.width, 320);
    assert_eq!(c.icon_size, 24);
    assert_eq!(c.font_family, "monospace");
    assert_eq!(c.font_size, 14);
    assert_eq!(c.opacity, "0.92");
    assert!(c.scrolling_only);
    assert_eq!(c.max_title_chars, 50);
    assert_eq!(c.max_element_width, 0);
    assert_eq!(c.overflow_style, OverflowStyle::Truncate);
    assert_eq!(c.scroll_speed, 40);
    assert!(c.monitors.get("DP-1").is_none());
}

#[test]
fn enum_defaults() {
    assert_eq!(Position::default(), Position::Right);
    assert_eq!(Layout::default(), Layout::Vertical);
    assert_eq!(OverflowStyle::default(), OverflowStyle::Truncate);
    let o = MonitorOverride::default();
    assert!(o.position.is_none() && o.layout.is_none() && o.margin.is_none());
    assert!(o.width.is_none() && o.max_element_width.is_none());
}

#[test]
fn effective_for_without_override_is_global() {
    let c = Config::default();
    let e = c.effective_for("HDMI-A-1");
    assert_eq!(
        e,
        EffectiveConfig {
            position: Position::Right,
            layout: Layout::Vertical,
            margin: 20,
            width: 320,
            max_element_width: 0,
        }
    );
}

#[test]
fn effective_for_applies_only_set_fields() {
    let mut c = Config::default();
    c.monitors.insert(
        "DP-1".to_string(),
        MonitorOverride {
            position: Some(Position::Left),
            layout: Some(Layout::Horizontal),
            margin: None,
            width: Some(500),
            max_element_width: None,
        },
    );
    let e = c.effective_for("DP-1");
    assert_eq!(e.position, Position::Left);
    assert_eq!(e.layout, Layout::Horizontal);
    assert_eq!(e.margin, 20);
    assert_eq!(e.width, 500);
    assert_eq!(e.max_element_width, 0);
    // another monitor keeps the global values
    let other = c.effective_for("HDMI-A-1");
    assert_eq!(other.position, Position::Right);
    assert_eq!(other.width, 320);
}

#[test]
fn overrides_read_back_and_replace() {
    let mut m = MonitorOverrides::new();
    m.insert("DP-1".to_string(), override_with_margin(5));
    m.insert("HDMI-A-1".to_string(), override_with_margin(7));
    assert_eq!(m.get("DP-1"), Some(override_with_margin(5)));
    m.insert("DP-1".to_string(), override_with_margin(9));
    assert_eq!(m.get("DP-1"), Some(override_with_margin(9)));
    assert_eq!(m.get("HDMI-A-1"), Some(override_with_margin(7)));
    assert_eq!(m.get("DP-2"), None);
    let copy = m.clone();
    assert_eq!(copy.get("DP-1"), Some(override_with_margin(9)));
}

#[test]
fn overrides_listed_once_each() {
    let mut m = MonitorOverrides::new();
    m.insert("DP-1".to_string(), override_with_margin(1));
    m.insert("DP-2".to_string(), override_with_margin(2));
    m.insert("DP-1".to_string(), override_with_margin(3));
    let mut listed = m.to_vec();
    listed.sort_by(|a, b| a.0.cmp(&b.0));
    assert_eq!(
        listed,
        vec![
            ("DP-1".to_string(), override_with_margin(3)),
            ("DP-2".to_string(), override_with_margin(2)),
        ]
    );
}
