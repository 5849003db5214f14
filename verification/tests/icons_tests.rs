use window_list_overlay::icons::{icon_probes, resolve_icon, ProbeKind, ProbeOutcome};

#[test]
fn probes_for_reverse_dns_class() {
    let p = icon_probes("com.Mitchellh.Ghostty");
    let got: Vec<(ProbeKind, &str)> = p.iter().map(|x| (x.kind, x.name.as_str())).collect();
    assert_eq!(
        got,
        vec![
            (ProbeKind::DesktopFile, "com.Mitchellh.Ghostty.desktop"),
            (ProbeKind::DesktopFile, "com.mitchellh.ghostty.desktop"),
            (ProbeKind::DesktopFile, "ghostty.desktop"),
            (ProbeKind::ThemeIcon, "ghostty"),
            (ProbeKind::ThemeIcon, "com.mitchellh.ghostty"),
        ]
    );
}

#[test]
fn probes_for_plain_class() {
    let p = icon_probes("Firefox");
    assert_eq!(p[2].name, "firefox.desktop");
    assert_eq!(p[3].name, "firefox");
    let p = icon_probes("trailing.");
    assert_eq!(p[2].name, ".desktop");
    assert_eq!(p[3].name, "");
}

#[test]
fn resolve_first_found() {
    let outcomes = vec![ProbeOutcome::Missing, ProbeOutcome::DesktopIcon("firefox-esr".to_string())];
    assert_eq!(resolve_icon("Firefox", &outcomes), "firefox-esr");
}

#[test]
fn resolve_theme_hit_uses_probe_name() {
    let outcomes = vec![
        ProbeOutcome::Missing,
        ProbeOutcome::Missing,
        ProbeOutcome::Missing,
        ProbeOutcome::InTheme,
    ];
    assert_eq!(resolve_icon("com.mitchellh.ghostty", &outcomes), "ghostty");
}

#[test]
fn resolve_fallback() {
    let outcomes = vec![ProbeOutcome::Missing; 5];
    assert_eq!(resolve_icon("Weird", &outcomes), "application-x-executable");
    assert_eq!(resolve_icon("Weird", &Vec::new()), "application-x-executable");
}
