use window_list_overlay::config::{Config, EffectiveConfig, Layout, OverflowStyle, Position};
use window_list_overlay::hyprland::{HyprClient, WorkspaceRef};
use window_list_overlay::overlay::{
    layout_plan, plan_rows, rows_are_defined, truncate_title, LayoutPlan, OverlayState, PopulateStep,
    ScrollAnimator, ScrollFrame, ScrollPhase, TitleStyle, WindowListState, PAUSE_TICKS,
};

fn client(address: &str, title: &str) -> HyprClient {
    HyprClient {
        address: address.to_string(),
        title: title.to_string(),
        class: "foot".to_string(),
        workspace: WorkspaceRef { id: 6 },
        mapped: true,
        hidden: false,
    }
}

#[test]
fn truncate_long_title() {
    assert_eq!(truncate_title("abcdefghij", 5), "abcd\u{2026}");
    assert_eq!(truncate_title("abcdefghij", 5).chars().count(), 5);
    assert_eq!(truncate_title("abcde", 5), "abcde");
    assert_eq!(truncate_title("abc", 1), "\u{2026}");
    assert_eq!(truncate_title("", 0), "");
    assert_eq!(truncate_title("abc", -1), "abc");
    assert_eq!(truncate_title("\u{e9}t\u{e9} \u{e0} Paris", 4), "\u{e9}t\u{e9}\u{2026}");
}

fn effective(layout: Layout, width: i32, max_element_width: i32) -> EffectiveConfig {
    EffectiveConfig { position: Position::Top, layout, margin: 12, width, max_element_width }
}

#[test]
fn layout_plan_vertical_caps_width() {
    let p = layout_plan(&effective(Layout::Vertical, 320, 200));
    assert_eq!(
        p,
        LayoutPlan {
            anchor: Position::Top,
            margin: 12,
            orientation: Layout::Vertical,
            default_width: 200,
            default_height: -1,
        }
    );
    assert_eq!(layout_plan(&effective(Layout::Vertical, 320, 500)).default_width, 320);
    assert_eq!(layout_plan(&effective(Layout::Vertical, 320, 0)).default_width, 320);
}

#[test]
fn layout_plan_horizontal_natural_size() {
    let p = layout_plan(&effective(Layout::Horizontal, 320, 200));
    assert_eq!(p.default_width, -1);
    assert_eq!(p.default_height, -1);
    assert_eq!(p.orientation, Layout::Horizontal);
}

#[test]
fn rows_mark_active_and_truncate() {
    let mut config = Config::default();
    config.max_title_chars = 4;
    let e = effective(Layout::Vertical, 320, 0);
    let clients = vec![client("0x1", "short"), client("0x2", "abc")];
    let rows = plan_rows(&config, &e, &clients, &"0x2".to_string());
    assert_eq!(rows.len(), 2);
    assert_eq!(rows[0].title, "sho\u{2026}");
    assert!(!rows[0].is_active);
    assert_eq!(rows[1].title, "abc");
    assert!(rows[1].is_active);
    assert_eq!(rows[0].style, TitleStyle::Clipped(Some(4)));
    assert_eq!(rows[0].class, "foot");
}

#[test]
fn rows_with_element_width_keep_full_title() {
    let mut config = Config::default();
    config.max_title_chars = 2;
    config.overflow_style = OverflowStyle::Scroll;
    config.scroll_speed = 90;
    let e = effective(Layout::Horizontal, 320, 150);
    let rows = plan_rows(&config, &e, &vec![client("0x1", "a long title")], &String::new());
    assert_eq!(rows[0].title, "a long title");
    assert_eq!(rows[0].style, TitleStyle::Scrolling(90));
    config.overflow_style = OverflowStyle::Truncate;
    let rows = plan_rows(&config, &e, &vec![client("0x1", "a long title")], &String::new());
    assert_eq!(rows[0].style, TitleStyle::Ellipsized);
    let e = effective(Layout::Horizontal, 320, 0);
    let rows = plan_rows(&config, &e, &vec![client("0x1", "abc")], &String::new());
    assert_eq!(rows[0].style, TitleStyle::Clipped(None));
}

#[test]
fn change_detection_reports_once() {
    let mut shown = WindowListState::new();
    let clients = vec![client("0x1", "a"), client("0x2", "b")];
    let active = "0x1".to_string();
    assert!(shown.window_list_changed(&clients, &active));
    assert!(!shown.window_list_changed(&clients, &active));
    assert!(shown.window_list_changed(&clients, &"0x2".to_string()));
    let renamed = vec![client("0x1", "a"), client("0x2", "c")];
    assert!(shown.window_list_changed(&renamed, &"0x2".to_string()));
    shown.clear();
    assert!(shown.window_list_changed(&renamed, &"0x2".to_string()));
    assert!(!WindowListState::new().window_list_changed(&Vec::new(), &String::new()));
}

#[test]
fn populate_steps() {
    let mut state = OverlayState::new(Config::default());
    assert_eq!(state.populate_workspace(None), PopulateStep::Clear);
    assert_eq!(state.populate_workspace(Some(6)), PopulateStep::FetchLayout(6));
    assert_eq!(state.populate_layout(6, Some("dwindle".to_string())), PopulateStep::Clear);
    assert_eq!(state.populate_layout(6, None), PopulateStep::Clear);
    assert_eq!(
        state.populate_layout(6, Some("scrolling".to_string())),
        PopulateStep::FetchClients(6)
    );
    let clients = vec![client("0x1", "a")];
    let rows = state.populate_clients(&clients, Some("0x1".to_string())).unwrap();
    assert!(rows[0].is_active);
    assert!(state.populate_clients(&clients, Some("0x1".to_string())).is_none());
    assert!(state.populate_clients(&clients, None).is_some());
    state.config.scrolling_only = false;
    assert_eq!(state.populate_workspace(Some(2)), PopulateStep::FetchClients(2));
}

#[test]
fn monitor_resolution() {
    let mut state = OverlayState::new(Config::default());
    assert_eq!(state.resolve_monitor(Some("DP-1".to_string())), "DP-1");
    assert_eq!(state.resolve_monitor(None), "");
    state.config.monitor = "HDMI-A-1".to_string();
    assert_eq!(state.resolve_monitor(Some("DP-1".to_string())), "HDMI-A-1");
    assert!(state.select_monitor("DP-1".to_string()));
    assert!(!state.select_monitor("DP-1".to_string()));
    assert_eq!(state.current_monitor, "DP-1");
    assert_eq!(state.current_layout().anchor, Position::Right);
}

fn idle() -> ScrollFrame {
    ScrollFrame { keep_running: true, margin_start: None, fade_left: None, fade_right: None }
}

#[test]
fn scroll_stops_when_title_fits() {
    let mut a = ScrollAnimator::new(40);
    assert_eq!(a.tick(0, 100), idle());
    assert_eq!(a.phase, ScrollPhase::WaitingForLayout);
    let f = a.tick(100, 100);
    assert!(!f.keep_running);
}

#[test]
fn scroll_full_cycle() {
    let mut a = ScrollAnimator::new(90);
    assert_eq!(a.px_per_tick, 3);
    let f = a.tick(100, 107);
    assert_eq!(f.fade_right, Some(true));
    assert_eq!(a.overflow, 7);
    for _ in 0..PAUSE_TICKS {
        assert_eq!(a.phase, ScrollPhase::PauseStart);
        assert_eq!(a.tick(0, 0), idle());
    }
    assert_eq!(a.phase, ScrollPhase::Scrolling);
    let f = a.tick(0, 0);
    assert_eq!(f.margin_start, Some(-3));
    assert_eq!(f.fade_left, Some(true));
    assert_eq!(f.fade_right, Some(true));
    a.tick(0, 0);
    let f = a.tick(0, 0);
    assert_eq!(f.margin_start, Some(-7));
    assert_eq!(f.fade_right, Some(false));
    assert_eq!(a.phase, ScrollPhase::PauseEnd);
    for _ in 0..PAUSE_TICKS {
        a.tick(0, 0);
    }
    assert_eq!(a.phase, ScrollPhase::Resetting);
    let f = a.tick(0, 0);
    assert_eq!(
        f,
        ScrollFrame {
            keep_running: true,
            margin_start: Some(0),
            fade_left: Some(false),
            fade_right: Some(true),
        }
    );
    assert_eq!(a.phase, ScrollPhase::PauseStart);
    assert_eq!(a.offset, 0);
}

#[test]
fn scroll_speed_matches_float_formula() {
    for speed in -100..5000i32 {
        let expected = (speed as f64 / 30.0).max(1.0) as i32;
        assert_eq!(ScrollAnimator::new(speed).px_per_tick, expected, "speed {}", speed);
    }
    assert!(ScrollAnimator::new(40).can_tick(10, 20));
}

#[test]
fn rows_defined_only_without_zero_limit() {
    let mut config = Config::default();
    config.max_title_chars = 0;
    let e = effective(Layout::Vertical, 320, 0);
    assert!(!rows_are_defined(&config, &e, &vec![client("0x1", "x")]));
    assert!(rows_are_defined(&config, &e, &vec![client("0x1", "")]));
    assert!(rows_are_defined(&config, &effective(Layout::Vertical, 320, 10), &vec![client("0x1", "x")]));
    config.max_title_chars = -5;
    assert!(rows_are_defined(&config, &e, &vec![client("0x1", "x")]));
}

use window_list_overlay::overlay::{
    accept_show_signal, poll_decision, polls_super_key, refresh_continues, visible_after_refresh,
    visible_after_show, PollAction,
};

#[test]
fn super_poll_decisions() {
    assert_eq!(poll_decision(true, true), PollAction::KeepPolling);
    assert_eq!(poll_decision(true, false), PollAction::HideAndStop);
    assert_eq!(poll_decision(false, true), PollAction::Stop);
    assert_eq!(poll_decision(false, false), PollAction::Stop);
    assert!(accept_show_signal(false, false));
    assert!(accept_show_signal(true, true));
    assert!(!accept_show_signal(true, false));
    assert!(polls_super_key(true) && !polls_super_key(false));
    assert!(refresh_continues(true) && !refresh_continues(false));
}

#[test]
fn visibility_after_show_and_refresh() {
    assert!(visible_after_show(true));
    assert!(!visible_after_show(false));
    assert!(!visible_after_refresh(false, true));
    assert!(visible_after_refresh(true, true));
    assert!(!visible_after_refresh(true, false));
}

#[test]
fn cancelled_scroll_stops_untouched() {
    let mut a = ScrollAnimator::new(60);
    a.tick(10, 50);
    let before = a;
    let f = a.timer_tick(true, true, 0, 0);
    assert_eq!(f, ScrollFrame { keep_running: false, margin_start: None, fade_left: None, fade_right: None });
    assert_eq!(a, before);
    let f = a.timer_tick(false, false, 0, 0);
    assert!(!f.keep_running);
    assert_eq!(a, before);
    let f = a.timer_tick(false, true, 0, 0);
    assert!(f.keep_running);
    assert_eq!(a.ticks, 1);
}
