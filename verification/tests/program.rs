use caffeinate::i18n::{en, zh};
use caffeinate::program::{
    classify_instance, hold_row, icon_lit, menu_command, on_menu, on_timer, tray_tooltip, Effects,
    Instance, MenuCommand,
};
use caffeinate::state::{AppState, Span};
use caffeinate::time::{Duration, Instant};

fn t0() -> Instant {
    Instant::from_nanos(5_000_000_000)
}

#[test]
fn menu_ids_map_to_commands() {
    assert_eq!(menu_command("system"), MenuCommand::ToggleSystem);
    assert_eq!(menu_command("display"), MenuCommand::ToggleDisplay);
    assert_eq!(menu_command("quit"), MenuCommand::Quit);
    assert_eq!(menu_command("span0"), MenuCommand::SetSpan(Span::Forever));
    assert_eq!(menu_command("span4"), MenuCommand::SetSpan(Span::Minutes(30)));
    assert_eq!(menu_command("span7"), MenuCommand::SetSpan(Span::Minutes(300)));
    assert_eq!(menu_command("span8"), MenuCommand::Ignore);
    assert_eq!(menu_command("span"), MenuCommand::Ignore);
    assert_eq!(menu_command("spanx"), MenuCommand::Ignore);
    assert_eq!(menu_command("other"), MenuCommand::Ignore);
}

#[test]
fn switches_redo_the_power_request_and_spans_only_the_ui() {
    let mut st = AppState::new();
    let e = on_menu(&mut st, MenuCommand::SetSpan(Span::Minutes(5)), t0());
    assert_eq!(e, Effects { power: false, ui: true, quit: false });
    let e = on_menu(&mut st, MenuCommand::ToggleSystem, t0());
    assert_eq!(e, Effects { power: true, ui: false, quit: false });
    assert!(st.system());
    let e = on_menu(&mut st, MenuCommand::Quit, t0());
    assert_eq!(e, Effects { power: false, ui: false, quit: true });
    assert!(st.system());
}

#[test]
fn ticks_redraw_mid_countdown_and_release_power_on_expiry() {
    let mut st = AppState::new();
    assert_eq!(on_timer(&mut st, t0(), false), Effects { power: false, ui: false, quit: false });
    assert_eq!(on_timer(&mut st, t0(), true), Effects { power: false, ui: true, quit: false });
    st.set_span(Span::Minutes(5), t0());
    st.toggle_display(t0());
    assert_eq!(on_timer(&mut st, t0(), false), Effects { power: false, ui: true, quit: false });
    let expiry = t0() + Duration::from_secs(300);
    assert_eq!(on_timer(&mut st, expiry, false), Effects { power: true, ui: false, quit: false });
    assert!(!st.is_active());
}

#[test]
fn the_instance_check_separates_failure_from_a_second_copy() {
    assert_eq!(classify_instance(true, 183), Instance::CheckFailed);
    assert_eq!(classify_instance(false, 183), Instance::AlreadyRunning);
    assert_eq!(classify_instance(false, 0), Instance::First);
}

#[test]
fn the_tray_row_tooltip_and_icon_follow_the_state() {
    let mut st = AppState::new();
    assert!(!icon_lit(&st, false));
    assert!(icon_lit(&st, true));
    assert_eq!(hold_row(&en(), None), "");
    assert_eq!(hold_row(&en(), Some("cargo build")), "CLI: cargo build");
    assert_eq!(hold_row(&zh(), Some("x")), "CLI：x");
    st.toggle_system(t0());
    assert!(icon_lit(&st, false));
    assert_eq!(tray_tooltip(&st, t0(), &en(), true), "caffeinate: system");
    assert_eq!(tray_tooltip(&st, t0(), &en(), false), "caffeinate: power request failed");
}

#[test]
fn the_instance_check_failure_has_a_message_in_each_language() {
    assert_eq!(en().err_mutex, "Failed to check whether caffeinate is already running.");
    assert_eq!(zh().err_mutex, "無法確認 caffeinate 是否已在執行。");
}
