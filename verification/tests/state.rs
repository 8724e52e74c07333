use caffeinate::i18n::{en, zh};
use caffeinate::state::{format_hms, spans, AppState, Span};
use caffeinate::time::{Duration, Instant};

/// Every test works from one fixed origin rather than waiting on real time.
fn t0() -> Instant {
    Instant::from_nanos(1_000_000_000_000)
}

fn secs(n: u64) -> Duration {
    Duration::from_secs(n)
}

#[test]
fn starts_inactive() {
    let s = AppState::new();
    assert!(!s.system());
    assert!(!s.display());
    assert_eq!(s.span(), Span::Forever);
    assert!(!s.is_active());
    assert_eq!(s.remaining(t0()), None);
}

#[test]
fn forever_span_produces_no_countdown() {
    let now = t0();
    let mut s = AppState::new();
    s.toggle_system(now);
    assert!(s.system());
    assert!(s.is_active());
    assert_eq!(s.remaining(now), None);
}

#[test]
fn setting_a_span_while_inactive_does_not_start_the_clock() {
    let now = t0();
    let mut s = AppState::new();
    s.set_span(Span::Minutes(30), now);
    assert_eq!(s.span(), Span::Minutes(30));
    assert_eq!(s.remaining(now), None, "nothing is on, so nothing counts down");
}

#[test]
fn the_clock_starts_when_a_switch_goes_on() {
    let now = t0();
    let mut s = AppState::new();
    s.set_span(Span::Minutes(30), now);
    s.toggle_system(now);
    assert_eq!(s.remaining(now), Some(secs(1800)));
}

#[test]
fn a_second_switch_does_not_restart_the_clock() {
    let now = t0();
    let mut s = AppState::new();
    s.set_span(Span::Minutes(30), now);
    s.toggle_system(now);
    let later = now + secs(600);
    s.toggle_display(later);
    assert_eq!(
        s.remaining(later),
        Some(secs(1200)),
        "already counting down; a second switch must not reset it"
    );
}

#[test]
fn changing_the_span_mid_countdown_restarts_it() {
    let now = t0();
    let mut s = AppState::new();
    s.set_span(Span::Minutes(30), now);
    s.toggle_system(now);
    let later = now + secs(600);
    s.set_span(Span::Minutes(60), later);
    assert_eq!(s.remaining(later), Some(secs(3600)));
}

#[test]
fn switching_back_to_forever_clears_the_countdown() {
    let now = t0();
    let mut s = AppState::new();
    s.set_span(Span::Minutes(30), now);
    s.toggle_system(now);
    s.set_span(Span::Forever, now);
    assert_eq!(s.remaining(now), None);
    assert!(s.is_active(), "changing the span must not touch the switches");
}

#[test]
fn turning_everything_off_clears_the_countdown() {
    let now = t0();
    let mut s = AppState::new();
    s.set_span(Span::Minutes(30), now);
    s.toggle_system(now);
    s.toggle_display(now);
    s.toggle_system(now);
    assert_eq!(
        s.remaining(now),
        Some(secs(1800)),
        "one switch is still on, so the countdown continues"
    );
    s.toggle_display(now);
    assert!(!s.is_active());
    assert_eq!(s.remaining(now), None);
}

#[test]
fn tick_does_nothing_before_the_deadline() {
    let now = t0();
    let mut s = AppState::new();
    s.set_span(Span::Minutes(30), now);
    s.toggle_system(now);
    assert!(!s.tick(now + secs(1799)));
    assert!(s.is_active());
}

#[test]
fn tick_resets_everything_at_the_deadline() {
    let now = t0();
    let mut s = AppState::new();
    s.set_span(Span::Minutes(30), now);
    s.toggle_system(now);
    s.toggle_display(now);
    let expiry = now + secs(1800);
    assert!(s.tick(expiry), "expiry should report true so the UI refreshes");
    assert!(!s.system());
    assert!(!s.display());
    assert_eq!(s.span(), Span::Forever, "the span returns to Forever");
    assert_eq!(s.remaining(expiry), None);
    assert!(!s.tick(expiry), "already reset; must not report again");
}

#[test]
fn tick_never_fires_in_forever_mode() {
    let now = t0();
    let mut s = AppState::new();
    s.toggle_system(now);
    assert!(!s.tick(now + secs(86_400)));
    assert!(s.is_active());
}

#[test]
fn remaining_saturates_at_zero() {
    let now = t0();
    let mut s = AppState::new();
    s.set_span(Span::Minutes(30), now);
    s.toggle_system(now);
    assert_eq!(s.remaining(now + secs(3600)), Some(Duration::zero()));
}

#[test]
fn format_hms_pads_to_two_digits() {
    assert_eq!(format_hms(Duration::zero()), "00:00:00");
    assert_eq!(format_hms(secs(59)), "00:00:59");
    assert_eq!(format_hms(secs(60)), "00:01:00");
    assert_eq!(format_hms(secs(3661)), "01:01:01");
    assert_eq!(format_hms(secs(18000)), "05:00:00");
}

#[test]
fn spans_match_the_intended_menu() {
    assert_eq!(
        spans(),
        [
            Span::Forever,
            Span::Minutes(5),
            Span::Minutes(10),
            Span::Minutes(15),
            Span::Minutes(30),
            Span::Minutes(60),
            Span::Minutes(120),
            Span::Minutes(300),
        ]
    );
}

#[test]
fn every_language_has_a_label_per_span() {
    // The two are matched by index; a length mismatch would wire a menu
    // entry to the wrong duration.
    assert_eq!(en().spans.len(), spans().len());
    assert_eq!(zh().spans.len(), spans().len());
}

#[test]
fn remaining_text_in_english() {
    let now = t0();
    let s = &en();
    let mut st = AppState::new();
    assert_eq!(st.remaining_text(now, s), "No timer");
    st.set_span(Span::Minutes(60), now);
    st.toggle_display(now);
    assert_eq!(st.remaining_text(now, s), "01:00:00 remaining");
}

#[test]
fn remaining_text_in_chinese() {
    let now = t0();
    let s = &zh();
    let mut st = AppState::new();
    assert_eq!(st.remaining_text(now, s), "未計時");
    st.set_span(Span::Minutes(60), now);
    st.toggle_display(now);
    assert_eq!(st.remaining_text(now, s), "剩餘 01:00:00");
}

#[test]
fn tooltip_in_english() {
    let now = t0();
    let s = &en();
    let mut st = AppState::new();
    assert_eq!(st.tooltip(now, s), "caffeinate: off");
    st.toggle_system(now);
    assert_eq!(st.tooltip(now, s), "caffeinate: system");
    st.toggle_display(now);
    assert_eq!(st.tooltip(now, s), "caffeinate: system + screen");
    st.toggle_system(now);
    assert_eq!(st.tooltip(now, s), "caffeinate: screen");
}

#[test]
fn tooltip_in_chinese() {
    let now = t0();
    let s = &zh();
    let mut st = AppState::new();
    assert_eq!(st.tooltip(now, s), "caffeinate：未啟用");
    st.toggle_system(now);
    assert_eq!(st.tooltip(now, s), "caffeinate：系統");
    st.toggle_display(now);
    assert_eq!(st.tooltip(now, s), "caffeinate：系統+螢幕");
    st.toggle_system(now);
    assert_eq!(st.tooltip(now, s), "caffeinate：螢幕");
}

#[test]
fn tooltip_includes_the_remaining_time() {
    let now = t0();
    let mut st = AppState::new();
    st.set_span(Span::Minutes(30), now);
    st.toggle_system(now);
    assert_eq!(st.tooltip(now, &en()), "caffeinate: system, 00:30:00 remaining");
    assert_eq!(st.tooltip(now, &zh()), "caffeinate：系統 · 剩餘 00:30:00");
}

// ---------------------------------------------------------------- further cases

#[test]
fn a_span_converts_to_its_length() {
    assert_eq!(Span::Forever.as_duration(), None);
    assert_eq!(Span::Minutes(5).as_duration(), Some(secs(300)));
    assert_eq!(Span::Minutes(0).as_duration(), Some(secs(0)));
}

#[test]
fn the_longest_span_does_not_overflow() {
    let now = Instant::from_nanos(u64::MAX);
    let mut s = AppState::new();
    s.set_span(Span::Minutes(u32::MAX), now);
    s.toggle_display(now);
    assert_eq!(s.remaining(now), Some(secs(u32::MAX as u64 * 60)));
}

#[test]
fn the_countdown_runs_down_in_whole_seconds() {
    let now = t0();
    let mut st = AppState::new();
    st.set_span(Span::Minutes(5), now);
    st.toggle_system(now);
    let later = now + Duration::from_nanos(1_500_000_000);
    assert_eq!(st.remaining_text(later, &en()), "00:04:58 remaining");
    assert_eq!(st.remaining(later), Some(Duration::from_nanos(298_500_000_000)));
}

#[test]
fn hours_past_ninety_nine_are_not_capped() {
    assert_eq!(format_hms(secs(100 * 3600 + 5)), "100:00:05");
    assert_eq!(format_hms(Duration::from_nanos(999_999_999)), "00:00:00");
}

#[test]
fn the_second_switch_off_keeps_the_countdown_and_the_last_clears_it() {
    let now = t0();
    let mut st = AppState::new();
    st.set_span(Span::Minutes(10), now);
    st.toggle_display(now);
    st.toggle_system(now + secs(60));
    st.toggle_display(now + secs(120));
    assert_eq!(st.remaining(now + secs(120)), Some(secs(480)));
    st.toggle_system(now + secs(180));
    assert_eq!(st.remaining(now + secs(180)), None);
}

#[test]
fn a_default_state_is_the_initial_state() {
    let st = AppState::default();
    assert!(!st.is_active());
    assert_eq!(st.span(), Span::Forever);
}

#[test]
fn a_countdown_runs_exactly_while_held_under_a_finite_span() {
    let now = t0();
    let mut st = AppState::new();
    st.toggle_display(now);
    assert_eq!(st.remaining(now).is_some(), st.is_active() && st.span() != Span::Forever);
    st.set_span(Span::Minutes(15), now);
    assert!(st.remaining(now).is_some());
    st.toggle_display(now);
    assert!(st.remaining(now).is_none());
    assert_eq!(now + secs(1), Instant::from_nanos(1_001_000_000_000));
}
