//! The application state machine: two switches, a chosen span and the
//! countdown that the span starts. Time enters only as values passed in, so
//! every decision here is a function of its arguments.

use vstd::prelude::*;
use vstd::string::*;

use crate::i18n::{Language, Strings};
use crate::text::{push_char, push_two_digits, two_digits};
use crate::time::{Duration, Instant, NANOS_PER_SEC};

verus! {

/// How long a hold should last. `Forever` means no limit.
#[derive(Clone, Copy, PartialEq, Eq, Debug, Structural)]
pub enum Span {
    Forever,
    Minutes(u32),
}

/// The number of durations offered in the menu.
pub const SPAN_COUNT: usize = 8;

/// The durations offered in the menu, in display order, as a sequence.
pub open spec fn menu_spans() -> Seq<Span> {
    seq![
        Span::Forever,
        Span::Minutes(5),
        Span::Minutes(10),
        Span::Minutes(15),
        Span::Minutes(30),
        Span::Minutes(60),
        Span::Minutes(120),
        Span::Minutes(300),
    ]
}

/// The durations offered in the menu, in display order.
///
/// The labels in [`crate::i18n::Strings::spans`] are aligned with these by
/// index, which is what the menu item ids encode.
pub fn spans() -> (r: [Span; SPAN_COUNT])
    ensures
        r@ == menu_spans(),
{
    let r = [
        Span::Forever,
        Span::Minutes(5),
        Span::Minutes(10),
        Span::Minutes(15),
        Span::Minutes(30),
        Span::Minutes(60),
        Span::Minutes(120),
        Span::Minutes(300),
    ];
    assert(r@ =~= menu_spans());
    r
}

impl Span {
    /// The span's length in nanoseconds; `None` for `Forever`.
    pub open spec fn length(self) -> Option<nat> {
        match self {
            Span::Forever => None,
            Span::Minutes(m) => Some(m as nat * 60 * NANOS_PER_SEC as nat),
        }
    }

    pub fn as_duration(self) -> (r: Option<Duration>)
        ensures
            match r {
                Some(d) => self.length() == Some(d@),
                None => self.length() is None,
            },
    {
        match self {
            Span::Forever => None,
            Span::Minutes(m) => Some(Duration::from_secs(m as u64 * 60)),
        }
    }
}


/// The latest deadline a state can hold: the latest instant plus the longest
/// span (`u32::MAX` minutes), in nanoseconds.
pub const MAX_DEADLINE: u128 = 276_144_781_773_709_551_615;

/// What an [`AppState`] means: the two switches, the chosen span and, while a
/// countdown runs, the instant (in nanoseconds) at which it expires.
pub struct StateModel {
    pub system: bool,
    pub display: bool,
    pub span: Span,
    pub deadline: Option<nat>,
}

/// When a countdown of `span` started at `now` expires; `None` for `Forever`.
pub open spec fn deadline_from(span: Span, now: nat) -> Option<nat> {
    match span.length() {
        Some(len) => Some(now + len),
        None => None,
    }
}

impl StateModel {
    /// The state of every launch: both switches off, no limit, no countdown.
    pub open spec fn initial() -> StateModel {
        StateModel { system: false, display: false, span: Span::Forever, deadline: None }
    }

    pub open spec fn active(self) -> bool {
        self.system || self.display
    }

    /// The deadline agrees with the switches and the span: a countdown runs
    /// exactly while something is held under a finite span.
    pub open spec fn consistent(self) -> bool {
        self.deadline is Some <==> (self.active() && self.span is Minutes)
    }

    /// The deadline after a switch changed, given whether anything was held
    /// before: cleared when everything is off, started when something came on,
    /// kept when something was on and still is.
    pub open spec fn settled(self, was_active: bool, now: nat) -> StateModel {
        if !self.active() {
            StateModel { deadline: None, ..self }
        } else if !was_active {
            StateModel { deadline: deadline_from(self.span, now), ..self }
        } else {
            self
        }
    }

    pub open spec fn toggle_system(self, now: nat) -> StateModel {
        StateModel { system: !self.system, ..self }.settled(self.active(), now)
    }

    pub open spec fn toggle_display(self, now: nat) -> StateModel {
        StateModel { display: !self.display, ..self }.settled(self.active(), now)
    }

    /// Choosing a span records it and, if something is held, restarts the
    /// countdown from `now`.
    pub open spec fn set_span(self, span: Span, now: nat) -> StateModel {
        StateModel {
            span,
            deadline: if self.active() { deadline_from(span, now) } else { None },
            ..self
        }
    }

    pub open spec fn expired(self, now: nat) -> bool {
        match self.deadline {
            Some(d) => now >= d,
            None => false,
        }
    }

    /// An expired countdown returns everything to the initial state.
    pub open spec fn tick(self, now: nat) -> StateModel {
        if self.expired(now) { StateModel::initial() } else { self }
    }

    /// Nanoseconds left at `now`, zero once the deadline has passed.
    pub open spec fn remaining(self, now: nat) -> Option<nat> {
        match self.deadline {
            Some(d) => Some(if now <= d { (d - now) as nat } else { 0 }),
            None => None,
        }
    }
}

/// Every change of state keeps the deadline in agreement with the switches
/// and the span.
pub proof fn law_changes_keep_the_deadline_consistent(st: StateModel, span: Span, now: nat)
    requires
        st.consistent(),
    ensures
        StateModel::initial().consistent(),
        st.toggle_system(now).consistent(),
        st.toggle_display(now).consistent(),
        st.set_span(span, now).consistent(),
        st.tick(now).consistent(),
{
}

/// The two switches are independent: toggling one leaves the other, and the
/// chosen span, as they were.
pub proof fn law_switches_are_independent(st: StateModel, now: nat)
    ensures
        st.toggle_system(now).system == !st.system,
        st.toggle_system(now).display == st.display,
        st.toggle_system(now).span == st.span,
        st.toggle_display(now).display == !st.display,
        st.toggle_display(now).system == st.system,
        st.toggle_display(now).span == st.span,
{
}

/// Choosing a duration while both switches are off only records the choice:
/// no countdown starts.
pub proof fn law_choosing_a_span_while_off_only_records_it(st: StateModel, span: Span, now: nat)
    requires
        !st.active(),
    ensures
        st.set_span(span, now) == (StateModel { span, deadline: None, ..st }),
        st.set_span(span, now).remaining(now) is None,
{
}

/// Changing the span never touches the switches.
pub proof fn law_choosing_a_span_keeps_the_switches(st: StateModel, span: Span, now: nat)
    ensures
        st.set_span(span, now).system == st.system,
        st.set_span(span, now).display == st.display,
{
}

/// The clock starts when a switch is turned on: from everything off, a
/// chosen span and then either switch leave the whole span to run.
pub proof fn law_the_clock_starts_when_a_switch_goes_on(
    st: StateModel,
    span: Span,
    chosen: nat,
    now: nat,
)
    requires
        !st.active(),
    ensures
        st.set_span(span, chosen).toggle_system(now).remaining(now) == span.length(),
        st.set_span(span, chosen).toggle_display(now).remaining(now) == span.length(),
{
}

/// Turning on a second switch mid countdown does not restart it.
pub proof fn law_a_second_switch_does_not_restart_the_clock(st: StateModel, now: nat)
    ensures
        st.system && !st.display ==> st.toggle_display(now).deadline == st.deadline,
        st.display && !st.system ==> st.toggle_system(now).deadline == st.deadline,
{
}

/// Choosing a different duration while something is held restarts the
/// countdown from the moment of the choice.
pub proof fn law_choosing_a_span_restarts_the_clock(st: StateModel, span: Span, now: nat)
    requires
        st.active(),
    ensures
        st.set_span(span, now).remaining(now) == span.length(),
{
}

/// When everything is turned off the countdown is gone.
pub proof fn law_everything_off_clears_the_countdown(st: StateModel, now: nat)
    ensures
        st.system && !st.display ==> st.toggle_system(now).remaining(now) is None,
        st.display && !st.system ==> st.toggle_display(now).remaining(now) is None,
{
}

/// When the countdown expires both switches turn off together and the
/// duration returns to `Forever`; the reset is reported once and only once.
pub proof fn law_expiry_resets_everything_once(st: StateModel, now: nat, later: nat)
    requires
        st.expired(now),
    ensures
        st.tick(now) == StateModel::initial(),
        !st.tick(now).expired(later),
{
}

/// Without a time limit nothing ever expires, however late it gets.
pub proof fn law_forever_never_expires(st: StateModel, now: nat)
    requires
        st.consistent(),
        st.span == Span::Forever,
    ensures
        !st.expired(now),
        st.tick(now) == st,
        st.remaining(now) is None,
{
}

/// The time left never grows as time passes, and is zero once the deadline
/// has passed.
pub proof fn law_remaining_only_shrinks(st: StateModel, earlier: nat, later: nat)
    requires
        earlier <= later,
        st.deadline is Some,
    ensures
        st.remaining(later).unwrap() <= st.remaining(earlier).unwrap(),
        st.expired(later) ==> st.remaining(later) == Some(0nat),
{
}

/// The complete application state. The fields are private so that the
/// deadline can never drift out of sync with the switches and the span.
#[derive(Clone, Copy, Debug)]
pub struct AppState {
    system: bool,
    display: bool,
    span: Span,
    deadline: Option<u128>,
}

impl View for AppState {
    type V = StateModel;

    closed spec fn view(&self) -> StateModel {
        StateModel {
            system: self.system,
            display: self.display,
            span: self.span,
            deadline: match self.deadline {
                Some(d) => Some(d as nat),
                None => None,
            },
        }
    }
}

impl AppState {
    #[verifier::type_invariant]
    spec fn well_formed(self) -> bool {
        &&& self@.consistent()
        &&& (self.deadline matches Some(d) ==> d <= MAX_DEADLINE)
    }

    pub fn new() -> (s: AppState)
        ensures
            s@ == StateModel::initial(),
    {
        AppState { system: false, display: false, span: Span::Forever, deadline: None }
    }

    pub fn system(&self) -> (b: bool)
        ensures
            b == self@.system,
    {
        self.system
    }

    pub fn display(&self) -> (b: bool)
        ensures
            b == self@.display,
    {
        self.display
    }

    pub fn span(&self) -> (s: Span)
        ensures
            s == self@.span,
    {
        self.span
    }

    pub fn is_active(&self) -> (b: bool)
        ensures
            b == self@.active(),
    {
        self.system || self.display
    }

    /// The deadline of a countdown of `span` started at `now`.
    fn deadline_after(span: Span, now: Instant) -> (d: Option<u128>)
        ensures
            match d {
                Some(x) => deadline_from(span, now@) == Some(x as nat) && x <= MAX_DEADLINE,
                None => deadline_from(span, now@) is None,
            },
    {
        match span.as_duration() {
            Some(len) => Some(now.as_nanos() as u128 + len.as_nanos()),
            None => None,
        }
    }

    /// Fix up the deadline after a switch was toggled. Three cases:
    ///
    /// 1. Everything is now off, so clear the deadline.
    /// 2. We just went from inactive to active, so start the countdown.
    /// 3. We were already active and still are, so keep the existing deadline.
    ///    Turning on a second switch must not restart the clock.
    fn settle(&mut self, system: bool, display: bool, was_active: bool, now: Instant)
        requires
            was_active == old(self)@.active(),
        ensures
            final(self)@ == (StateModel { system, display, ..old(self)@ }).settled(was_active, now@),
    {
        proof {
            use_type_invariant(&*self);
        }
        let deadline = if !(system || display) {
            None
        } else if !was_active {
            Self::deadline_after(self.span, now)
        } else {
            self.deadline
        };
        *self = AppState { system, display, span: self.span, deadline };
    }

    pub fn toggle_system(&mut self, now: Instant)
        ensures
            final(self)@ == old(self)@.toggle_system(now@),
    {
        let was_active = self.is_active();
        self.settle(!self.system, self.display, was_active, now);
    }

    pub fn toggle_display(&mut self, now: Instant)
        ensures
            final(self)@ == old(self)@.toggle_display(now@),
    {
        let was_active = self.is_active();
        self.settle(self.system, !self.display, was_active, now);
    }

    pub fn set_span(&mut self, span: Span, now: Instant)
        ensures
            final(self)@ == old(self)@.set_span(span, now@),
    {
        let deadline = if self.is_active() {
            Self::deadline_after(span, now)
        } else {
            None
        };
        *self = AppState { system: self.system, display: self.display, span, deadline };
    }

    /// If the countdown has expired, reset everything and return `true` so the
    /// caller knows to refresh the UI.
    pub fn tick(&mut self, now: Instant) -> (fired: bool)
        ensures
            fired == old(self)@.expired(now@),
            final(self)@ == old(self)@.tick(now@),
    {
        let expired = match self.deadline {
            Some(deadline) => now.as_nanos() as u128 >= deadline,
            None => false,
        };
        if expired {
            *self = AppState::new();
        }
        expired
    }

    /// The time left at `now`. A countdown runs exactly while something is
    /// held under a finite span.
    pub fn remaining(&self, now: Instant) -> (r: Option<Duration>)
        ensures
            r is Some <==> (self@.active() && self@.span is Minutes),
            match r {
                Some(d) => self@.remaining(now@) == Some(d@),
                None => self@.remaining(now@) is None,
            },
    {
        proof {
            use_type_invariant(self);
        }
        match self.deadline {
            Some(d) => {
                let n = now.as_nanos() as u128;
                let left = if n <= d { d - n } else { 0 };
                Some(Duration::from_nanos(left))
            },
            None => None,
        }
    }
}

impl Default for AppState {
    fn default() -> (s: AppState)
        ensures
            s@ == StateModel::initial(),
    {
        AppState::new()
    }
}


/// `total` seconds as `HH:MM:SS`. Hours are not capped at two digits.
pub open spec fn hms_text(total: nat) -> Seq<char> {
    two_digits(total / 3600) + seq![':'] + two_digits((total % 3600) / 60) + seq![':'] + two_digits(
        total % 60,
    )
}

/// Format a duration as `HH:MM:SS`, dropping any fraction of a second. Values
/// past 99 hours are not special-cased; the longest span offered is five hours.
pub fn format_hms(d: Duration) -> (s: String)
    ensures
        s@ == hms_text(d@ / (NANOS_PER_SEC as nat)),
{
    let total = d.as_secs();
    let mut s = String::new();
    push_two_digits(&mut s, total / 3600);
    push_char(&mut s, ':');
    push_two_digits(&mut s, (total % 3600) / 60);
    push_char(&mut s, ':');
    push_two_digits(&mut s, total % 60);
    assert(s@ =~= hms_text(total as nat));
    s
}


/// The text of the menu's "remaining" row for `st` at `now`.
pub open spec fn remaining_row(st: StateModel, now: nat, s: Strings) -> Seq<char> {
    match st.remaining(now) {
        Some(left) => s.language.remaining_text(hms_text(left / (NANOS_PER_SEC as nat))),
        None => s.no_timer@,
    }
}

/// The tooltip for `st` at `now`: what is held and, while a countdown runs,
/// how long is left.
pub open spec fn tooltip_text(st: StateModel, now: nat, s: Strings) -> Seq<char> {
    if !st.system && !st.display {
        s.language.tooltip(s.tip_off@, None)
    } else {
        let what = if st.system && st.display {
            s.tip_both@
        } else if st.system {
            s.tip_system@
        } else {
            s.tip_screen@
        };
        s.language.tooltip(
            what,
            match st.remaining(now) {
                Some(left) => Some(hms_text(left / (NANOS_PER_SEC as nat))),
                None => None,
            },
        )
    }
}

/// Whether `t` ends with `tail`.
pub open spec fn ends_with(t: Seq<char>, tail: Seq<char>) -> bool {
    t.len() >= tail.len() && t.subrange(t.len() - tail.len(), t.len() as int) == tail
}

/// While a countdown runs, the tooltip ends with the time left as `HH:MM:SS`,
/// whichever switches are on and whatever the strings say: ", HH:MM:SS
/// remaining" in English, " · 剩餘 HH:MM:SS" in Chinese. Its first words are
/// always the program's name.
pub proof fn law_the_tooltip_shows_the_countdown(st: StateModel, now: nat, s: Strings)
    requires
        st.active(),
        st.remaining(now) is Some,
    ensures
        ({
            let h = hms_text(st.remaining(now).unwrap() / (NANOS_PER_SEC as nat));
            let t = tooltip_text(st, now, s);
            &&& s.language == Language::English ==> ends_with(t, ", "@ + h + " remaining"@)
                && t.take(12) == "caffeinate: "@
            &&& s.language == Language::Chinese ==> ends_with(t, " · 剩餘 "@ + h)
                && t.take(11) == "caffeinate："@
        }),
{
    reveal_strlit("caffeinate: ");
    reveal_strlit("caffeinate：");
    let h = hms_text(st.remaining(now).unwrap() / (NANOS_PER_SEC as nat));
    let what = if st.system && st.display {
        s.tip_both@
    } else if st.system {
        s.tip_system@
    } else {
        s.tip_screen@
    };
    let t = tooltip_text(st, now, s);
    if s.language == Language::English {
        let tail = ", "@ + h + " remaining"@;
        assert(t =~= "caffeinate: "@ + what + tail);
        assert(t.subrange(t.len() - tail.len(), t.len() as int) =~= tail);
        assert(t.take(12) =~= "caffeinate: "@);
    } else {
        let tail = " · 剩餘 "@ + h;
        assert(t =~= "caffeinate："@ + what + tail);
        assert(t.subrange(t.len() - tail.len(), t.len() as int) =~= tail);
        assert(t.take(11) =~= "caffeinate："@);
    }
}


/// The menu's "remaining" row shows the time left while a countdown runs,
/// whichever switches are on, and the "no timer" text otherwise.
pub proof fn law_the_remaining_row_shows_the_countdown(st: StateModel, now: nat, s: Strings)
    ensures
        ({
            let r = remaining_row(st, now, s);
            match st.remaining(now) {
                Some(left) => {
                    let h = hms_text(left / (NANOS_PER_SEC as nat));
                    &&& s.language == Language::English ==> r == h + " remaining"@
                    &&& s.language == Language::Chinese ==> r == "剩餘 "@ + h
                },
                None => r == s.no_timer@,
            }
        }),
{
}

impl AppState {
    /// Text for the "remaining" row in the menu.
    pub fn remaining_text(&self, now: Instant, s: &Strings) -> (r: String)
        ensures
            r@ == remaining_row(self@, now@, *s),
    {
        match self.remaining(now) {
            Some(d) => {
                let hms = format_hms(d);
                s.remaining_text(hms.as_str())
            },
            None => String::from_str(s.no_timer),
        }
    }

    /// Text for the tray icon's tooltip.
    pub fn tooltip(&self, now: Instant, s: &Strings) -> (r: String)
        ensures
            r@ == tooltip_text(self@, now@, *s),
    {
        let what = match (self.system, self.display) {
            (false, false) => return s.tooltip(s.tip_off, None),
            (true, true) => s.tip_both,
            (true, false) => s.tip_system,
            (false, true) => s.tip_screen,
        };
        match self.remaining(now) {
            Some(d) => {
                let hms = format_hms(d);
                s.tooltip(what, Some(hms.as_str()))
            },
            None => s.tooltip(what, None),
        }
    }
}

} // verus!
