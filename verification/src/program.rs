//! The decisions of the tray program's main loop: what a menu click or a
//! timer tick does to the state, and what the loop must then redo. The loop
//! itself, which waits for Win32 messages and carries the results out, belongs
//! to the program.

use vstd::prelude::*;
use vstd::string::*;

use windows_sys::Win32::Foundation::ERROR_ALREADY_EXISTS;

use crate::cli::{all_digits, digits_value, parse_u64, parse_u64_str};
use crate::i18n::Strings;
use crate::state::{menu_spans, spans, tooltip_text, AppState, Span, StateModel, SPAN_COUNT};
use crate::text::{decimal, digit, str_eq};
use crate::time::Instant;

verus! {

/// Menu id of "Keep system awake".
pub const ID_SYSTEM: &'static str = "system";

/// Menu id of "Keep screen on".
pub const ID_DISPLAY: &'static str = "display";

/// Menu id of "Exit".
pub const ID_QUIT: &'static str = "quit";

/// Duration entries are `span<index>`, indexing into [`spans`].
pub const ID_SPAN_PREFIX: &'static str = "span";

/// Outcome of the single-instance check.
///
/// "Could not tell" is deliberately not folded into "already running":
/// exiting silently on a real failure would look exactly like a successful
/// launch that did nothing, with no icon and no message to explain it.
#[derive(Clone, Copy, PartialEq, Eq, Debug, Structural)]
pub enum Instance {
    First,
    AlreadyRunning,
    CheckFailed,
}

/// windows-sys's `ERROR_ALREADY_EXISTS`, which the Win32 system error codes
/// give as 183.
#[verifier::external_body]
fn error_already_exists() -> (code: u32)
    ensures
        code == 183,
{
    ERROR_ALREADY_EXISTS
}

/// Classify the named mutex's creation: no handle means the check failed; a
/// handle with `ERROR_ALREADY_EXISTS` as the last error means another copy
/// holds it.
pub fn classify_instance(handle_is_null: bool, last_error: u32) -> (r: Instance)
    ensures
        r == (if handle_is_null {
            Instance::CheckFailed
        } else if last_error == 183 {
            Instance::AlreadyRunning
        } else {
            Instance::First
        }),
{
    if handle_is_null {
        Instance::CheckFailed
    } else if last_error == error_already_exists() {
        Instance::AlreadyRunning
    } else {
        Instance::First
    }
}

/// What a menu entry asks for.
#[derive(Clone, Copy, PartialEq, Eq, Debug, Structural)]
pub enum MenuCommand {
    SetSpan(Span),
    ToggleSystem,
    ToggleDisplay,
    Quit,
    Ignore,
}

/// The command behind a menu id: a duration entry names its index into the
/// offered spans; ids that match nothing are ignored.
pub open spec fn command_of(id: Seq<char>) -> MenuCommand {
    let prefix = ID_SPAN_PREFIX@;
    let index = if id.len() >= prefix.len() && id.take(prefix.len() as int) == prefix {
        parse_u64(id.skip(prefix.len() as int))
    } else {
        None
    };
    if index is Some && index.unwrap() < SPAN_COUNT {
        MenuCommand::SetSpan(menu_spans()[index.unwrap() as int])
    } else if id == ID_SYSTEM@ {
        MenuCommand::ToggleSystem
    } else if id == ID_DISPLAY@ {
        MenuCommand::ToggleDisplay
    } else if id == ID_QUIT@ {
        MenuCommand::Quit
    } else {
        MenuCommand::Ignore
    }
}

/// Read a menu id.
pub fn menu_command(id: &str) -> (c: MenuCommand)
    ensures
        c == command_of(id@),
{
    let n = id.unicode_len();
    let p = ID_SPAN_PREFIX.unicode_len();
    if n >= p && str_eq(id.substring_char(0, p), ID_SPAN_PREFIX) {
        assert(id@.subrange(0, p as int) =~= id@.take(p as int));
        let rest = id.substring_char(p, n);
        assert(id@.subrange(p as int, n as int) =~= id@.skip(p as int));
        match parse_u64_str(rest) {
            Some(index) => if index < SPAN_COUNT as u64 {
                let all = spans();
                return MenuCommand::SetSpan(all[index as usize]);
            },
            None => {},
        }
    }
    if str_eq(id, ID_SYSTEM) {
        MenuCommand::ToggleSystem
    } else if str_eq(id, ID_DISPLAY) {
        MenuCommand::ToggleDisplay
    } else if str_eq(id, ID_QUIT) {
        MenuCommand::Quit
    } else {
        MenuCommand::Ignore
    }
}

/// What the loop has to do after an event.
#[derive(Clone, Copy, PartialEq, Eq, Debug, Structural)]
pub struct Effects {
    /// Reissue the power request from the switches.
    pub power: bool,
    /// Redraw the menu and tooltip.
    pub ui: bool,
    /// Leave the message loop.
    pub quit: bool,
}

/// A menu command applied to a state: the next state and what must be redone.
/// Choosing a span only changes what is shown; a switch changes the power
/// request; Exit ends the loop.
pub open spec fn after_command(st: StateModel, cmd: MenuCommand, now: nat) -> (StateModel, Effects) {
    match cmd {
        MenuCommand::SetSpan(span) => (st.set_span(span, now), Effects { power: false, ui: true, quit: false }),
        MenuCommand::ToggleSystem => (st.toggle_system(now), Effects { power: true, ui: false, quit: false }),
        MenuCommand::ToggleDisplay => (st.toggle_display(now), Effects { power: true, ui: false, quit: false }),
        MenuCommand::Quit => (st, Effects { power: false, ui: false, quit: true }),
        MenuCommand::Ignore => (st, Effects { power: false, ui: false, quit: false }),
    }
}

/// Apply a menu command.
pub fn on_menu(state: &mut AppState, cmd: MenuCommand, now: Instant) -> (e: Effects)
    ensures
        (final(state)@, e) == after_command(old(state)@, cmd, now@),
{
    match cmd {
        MenuCommand::SetSpan(span) => {
            state.set_span(span, now);
            Effects { power: false, ui: true, quit: false }
        },
        MenuCommand::ToggleSystem => {
            state.toggle_system(now);
            Effects { power: true, ui: false, quit: false }
        },
        MenuCommand::ToggleDisplay => {
            state.toggle_display(now);
            Effects { power: true, ui: false, quit: false }
        },
        MenuCommand::Quit => Effects { power: false, ui: false, quit: true },
        MenuCommand::Ignore => Effects { power: false, ui: false, quit: false },
    }
}

/// A once-a-second tick: an expired countdown resets the state, which
/// releases the power request with it; mid countdown only the "remaining" row
/// and the tooltip change. `leases_changed` reports whether pruning the CLI
/// holds removed any, which also needs a redraw.
pub open spec fn after_tick(st: StateModel, now: nat, leases_changed: bool) -> (StateModel, Effects) {
    if st.expired(now) {
        (st.tick(now), Effects { power: true, ui: leases_changed, quit: false })
    } else {
        (st, Effects { power: false, ui: leases_changed || st.remaining(now) is Some, quit: false })
    }
}

/// Apply a timer tick.
pub fn on_timer(state: &mut AppState, now: Instant, leases_changed: bool) -> (e: Effects)
    ensures
        (final(state)@, e) == after_tick(old(state)@, now@, leases_changed),
{
    let mut ui = leases_changed;
    let mut power = false;
    if state.tick(now) {
        power = true;
    } else if state.remaining(now).is_some() {
        ui = true;
    }
    Effects { power, ui, quit: false }
}


/// A menu click that flips a switch always has the power request reissued,
/// and only such a click does; any other change of state is at least redrawn;
/// only Exit leaves the loop.
pub proof fn law_a_switch_change_reissues_the_power_request(st: StateModel, cmd: MenuCommand, now: nat)
    ensures
        ({
            let (next, e) = after_command(st, cmd, now);
            &&& e.power <==> (next.system != st.system || next.display != st.display)
            &&& next != st ==> (e.power || e.ui)
            &&& e.quit <==> cmd is Quit
        }),
{
}

/// A tick that turns a switch off (the countdown ran out) has the power request
/// reissued, and no other tick does; while a countdown runs every tick redraws
/// it; a change in the CLI holds is redrawn; a tick never leaves the loop.
pub proof fn law_expiry_reissues_the_power_request(st: StateModel, now: nat, leases_changed: bool)
    requires
        st.consistent(),
    ensures
        ({
            let (next, e) = after_tick(st, now, leases_changed);
            &&& e.power <==> (next.system != st.system || next.display != st.display)
            &&& next.remaining(now) is Some ==> e.ui
            &&& leases_changed ==> (e.ui || e.power)
            &&& !e.quit
        }),
{
}

proof fn lemma_one_digit(d: nat)
    requires
        d < 10,
    ensures
        parse_u64(seq![digit(d)]) == Some(d as u64),
{
    let s = seq![digit(d)];
    assert(digit(d) as nat == 48 + d);
    assert(s.drop_last() =~= Seq::<char>::empty());
    assert(all_digits(s));
    assert(s.last() == digit(d));
    assert(digits_value(s.drop_last()) == 0);
    assert(digits_value(s) == d);
}

/// The menu id `span<i>` chooses the `i`-th offered span: the first entry is
/// no limit, then 5, 10, 15 and 30 minutes, 1, 2 and 5 hours. No other index
/// chooses anything.
pub proof fn law_span_entries_choose_the_offered_spans()
    ensures
        forall|i: nat| #![trigger decimal(i)] i < SPAN_COUNT ==> command_of(ID_SPAN_PREFIX@ + decimal(i))
            == MenuCommand::SetSpan(menu_spans()[i as int]),
        command_of("span0"@) == MenuCommand::SetSpan(Span::Forever),
        command_of("span1"@) == MenuCommand::SetSpan(Span::Minutes(5)),
        command_of("span2"@) == MenuCommand::SetSpan(Span::Minutes(10)),
        command_of("span3"@) == MenuCommand::SetSpan(Span::Minutes(15)),
        command_of("span4"@) == MenuCommand::SetSpan(Span::Minutes(30)),
        command_of("span5"@) == MenuCommand::SetSpan(Span::Minutes(60)),
        command_of("span6"@) == MenuCommand::SetSpan(Span::Minutes(120)),
        command_of("span7"@) == MenuCommand::SetSpan(Span::Minutes(300)),
        command_of("span8"@) == MenuCommand::Ignore,
{
    reveal_strlit("span");
    reveal_strlit("system");
    reveal_strlit("display");
    reveal_strlit("quit");
    let prefix = ID_SPAN_PREFIX@;
    assert forall|i: nat| #![trigger decimal(i)] i < SPAN_COUNT implies command_of(prefix + decimal(i))
        == MenuCommand::SetSpan(menu_spans()[i as int]) by {
        let id = prefix + decimal(i);
        assert(decimal(i) == seq![digit(i)]);
        assert(id.take(4) =~= prefix);
        assert(id.skip(4) =~= seq![digit(i)]);
        lemma_one_digit(i);
    }
    reveal_strlit("span0");
    reveal_strlit("span1");
    reveal_strlit("span2");
    reveal_strlit("span3");
    reveal_strlit("span4");
    reveal_strlit("span5");
    reveal_strlit("span6");
    reveal_strlit("span7");
    reveal_strlit("span8");
    assert("span0"@ =~= prefix + decimal(0));
    assert("span1"@ =~= prefix + decimal(1));
    assert("span2"@ =~= prefix + decimal(2));
    assert("span3"@ =~= prefix + decimal(3));
    assert("span4"@ =~= prefix + decimal(4));
    assert("span5"@ =~= prefix + decimal(5));
    assert("span6"@ =~= prefix + decimal(6));
    assert("span7"@ =~= prefix + decimal(7));
    let id8 = "span8"@;
    assert(id8.take(4) =~= prefix);
    assert(id8.skip(4) =~= seq![digit(8)]);
    lemma_one_digit(8);
    assert(id8 != ID_SYSTEM@ && id8 != ID_DISPLAY@ && id8 != ID_QUIT@) by {
        assert(id8.len() != ID_SYSTEM@.len());
        assert(id8.len() != ID_DISPLAY@.len());
        assert(id8[0] != ID_QUIT@[0]);
    }
}

/// The switch entries toggle their own switch, Exit quits, and an id the menu
/// never uses does nothing.
pub proof fn law_switch_entries_toggle_their_switch()
    ensures
        command_of("system"@) == MenuCommand::ToggleSystem,
        command_of("display"@) == MenuCommand::ToggleDisplay,
        command_of("quit"@) == MenuCommand::Quit,
        command_of(Seq::empty()) == MenuCommand::Ignore,
        command_of("span"@) == MenuCommand::Ignore,
{
    reveal_strlit("span");
    reveal_strlit("system");
    reveal_strlit("display");
    reveal_strlit("quit");
    let prefix = ID_SPAN_PREFIX@;
    assert("system"@.take(4) != prefix) by {
        assert("system"@.take(4)[1] != prefix[1]);
    }
    assert("display"@.take(4) != prefix) by {
        assert("display"@.take(4)[0] != prefix[0]);
    }
    assert("system"@ != "display"@) by {
        assert("system"@.len() != "display"@.len());
    }
    assert("span"@.skip(4) =~= Seq::<char>::empty());
    assert("span"@ != "system"@ && "span"@ != "display"@ && "span"@ != "quit"@) by {
        assert("span"@.len() != "system"@.len());
        assert("span"@.len() != "display"@.len());
        assert("span"@[0] != "quit"@[0]);
    }
    assert(Seq::<char>::empty() != "system"@ && Seq::<char>::empty() != "display"@);
    assert(Seq::<char>::empty() != "quit"@) by {
        assert("quit"@.len() == 4);
    }
}

/// Whether the tray icon shows the active colour: something is held, by a
/// switch or by a CLI process.
pub fn icon_lit(state: &AppState, has_hold: bool) -> (b: bool)
    ensures
        b == (state@.active() || has_hold),
{
    state.is_active() || has_hold
}

/// The tooltip: what is held and for how long, unless the last power request
/// failed, which the tooltip then says instead.
pub fn tray_tooltip(state: &AppState, now: Instant, s: &Strings, power_ok: bool) -> (r: String)
    ensures
        r@ == (if power_ok {
            tooltip_text(state@, now@, *s)
        } else {
            s.tip_power_failed@
        }),
{
    if power_ok {
        state.tooltip(now, s)
    } else {
        String::from_str(s.tip_power_failed)
    }
}

/// The menu row naming the CLI holds; empty when there are none.
pub fn hold_row(s: &Strings, hold: Option<&str>) -> (r: String)
    ensures
        r@ == match hold {
            Some(label) => s.language.cli_hold(label@),
            None => Seq::<char>::empty(),
        },
{
    match hold {
        Some(label) => s.cli_hold(label),
        None => String::new(),
    }
}

} // verus!
