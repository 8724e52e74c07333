//! Argument handling for `caffeinate`, the command line companion, in the
//! spirit of macOS `caffeinate`: which hold to take, for how long, and what
//! to tell the tray about it.

use vstd::prelude::*;
use vstd::string::*;

use crate::text::str_eq;
use crate::time::{Duration, NANOS_PER_SEC};

verus! {

/// Whether every character is an ASCII digit.
pub open spec fn all_digits(s: Seq<char>) -> bool {
    forall|i: int| 0 <= i < s.len() ==> '0' <= #[trigger] s[i] <= '9'
}

/// The number an all-digit string spells in decimal.
pub open spec fn digits_value(s: Seq<char>) -> nat
    decreases s.len(),
{
    if s.len() == 0 {
        0
    } else {
        digits_value(s.drop_last()) * 10 + ((s.last() as nat) - 48) as nat
    }
}

/// What `str::parse::<u64>` accepts: an optional `+`, then one or more ASCII
/// digits whose value fits in 64 bits.
pub open spec fn parse_u64(s: Seq<char>) -> Option<u64> {
    let body = if s.len() > 0 && s[0] == '+' { s.skip(1) } else { s };
    if body.len() > 0 && all_digits(body) && digits_value(body) <= u64::MAX {
        Some(digits_value(body) as u64)
    } else {
        None
    }
}

proof fn lemma_digits_value_grows(s: Seq<char>, i: int, j: int)
    requires
        0 <= i <= j <= s.len(),
        all_digits(s),
    ensures
        digits_value(s.take(i)) <= digits_value(s.take(j)),
    decreases j - i,
{
    if i < j {
        lemma_digits_value_grows(s, i, j - 1);
        assert(s.take(j).drop_last() =~= s.take(j - 1));
    }
}

/// Parses `s` as `str::parse::<u64>` does.
pub(crate) fn parse_u64_str(s: &str) -> (r: Option<u64>)
    ensures
        r == parse_u64(s@),
{
    let n = s.unicode_len();
    let start: usize = if n > 0 && s.get_char(0) == '+' { 1 } else { 0 };
    let ghost body = if s@.len() > 0 && s@[0] == '+' { s@.skip(1) } else { s@ };
    assert(body =~= s@.skip(start as int));
    if start >= n {
        return None;
    }
    let mut value: u64 = 0;
    let mut i: usize = start;
    while i < n
        invariant
            n == s@.len(),
            start <= i <= n,
            body == s@.skip(start as int),
            body == (if s@.len() > 0 && s@[0] == '+' { s@.skip(1) } else { s@ }),
            all_digits(body.take(i - start)),
            value == digits_value(body.take(i - start)),
        decreases n - i,
    {
        let c = s.get_char(i);
        assert(body[i - start] == c);
        assert(body.take(i - start + 1).drop_last() =~= body.take(i - start));
        if c < '0' || c > '9' {
            assert(!('0' <= body[i - start] <= '9'));
            return None;
        }
        let d = (c as u32 - 48) as u64;
        if value > (u64::MAX - d) / 10 {
            proof {
                assert(value * 10 + d > u64::MAX) by (nonlinear_arith)
                    requires
                        value > (u64::MAX - d) / 10,
                        d <= 9,
                ;
                assert(digits_value(body.take(i - start + 1)) == value * 10 + d);
                assert(all_digits(body.take(i - start + 1)));
                if all_digits(body) {
                    assert(body.take(body.len() as int) =~= body);
                    lemma_digits_value_grows(body, i - start + 1, body.len() as int);
                }
            }
            return None;
        }
        value = value * 10 + d;
        i = i + 1;
    }
    assert(body.take(i - start) =~= body);
    Some(value)
}


/// The seconds a unit suffix stands for: `s`, `m` or `h`, either case.
pub open spec fn unit_seconds(c: char) -> Option<u64> {
    if c == 's' || c == 'S' {
        Some(1)
    } else if c == 'm' || c == 'M' {
        Some(60)
    } else if c == 'h' || c == 'H' {
        Some(3600)
    } else {
        None
    }
}

/// What `parse_duration` makes of `s`: a number of seconds, or the message
/// that explains the refusal.
pub open spec fn duration_result(s: Seq<char>) -> Result<nat, Seq<char>> {
    if s.len() == 0 {
        Err("empty duration"@)
    } else {
        let digits = if unit_seconds(s.last()) is Some { s.drop_last() } else { s };
        let multiplier: nat = match unit_seconds(s.last()) {
            Some(m) => m as nat,
            None => 1,
        };
        if digits.len() == 0 {
            Err("`"@ + s + "` has a unit but no number"@)
        } else {
            match parse_u64(digits) {
                None => Err("`"@ + s + "` is not a duration (try 90, 30s, 45m, 2h)"@),
                Some(v) => if v as nat * multiplier <= u64::MAX {
                    Ok(v as nat * multiplier)
                } else {
                    Err("`"@ + s + "` is too large"@)
                },
            }
        }
    }
}

fn unit_seconds_of(c: char) -> (r: Option<u64>)
    ensures
        r == unit_seconds(c),
{
    if c == 's' || c == 'S' {
        Some(1)
    } else if c == 'm' || c == 'M' {
        Some(60)
    } else if c == 'h' || c == 'H' {
        Some(3600)
    } else {
        None
    }
}

/// "`" + `spec` + `tail`.
fn quoted(spec: &str, tail: &str) -> (r: String)
    ensures
        r@ == "`"@ + spec@ + tail@,
{
    let mut r = String::from_str("`");
    r.append(spec);
    r.append(tail);
    r
}

/// Parse `90`, `30s`, `45m` or `2h` into a duration. A bare number is seconds,
/// matching the way macOS `caffeinate -t` reads its argument.
pub fn parse_duration(spec: &str) -> (r: Result<Duration, String>)
    ensures
        r is Ok <==> duration_result(spec@) is Ok,
        r matches Ok(d) ==> duration_result(spec@) matches Ok(secs) && d@ == secs * NANOS_PER_SEC,
        r matches Err(e) ==> duration_result(spec@) == Err::<nat, Seq<char>>(e@),
{
    let n = spec.unicode_len();
    if n == 0 {
        return Err(String::from_str("empty duration"));
    }
    let unit = unit_seconds_of(spec.get_char(n - 1));
    let (digits, multiplier): (&str, u64) = match unit {
        Some(m) => (spec.substring_char(0, n - 1), m),
        None => (spec, 1),
    };
    assert(spec@.drop_last() =~= spec@.subrange(0, n - 1));
    if digits.unicode_len() == 0 {
        return Err(quoted(spec, "` has a unit but no number"));
    }
    match parse_u64_str(digits) {
        None => Err(quoted(spec, "` is not a duration (try 90, 30s, 45m, 2h)")),
        Some(value) => match value.checked_mul(multiplier) {
            Some(secs) => {
                Ok(Duration::from_secs(secs))
            },
            None => Err(quoted(spec, "` is too large")),
        },
    }
}


/// What the process should do while it holds the machine awake.
#[derive(Debug, PartialEq, Eq)]
pub enum Mode {
    /// Run a command; the hold lasts exactly as long as the command does.
    Wrap(Vec<String>),
    /// Hold for a fixed period. The `String` is the duration as typed, kept
    /// for the label shown in the tray.
    Timed(Duration, String),
    /// Hold until interrupted.
    Hold,
    Help,
}

/// The parsed command line.
#[derive(Debug, PartialEq, Eq)]
pub struct Cli {
    pub display: bool,
    pub mode: Mode,
}

/// A [`Mode`] as plain values: command words, nanoseconds and texts.
pub enum ModeView {
    Wrap(Seq<Seq<char>>),
    Timed(nat, Seq<char>),
    Hold,
    Help,
}

/// A [`Cli`] as plain values.
pub struct CliView {
    pub display: bool,
    pub mode: ModeView,
}

/// The texts of a list of strings.
pub open spec fn texts(v: Seq<String>) -> Seq<Seq<char>> {
    v.map_values(|a: String| a@)
}

impl View for Mode {
    type V = ModeView;

    open spec fn view(&self) -> ModeView {
        match self {
            Mode::Wrap(cmd) => ModeView::Wrap(texts(cmd@)),
            Mode::Timed(d, spec) => ModeView::Timed(d@, spec@),
            Mode::Hold => ModeView::Hold,
            Mode::Help => ModeView::Help,
        }
    }
}

impl View for Cli {
    type V = CliView;

    open spec fn view(&self) -> CliView {
        CliView { display: self.display, mode: self.mode@ }
    }
}

/// How parsing ends once the options are read: `command` holds whatever
/// followed them. A time limit and a command cannot both be given.
pub open spec fn finish(display: bool, timed: Option<(nat, Seq<char>)>, command: Seq<Seq<char>>) -> Result<
    CliView,
    Seq<char>,
> {
    match timed {
        Some((nanos, spec)) => if command.len() == 0 {
            Ok(CliView { display, mode: ModeView::Timed(nanos, spec) })
        } else {
            Err("-t and a command cannot be combined. Pick one."@)
        },
        None => if command.len() == 0 {
            Ok(CliView { display, mode: ModeView::Hold })
        } else {
            Ok(CliView { display, mode: ModeView::Wrap(command) })
        },
    }
}

/// Whether an argument is an option: it starts with `-`.
pub open spec fn is_option(arg: Seq<char>) -> bool {
    arg.len() > 0 && arg[0] == '-'
}

/// Reading the arguments from position `i` on, with `-d` seen or not and the
/// time limit given so far (in nanoseconds, with its text).
///
/// `-h` wins over everything; `-d` sets the display flag; `-t` takes the next
/// argument as a duration; `--` ends the options and must be followed by a
/// command; the first argument that is not an option starts the command, and
/// everything after it belongs to the command; any other option is refused.
pub open spec fn parse_from(
    args: Seq<Seq<char>>,
    i: nat,
    display: bool,
    timed: Option<(nat, Seq<char>)>,
) -> Result<CliView, Seq<char>>
    decreases args.len() - i,
{
    if i >= args.len() {
        finish(display, timed, Seq::empty())
    } else {
        let arg = args[i as int];
        if arg == "-h"@ || arg == "--help"@ {
            Ok(CliView { display: false, mode: ModeView::Help })
        } else if arg == "-d"@ || arg == "--display"@ {
            parse_from(args, i + 1, true, timed)
        } else if arg == "-t"@ || arg == "--time"@ {
            if i + 1 >= args.len() {
                Err(arg + " needs a duration"@)
            } else {
                match duration_result(args[i + 1int]) {
                    Ok(secs) => parse_from(
                        args,
                        i + 2,
                        display,
                        Some((secs * NANOS_PER_SEC as nat, args[i + 1int])),
                    ),
                    Err(e) => Err(e),
                }
            }
        } else if arg == "--"@ {
            if i + 1 >= args.len() {
                Err("`--` with no command after it"@)
            } else {
                finish(display, timed, args.skip(i + 1int))
            }
        } else if !is_option(arg) {
            finish(display, timed, args.skip(i as int))
        } else {
            Err("unknown option `"@ + arg + "`"@)
        }
    }
}

/// What `parse_args` makes of a whole command line.
pub open spec fn parse_result(args: Seq<Seq<char>>) -> Result<CliView, Seq<char>> {
    parse_from(args, 0, false, None)
}

pub open spec fn timed_view(timed: Option<(Duration, String)>) -> Option<(nat, Seq<char>)> {
    match timed {
        Some((d, s)) => Some((d@, s@)),
        None => None,
    }
}

/// Copies of the arguments from `from` on.
fn tail(args: &[String], from: usize) -> (r: Vec<String>)
    requires
        from <= args@.len(),
    ensures
        texts(r@) == texts(args@).skip(from as int),
{
    let mut r: Vec<String> = Vec::new();
    let mut k = from;
    while k < args.len()
        invariant
            from <= k <= args@.len(),
            texts(r@) == texts(args@).subrange(from as int, k as int),
        decreases args@.len() - k,
    {
        let a = args[k].clone();
        assert(a == args@[k as int]);
        let ghost before = r@;
        r.push(a);
        assert(r@ == before.push(a));
        assert(texts(r@) =~= texts(before).push(a@));
        assert(texts(r@) =~= texts(args@).subrange(from as int, k + 1));
        k = k + 1;
    }
    assert(texts(args@).subrange(from as int, args@.len() as int) =~= texts(args@).skip(
        from as int,
    ));
    r
}

fn finish_exec(display: bool, timed: Option<(Duration, String)>, command: Vec<String>) -> (r:
    Result<Cli, String>)
    ensures
        match r {
            Ok(cli) => finish(display, timed_view(timed), texts(command@)) == Ok::<
                CliView,
                Seq<char>,
            >(cli@),
            Err(e) => finish(display, timed_view(timed), texts(command@)) == Err::<
                CliView,
                Seq<char>,
            >(e@),
        },
{
    // macOS quietly ignores -t when a command is given. Refusing is clearer:
    // a silently dropped time limit is worse than an error.
    match timed {
        Some((duration, spec)) => if command.len() == 0 {
            Ok(Cli { display, mode: Mode::Timed(duration, spec) })
        } else {
            Err(String::from_str("-t and a command cannot be combined. Pick one."))
        },
        None => if command.len() == 0 {
            Ok(Cli { display, mode: Mode::Hold })
        } else {
            Ok(Cli { display, mode: Mode::Wrap(command) })
        },
    }
}

fn starts_with_dash(arg: &str) -> (b: bool)
    ensures
        b == is_option(arg@),
{
    arg.unicode_len() > 0 && arg.get_char(0) == '-'
}

pub fn parse_args(args: &[String]) -> (r: Result<Cli, String>)
    ensures
        match r {
            Ok(cli) => parse_result(texts(args@)) == Ok::<CliView, Seq<char>>(cli@),
            Err(e) => parse_result(texts(args@)) == Err::<CliView, Seq<char>>(e@),
        },
{
    let ghost a = texts(args@);
    let mut display = false;
    let mut timed: Option<(Duration, String)> = None;
    let mut i: usize = 0;
    while i < args.len()
        invariant
            a == texts(args@),
            i <= args@.len(),
            parse_from(a, i as nat, display, timed_view(timed)) == parse_result(a),
        decreases args@.len() - i,
    {
        let arg = args[i].as_str();
        assert(a[i as int] == arg@);
        if str_eq(arg, "-h") || str_eq(arg, "--help") {
            return Ok(Cli { display: false, mode: Mode::Help });
        } else if str_eq(arg, "-d") || str_eq(arg, "--display") {
            display = true;
            i = i + 1;
        } else if str_eq(arg, "-t") || str_eq(arg, "--time") {
            if i + 1 >= args.len() {
                let mut e = String::from_str(arg);
                e.append(" needs a duration");
                return Err(e);
            }
            let spec = &args[i + 1];
            assert(a[i + 1] == spec@);
            match parse_duration(spec.as_str()) {
                Ok(d) => {
                    timed = Some((d, spec.clone()));
                    i = i + 2;
                },
                Err(e) => {
                    return Err(e);
                },
            }
        } else if str_eq(arg, "--") {
            if i + 1 >= args.len() {
                // Silently turning this into an unbounded hold would leave a
                // script whose command expanded to nothing holding the machine
                // awake, saying nothing, until something killed it.
                return Err(String::from_str("`--` with no command after it"));
            }
            return finish_exec(display, timed, tail(args, i + 1));
        } else if !starts_with_dash(arg) {
            // The first non-option argument starts the command, and
            // everything after it belongs to the command rather than to us.
            return finish_exec(display, timed, tail(args, i));
        } else {
            let mut e = String::from_str("unknown option `");
            e.append(arg);
            e.append("`");
            return Err(e);
        }
    }
    let none: Vec<String> = Vec::new();
    assert(texts(none@) =~= Seq::<Seq<char>>::empty());
    finish_exec(display, timed, none)
}


/// The words joined by single spaces.
pub open spec fn joined(words: Seq<Seq<char>>) -> Seq<char>
    decreases words.len(),
{
    if words.len() == 0 {
        Seq::empty()
    } else if words.len() == 1 {
        words[0]
    } else {
        joined(words.drop_last()) + " "@ + words.last()
    }
}

/// The text the tray shows for a hold of the given mode.
pub open spec fn label_text(mode: ModeView) -> Seq<char> {
    match mode {
        ModeView::Wrap(cmd) => joined(cmd),
        ModeView::Timed(_, spec) => "hold "@ + spec,
        ModeView::Hold => "hold"@,
        ModeView::Help => Seq::empty(),
    }
}

/// Text the tray shows for this hold.
pub fn label(mode: &Mode) -> (r: String)
    ensures
        r@ == label_text(mode@),
{
    match mode {
        Mode::Wrap(cmd) => {
            let mut r = String::new();
            let mut i: usize = 0;
            while i < cmd.len()
                invariant
                    i <= cmd@.len(),
                    r@ == joined(texts(cmd@).take(i as int)),
                decreases cmd@.len() - i,
            {
                if i > 0 {
                    r.append(" ");
                }
                r.append(cmd[i].as_str());
                assert(texts(cmd@).take(i + 1).drop_last() =~= texts(cmd@).take(i as int));
                assert(r@ =~= joined(texts(cmd@).take(i + 1)));
                i = i + 1;
            }
            assert(texts(cmd@).take(cmd@.len() as int) =~= texts(cmd@));
            r
        },
        Mode::Timed(_, spec) => {
            let mut r = String::from_str("hold ");
            r.append(spec.as_str());
            r
        },
        Mode::Hold => String::from_str("hold"),
        Mode::Help => String::new(),
    }
}


/// How a run of `caffeinate` ended, as far as its exit status goes.
#[derive(Debug, Clone, Copy, PartialEq, Eq)]
pub enum Outcome {
    /// The arguments were refused.
    Refused,
    /// The help text was printed.
    Helped,
    /// A `-t` period ran out.
    Elapsed,
    /// The wrapped command could not be started.
    CannotStart,
    /// The wrapped command ended with this exit code.
    Exited(i32),
    /// The wrapped command ended without an exit code.
    NoCode,
}

/// The exit status `caffeinate` reports for an outcome: 2 for refused
/// arguments, 0 for help and for a period that ran out, 127 (the shell's "not
/// found") for a command that could not be started, the command's own code
/// when it has one, and 1 when it has none.
pub open spec fn outcome_code(outcome: Outcome) -> int {
    match outcome {
        Outcome::Refused => 2,
        Outcome::Helped => 0,
        Outcome::Elapsed => 0,
        Outcome::CannotStart => 127,
        Outcome::Exited(code) => code as int,
        Outcome::NoCode => 1,
    }
}

/// The exit status to end the process with.
pub fn exit_code(outcome: Outcome) -> (r: i32)
    ensures
        r as int == outcome_code(outcome),
{
    match outcome {
        Outcome::Refused => 2,
        Outcome::Helped => 0,
        Outcome::Elapsed => 0,
        Outcome::CannotStart => 127,
        Outcome::Exited(code) => code,
        Outcome::NoCode => 1,
    }
}

/// Unit suffixes are case-insensitive: `2H` means what `2h` means.
pub proof fn law_units_ignore_case(digits: Seq<char>)
    ensures
        duration_result(digits.push('s')) is Ok <==> duration_result(digits.push('S')) is Ok,
        duration_result(digits.push('m')) is Ok <==> duration_result(digits.push('M')) is Ok,
        duration_result(digits.push('h')) is Ok <==> duration_result(digits.push('H')) is Ok,
        duration_result(digits.push('s')) matches Ok(a) ==> duration_result(digits.push('S')) == Ok::<nat, Seq<char>>(a),
        duration_result(digits.push('m')) matches Ok(a) ==> duration_result(digits.push('M')) == Ok::<nat, Seq<char>>(a),
        duration_result(digits.push('h')) matches Ok(a) ==> duration_result(digits.push('H')) == Ok::<nat, Seq<char>>(a),
{
    assert(digits.push('s').drop_last() =~= digits);
    assert(digits.push('S').drop_last() =~= digits);
    assert(digits.push('m').drop_last() =~= digits);
    assert(digits.push('M').drop_last() =~= digits);
    assert(digits.push('h').drop_last() =~= digits);
    assert(digits.push('H').drop_last() =~= digits);
}

/// The words the parser looks for are different from one another, and each
/// of them is an option.
proof fn lemma_option_words_differ()
    ensures
        "-h"@ != "-d"@,
        "-h"@ != "-t"@,
        "-h"@ != "--"@,
        "-d"@ != "-t"@,
        "-d"@ != "--"@,
        "-t"@ != "--"@,
        "--help"@ != "-d"@,
        "--help"@ != "-t"@,
        "--help"@ != "--"@,
        "--help"@ != "--display"@,
        "--help"@ != "--time"@,
        "--display"@ != "-h"@,
        "--display"@ != "-t"@,
        "--display"@ != "--"@,
        "--display"@ != "--time"@,
        "--time"@ != "-h"@,
        "--time"@ != "-d"@,
        "--time"@ != "--"@,
        "-h"@ != "--time"@,
        "-d"@ != "--time"@,
        "-t"@ != "--help"@,
        "-t"@ != "--display"@,
        "-d"@ != "--help"@,
        "-h"@ != "--display"@,
        "--"@ != "--help"@,
        "--"@ != "--display"@,
        "--"@ != "--time"@,
        is_option("-h"@),
        is_option("--help"@),
        is_option("-d"@),
        is_option("--display"@),
        is_option("-t"@),
        is_option("--time"@),
        is_option("--"@),
{
    reveal_strlit("-h");
    reveal_strlit("--help");
    reveal_strlit("-d");
    reveal_strlit("--display");
    reveal_strlit("-t");
    reveal_strlit("--time");
    reveal_strlit("--");
    assert("--"@.len() == 2 && "-h"@.len() == 2 && "-d"@.len() == 2 && "-t"@.len() == 2);
    assert("--help"@.len() == 6 && "--time"@.len() == 6 && "--display"@.len() == 9);
    assert("-h"@[1] != "-d"@[1]);
    assert("-h"@[1] != "-t"@[1]);
    assert("-h"@[1] != "--"@[1]);
    assert("-d"@[1] != "-t"@[1]);
    assert("-d"@[1] != "--"@[1]);
    assert("-t"@[1] != "--"@[1]);
    assert("--help"@[2] != "--display"@[2]);
    assert("--help"@[2] != "--time"@[2]);
    assert("--display"@[2] != "--time"@[2]);
}

proof fn lemma_help_wins_from(args: Seq<Seq<char>>, j: nat, i: nat, display: bool)
    requires
        j <= i < args.len(),
        forall|k: int| j <= k < i ==> args[k] == "-d"@ || args[k] == "--display"@,
        args[i as int] == "-h"@ || args[i as int] == "--help"@,
    ensures
        parse_from(args, j, display, None) == Ok::<CliView, Seq<char>>(
            CliView { display: false, mode: ModeView::Help },
        ),
    decreases i - j,
{
    lemma_option_words_differ();
    if j < i {
        assert(args[j as int] == "-d"@ || args[j as int] == "--display"@);
        lemma_help_wins_from(args, j + 1, i, true);
    }
}

/// Help wins over everything else: `-h` or `--help` after nothing but
/// display flags asks for the usage text, whatever follows it.
pub proof fn law_help_wins(args: Seq<Seq<char>>, i: nat)
    requires
        i < args.len(),
        forall|k: int| 0 <= k < i ==> args[k] == "-d"@ || args[k] == "--display"@,
        args[i as int] == "-h"@ || args[i as int] == "--help"@,
    ensures
        parse_result(args) == Ok::<CliView, Seq<char>>(CliView { display: false, mode: ModeView::Help }),
{
    lemma_help_wins_from(args, 0, i, false);
}

/// The first argument that is not an option starts the command, and every
/// argument after it, options included, belongs to the command.
pub proof fn law_arguments_after_the_command_belong_to_it(args: Seq<Seq<char>>)
    requires
        args.len() > 0,
        !is_option(args[0]),
    ensures
        parse_result(args) == Ok::<CliView, Seq<char>>(CliView { display: false, mode: ModeView::Wrap(args) }),
{
    lemma_option_words_differ();
    assert(args[0] != "-h"@ && args[0] != "--help"@ && args[0] != "-d"@ && args[0] != "--display"@);
    assert(args[0] != "-t"@ && args[0] != "--time"@ && args[0] != "--"@);
    assert(args.skip(0) =~= args);
}


/// A parse result as it is once `-d` has been seen: every hold keeps the
/// screen on too; help and refusals are what they were.
pub open spec fn with_display(r: Result<CliView, Seq<char>>) -> Result<CliView, Seq<char>> {
    match r {
        Ok(v) => if v.mode is Help {
            Ok(v)
        } else {
            Ok(CliView { display: true, mode: v.mode })
        },
        Err(e) => Err(e),
    }
}

proof fn lemma_display_from(args: Seq<Seq<char>>, i: nat, timed: Option<(nat, Seq<char>)>)
    ensures
        parse_from(args, i, true, timed) == with_display(parse_from(args, i, false, timed)),
    decreases args.len() - i,
{
    if i < args.len() {
        let arg = args[i as int];
        if arg == "-h"@ || arg == "--help"@ {
        } else if arg == "-d"@ || arg == "--display"@ {
            lemma_display_from(args, i + 1, timed);
        } else if arg == "-t"@ || arg == "--time"@ {
            if i + 1 < args.len() {
                match duration_result(args[i + 1int]) {
                    Ok(secs) => {
                        lemma_display_from(
                            args,
                            i + 2,
                            Some((secs * NANOS_PER_SEC as nat, args[i + 1int])),
                        );
                    },
                    Err(_) => {},
                }
            }
        }
    }
}

proof fn lemma_shift_from(
    first: Seq<char>,
    rest: Seq<Seq<char>>,
    i: nat,
    display: bool,
    timed: Option<(nat, Seq<char>)>,
)
    ensures
        parse_from(seq![first] + rest, i + 1, display, timed) == parse_from(rest, i, display, timed),
    decreases rest.len() - i,
{
    let a = seq![first] + rest;
    if i < rest.len() {
        assert(a[i + 1int] == rest[i as int]);
        assert(a.skip(i + 1int) =~= rest.skip(i as int));
        if i + 1 < rest.len() {
            assert(a[i + 2int] == rest[i + 1int]);
            assert(a.skip(i + 2int) =~= rest.skip(i + 1int));
        }
        let arg = rest[i as int];
        if arg == "-h"@ || arg == "--help"@ {
        } else if arg == "-d"@ || arg == "--display"@ {
            lemma_shift_from(first, rest, i + 1, true, timed);
        } else if arg == "-t"@ || arg == "--time"@ {
            if i + 1 < rest.len() {
                match duration_result(rest[i + 1int]) {
                    Ok(secs) => {
                        lemma_shift_from(
                            first,
                            rest,
                            i + 2,
                            display,
                            Some((secs * NANOS_PER_SEC as nat, rest[i + 1int])),
                        );
                    },
                    Err(_) => {},
                }
            }
        }
    }
}

/// `-d` (or `--display`) in front of a command line keeps the screen on for
/// whatever hold the rest asks for, and changes nothing else: the same mode,
/// the same refusals, and help is still help.
pub proof fn law_display_flag_keeps_the_screen_on(flag: Seq<char>, rest: Seq<Seq<char>>)
    requires
        flag == "-d"@ || flag == "--display"@,
    ensures
        parse_result(seq![flag] + rest) == with_display(parse_result(rest)),
{
    lemma_option_words_differ();
    let a = seq![flag] + rest;
    assert(a[0] == flag);
    assert(parse_result(a) == parse_from(a, 1, true, None));
    lemma_shift_from(flag, rest, 0, true, None);
    lemma_display_from(rest, 0, None);
}

/// `caffeinate -d cargo build` wraps `cargo build` and keeps the screen on.
pub proof fn law_display_before_a_command(flag: Seq<char>, command: Seq<Seq<char>>)
    requires
        flag == "-d"@ || flag == "--display"@,
        command.len() > 0,
        !is_option(command[0]),
    ensures
        parse_result(seq![flag] + command) == Ok::<CliView, Seq<char>>(
            CliView { display: true, mode: ModeView::Wrap(command) },
        ),
{
    law_display_flag_keeps_the_screen_on(flag, command);
    law_arguments_after_the_command_belong_to_it(command);
}

/// With no arguments, `caffeinate` holds system sleep off until interrupted,
/// and leaves the screen alone.
pub proof fn law_no_arguments_hold_until_interrupted()
    ensures
        parse_result(Seq::empty()) == Ok::<CliView, Seq<char>>(
            CliView { display: false, mode: ModeView::Hold },
        ),
{
}

/// `-t <duration>` alone holds for that long: the number scaled by its unit,
/// in nanoseconds, with the duration's text kept for the label.
pub proof fn law_a_time_limit_alone_is_a_timed_hold(spec: Seq<char>)
    requires
        duration_result(spec) is Ok,
    ensures
        parse_result(seq!["-t"@, spec]) == Ok::<CliView, Seq<char>>(
            CliView {
                display: false,
                mode: ModeView::Timed(duration_result(spec)->Ok_0 * 1_000_000_000, spec),
            },
        ),
{
    lemma_option_words_differ();
    let args = seq!["-t"@, spec];
    assert(args[0] == "-t"@);
    assert(args[1] == spec);
    let secs = duration_result(spec)->Ok_0;
    let timed = Some((secs * NANOS_PER_SEC as nat, spec));
    assert(parse_from(args, 2, false, timed) == Ok::<CliView, Seq<char>>(
        CliView { display: false, mode: ModeView::Timed(secs * 1_000_000_000, spec) },
    ));
    assert(parse_from(args, 0, false, None) == parse_from(args, 2, false, timed));
}

/// A number is seconds, and the suffixes `s`, `m` and `h` scale it by 1, 60
/// and 3600.
pub proof fn law_units_scale_the_number(digits: Seq<char>, v: u64)
    requires
        digits.len() > 0,
        all_digits(digits),
        parse_u64(digits) == Some(v),
        v as nat * 3600 <= u64::MAX,
    ensures
        duration_result(digits) == Ok::<nat, Seq<char>>(v as nat),
        duration_result(digits.push('s')) == Ok::<nat, Seq<char>>(v as nat),
        duration_result(digits.push('m')) == Ok::<nat, Seq<char>>(v as nat * 60),
        duration_result(digits.push('h')) == Ok::<nat, Seq<char>>(v as nat * 3600),
{
    assert('0' <= digits[digits.len() - 1] <= '9');
    assert(digits.push('s').drop_last() =~= digits);
    assert(unit_seconds(digits.push('s').last()) == Some(1u64));
    assert(v as nat * (1u64 as nat) == v as nat);
    assert(digits.push('m').drop_last() =~= digits);
    assert(digits.push('h').drop_last() =~= digits);
}

/// A time limit and a command cannot be combined: a silently dropped limit
/// would be worse than an error.
pub proof fn law_time_and_a_command_are_refused(spec: Seq<char>, command: Seq<Seq<char>>)
    requires
        duration_result(spec) is Ok,
        command.len() > 0,
        !is_option(command[0]),
    ensures
        parse_result(seq!["-t"@, spec] + command) == Err::<CliView, Seq<char>>(
            "-t and a command cannot be combined. Pick one."@,
        ),
{
    lemma_option_words_differ();
    let args = seq!["-t"@, spec] + command;
    assert(args[0] == "-t"@);
    assert(args[1] == spec);
    assert(args[2] == command[0]);
    assert(args[2] != "-h"@ && args[2] != "--help"@ && args[2] != "-d"@ && args[2] != "--display"@);
    assert(args[2] != "-t"@ && args[2] != "--time"@ && args[2] != "--"@);
    assert(args.skip(2) =~= command);
    let secs = duration_result(spec)->Ok_0;
    let timed = Some((secs * NANOS_PER_SEC as nat, spec));
    assert(parse_from(args, 2, false, timed) == Err::<CliView, Seq<char>>(
        "-t and a command cannot be combined. Pick one."@,
    ));
    assert(parse_from(args, 0, false, None) == parse_from(args, 2, false, timed));
}

/// `--` with nothing after it is refused rather than turned into a hold
/// without end.
pub proof fn law_a_bare_double_dash_is_refused(args: Seq<Seq<char>>)
    requires
        args.len() > 0,
        args.last() == "--"@,
        forall|k: int| 0 <= k < args.len() - 1 ==> args[k] == "-d"@ || args[k] == "--display"@,
    ensures
        parse_result(args) == Err::<CliView, Seq<char>>("`--` with no command after it"@),
{
    lemma_option_words_differ();
    lemma_double_dash_from(args, 0, false);
}

proof fn lemma_double_dash_from(args: Seq<Seq<char>>, j: nat, display: bool)
    requires
        j < args.len(),
        args.last() == "--"@,
        forall|k: int| j <= k < args.len() - 1 ==> args[k] == "-d"@ || args[k] == "--display"@,
    ensures
        parse_from(args, j, display, None) == Err::<CliView, Seq<char>>(
            "`--` with no command after it"@,
        ),
    decreases args.len() - j,
{
    lemma_option_words_differ();
    if j < args.len() - 1 {
        assert(args[j as int] == "-d"@ || args[j as int] == "--display"@);
        lemma_double_dash_from(args, j + 1, true);
    } else {
        assert(args[args.len() - 1] == args.last());
        assert(args[j as int] == "--"@);
        assert(args[j as int] != "-h"@ && args[j as int] != "--help"@);
        assert(args[j as int] != "-d"@ && args[j as int] != "--display"@);
        assert(args[j as int] != "-t"@ && args[j as int] != "--time"@);
    }
}

} // verus!
