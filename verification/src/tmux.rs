//! Which tmux is used, how it is set up, and when it is asked what a pane is
//! doing.
use crate::text::texts;
use vstd::prelude::*;

verus! {

/// What the configuration file of the private tmux server holds.
pub fn tmux_conf() -> (conf: &'static str)
    ensures
        conf@ == conf_text(),
{
    "set -g status off\nset -g mouse on\nset -g history-limit 20000\nset -g escape-time 10\nset -g focus-events on\nset -g default-terminal \"xterm-256color\"\nsetw -g aggressive-resize on\nset -g bell-action any\nset -g visual-bell off\nsetw -g monitor-bell on\n"
}

/// No status bar, mouse events for the programs, a long history, and bells
/// that are passed on.
pub open spec fn conf_text() -> Seq<char> {
    "set -g status off\nset -g mouse on\nset -g history-limit 20000\nset -g escape-time 10\nset -g focus-events on\nset -g default-terminal \"xterm-256color\"\nsetw -g aggressive-resize on\nset -g bell-action any\nset -g visual-bell off\nsetw -g monitor-bell on\n"@
}

/// A tmux to run terminals in: its binary, its configuration file and the
/// name of the private server.
pub struct TmuxEnv {
    pub bin: String,
    pub conf: String,
    pub socket: String,
}

/// Where tmux is looked for, in this order.
pub open spec fn candidate(k: int) -> Seq<char> {
    if k == 0 {
        "/opt/homebrew/bin/tmux"@
    } else if k == 1 {
        "/usr/local/bin/tmux"@
    } else if k == 2 {
        "/usr/bin/tmux"@
    } else {
        "/opt/local/bin/tmux"@
    }
}

/// Where tmux is looked for, in this order.
pub fn tmux_candidates() -> (paths: Vec<String>)
    ensures
        texts(paths@) == Seq::new(4, |k: int| candidate(k)),
{
    let mut paths: Vec<String> = Vec::new();
    paths.push("/opt/homebrew/bin/tmux".to_owned());
    paths.push("/usr/local/bin/tmux".to_owned());
    paths.push("/usr/bin/tmux".to_owned());
    paths.push("/opt/local/bin/tmux".to_owned());
    assert(texts(paths@) =~= Seq::new(4, |k: int| candidate(k)));
    paths
}

/// The first candidate that exists; else the tmux of the search path, if it
/// runs.
pub open spec fn chosen_tmux(exists: Seq<bool>, on_path: bool) -> Option<Seq<char>> {
    if exists[0] {
        Some(candidate(0))
    } else if exists[1] {
        Some(candidate(1))
    } else if exists[2] {
        Some(candidate(2))
    } else if exists[3] {
        Some(candidate(3))
    } else if on_path {
        Some("tmux"@)
    } else {
        None
    }
}

/// Picks the tmux to use: `exists` says which of the candidates exist,
/// `on_path` whether `tmux -V` succeeds, `conf` where the configuration file
/// lies. Without any tmux there is none.
pub fn tmux_env(exists: &Vec<bool>, on_path: bool, conf: String) -> (env: Option<TmuxEnv>)
    requires
        exists@.len() == 4,
    ensures
        match env {
            Some(t) => chosen_tmux(exists@, on_path) == Some(t.bin@) && t.conf@ == conf@
                && t.socket@ == "rs-term"@,
            None => chosen_tmux(exists@, on_path) is None,
        },
{
    let paths = tmux_candidates();
    let mut k: usize = 0;
    assert(texts(paths@).len() == 4);
    assert forall|i: int| 0 <= i < 4 implies (#[trigger] paths@[i])@ == candidate(i) by {
        assert(texts(paths@)[i] == candidate(i));
    }
    while k < 4
        invariant
            k <= 4,
            exists@.len() == 4,
            paths@.len() == 4,
            forall|i: int| 0 <= i < 4 ==> (#[trigger] paths@[i])@ == candidate(i),
            forall|i: int| 0 <= i < k ==> !#[trigger] exists@[i],
        decreases 4 - k,
    {
        if exists[k] {
            return Some(
                TmuxEnv { bin: paths[k].clone(), conf, socket: "rs-term".to_owned() },
            );
        }
        k += 1;
    }
    if on_path {
        Some(TmuxEnv { bin: "tmux".to_owned(), conf, socket: "rs-term".to_owned() })
    } else {
        None
    }
}

/// What the user is told where there is no tmux.
pub fn tmux_notice(tmux: Option<&TmuxEnv>) -> (note: Option<&'static str>)
    ensures
        note is Some <==> tmux is None,
        note matches Some(s) ==> s@ == "tmux not found: terminals do not survive a restart"@,
{
    match tmux {
        Some(_) => None,
        None => Some("tmux not found: terminals do not survive a restart"),
    }
}

/// Where the poller of a terminal stands.
#[derive(Clone, Copy, Debug, PartialEq, Eq, Structural)]
pub enum PollState {
    /// It has not begun.
    Start,
    /// It asked whether the session exists; it asked so often before.
    Probing(u8),
    /// It sleeps before it asks again.
    Waiting(u8),
    /// It set this option of the session.
    Configuring(u8),
    /// It asked what the pane is doing.
    Asking,
    /// It sleeps before it asks again; it slept so often before.
    Resting(u8),
    /// It has ended.
    Stopped,
}

/// What the poller does next.
#[derive(Clone, Copy, Debug, PartialEq, Eq, Structural)]
pub enum PollStep {
    /// Ask tmux whether the session exists.
    HasSession,
    /// Set an option of the session.
    SetOption(u8),
    /// Ask tmux what the pane is doing.
    Ask,
    /// Sleep for 150 ms.
    Sleep,
    /// End.
    Stop,
}

/// To ask what the pane is doing, if the terminal still runs.
pub open spec fn ask_or_stop(running: bool) -> (PollState, PollStep) {
    if running {
        (PollState::Asking, PollStep::Ask)
    } else {
        (PollState::Stopped, PollStep::Stop)
    }
}

/// The course of a poller. It waits for the session, looking up to twenty
/// times; once there, it sets the options of the session; then it keeps asking
/// what the pane is doing, with ten short sleeps in between. Whenever it is
/// about to look, to ask or to sleep between questions, it ends if the
/// terminal does not run any more. `ok` says whether the last command
/// succeeded.
pub open spec fn poll_next(state: PollState, running: bool, ok: bool) -> (PollState, PollStep) {
    match state {
        PollState::Start => if running {
            (PollState::Probing(0), PollStep::HasSession)
        } else {
            (PollState::Stopped, PollStep::Stop)
        },
        PollState::Probing(n) => if ok {
            (PollState::Configuring(0), PollStep::SetOption(0))
        } else {
            (PollState::Waiting(n), PollStep::Sleep)
        },
        PollState::Waiting(n) => if n >= 19 {
            ask_or_stop(running)
        } else if running {
            (PollState::Probing((n + 1) as u8), PollStep::HasSession)
        } else {
            (PollState::Stopped, PollStep::Stop)
        },
        PollState::Configuring(k) => if k < 3 {
            (PollState::Configuring((k + 1) as u8), PollStep::SetOption((k + 1) as u8))
        } else {
            ask_or_stop(running)
        },
        PollState::Asking => if running {
            (PollState::Resting(0), PollStep::Sleep)
        } else {
            (PollState::Stopped, PollStep::Stop)
        },
        PollState::Resting(k) => if k < 9 && running {
            (PollState::Resting((k + 1) as u8), PollStep::Sleep)
        } else {
            ask_or_stop(running)
        },
        PollState::Stopped => (PollState::Stopped, PollStep::Stop),
    }
}

/// The next step of a poller.
pub fn poll_step(state: PollState, running: bool, ok: bool) -> (next: (PollState, PollStep))
    ensures
        next == poll_next(state, running, ok),
{
    let ask = if running {
        (PollState::Asking, PollStep::Ask)
    } else {
        (PollState::Stopped, PollStep::Stop)
    };
    match state {
        PollState::Start => if running {
            (PollState::Probing(0), PollStep::HasSession)
        } else {
            (PollState::Stopped, PollStep::Stop)
        },
        PollState::Probing(n) => if ok {
            (PollState::Configuring(0), PollStep::SetOption(0))
        } else {
            (PollState::Waiting(n), PollStep::Sleep)
        },
        PollState::Waiting(n) => if n >= 19 {
            ask
        } else if running {
            (PollState::Probing(n + 1), PollStep::HasSession)
        } else {
            (PollState::Stopped, PollStep::Stop)
        },
        PollState::Configuring(k) => if k < 3 {
            (PollState::Configuring(k + 1), PollStep::SetOption(k + 1))
        } else {
            ask
        },
        PollState::Asking => if running {
            (PollState::Resting(0), PollStep::Sleep)
        } else {
            (PollState::Stopped, PollStep::Stop)
        },
        PollState::Resting(k) => if k < 9 && running {
            (PollState::Resting(k + 1), PollStep::Sleep)
        } else {
            ask
        },
        PollState::Stopped => (PollState::Stopped, PollStep::Stop),
    }
}

/// Where a poller stands before its `n`-th step, counted from zero, if its
/// terminal keeps running. `ok(k)` says whether the command before the `k`-th
/// step succeeded.
pub open spec fn state_before(ok: spec_fn(int) -> bool, n: int) -> PollState
    decreases n,
{
    if n <= 0 {
        PollState::Start
    } else {
        poll_next(state_before(ok, n - 1), true, ok(n - 1)).0
    }
}

/// The `n`-th step of a poller whose terminal keeps running.
pub open spec fn nth_step(ok: spec_fn(int) -> bool, n: int) -> PollStep {
    poll_next(state_before(ok, n), true, ok(n)).1
}

/// The session was found at this look, counted from zero; or it was not found
/// at any of twenty.
pub open spec fn is_found(ok: spec_fn(int) -> bool, found: Option<int>) -> bool {
    match found {
        Some(look) => {
            &&& 0 <= look < 20
            &&& ok(2 * look + 1)
            &&& forall|k: int| 0 <= k < look ==> !#[trigger] ok(2 * k + 1)
        },
        None => forall|k: int| 0 <= k < 20 ==> !#[trigger] ok(2 * k + 1),
    }
}

/// How many steps the search for the session takes.
pub open spec fn search_steps(found: Option<int>) -> int {
    match found {
        Some(look) => 2 * look + 1,
        None => 40,
    }
}

/// How many steps there are before the first question.
pub open spec fn steps_to_ask(found: Option<int>) -> int {
    match found {
        Some(look) => 2 * look + 5,
        None => 40,
    }
}

/// The steps of a poller: looks with a sleep after each that finds nothing;
/// then each of the four options in its turn, if the session was found; then
/// questions with ten sleeps after each.
pub open spec fn course(found: Option<int>, n: int) -> PollStep {
    if n < search_steps(found) {
        if n % 2 == 0 {
            PollStep::HasSession
        } else {
            PollStep::Sleep
        }
    } else if n < steps_to_ask(found) {
        PollStep::SetOption((n - search_steps(found)) as u8)
    } else if (n - steps_to_ask(found)) % 11 == 0 {
        PollStep::Ask
    } else {
        PollStep::Sleep
    }
}

/// Where a poller stands in that course.
spec fn state_in_course(found: Option<int>, n: int) -> PollState {
    if n == 0 {
        PollState::Start
    } else if n <= search_steps(found) {
        if n % 2 == 1 {
            PollState::Probing((n / 2) as u8)
        } else {
            PollState::Waiting((n / 2 - 1) as u8)
        }
    } else if n <= steps_to_ask(found) {
        PollState::Configuring((n - search_steps(found) - 1) as u8)
    } else {
        let rest = (n - steps_to_ask(found) - 1) % 11;
        if rest == 0 {
            PollState::Asking
        } else {
            PollState::Resting((rest - 1) as u8)
        }
    }
}

/// One step leads from one place in the course to the next.
proof fn course_goes_on(ok: spec_fn(int) -> bool, found: Option<int>, n: int)
    requires
        0 <= n,
        is_found(ok, found),
    ensures
        poll_next(state_in_course(found, n), true, ok(n)) == (
            state_in_course(found, n + 1),
            course(found, n),
        ),
{
    if n <= search_steps(found) && n % 2 == 1 {
        let k = n / 2;
        assert(n == 2 * k + 1);
        assert(ok(2 * k + 1) == (found == Some(k)));
    }
}

/// While its terminal runs, a poller keeps to its course: it looks for the
/// session at most twenty times, sets each option once and in order, and then
/// asks, with ten sleeps between two questions.
pub proof fn poller_keeps_course(ok: spec_fn(int) -> bool, found: Option<int>, n: int)
    requires
        0 <= n,
        is_found(ok, found),
    ensures
        nth_step(ok, n) == course(found, n),
        nth_step(ok, n) == PollStep::HasSession ==> n < 40 && n % 2 == 0,
        forall|k: u8|
            nth_step(ok, n) == PollStep::SetOption(k) ==> k < 4 && found is Some && n
                == search_steps(found) + k,
        nth_step(ok, n) == PollStep::Ask <==> n >= steps_to_ask(found) && (n - steps_to_ask(found))
            % 11 == 0,
        nth_step(ok, n) != PollStep::Stop,
{
    course_is_reached(ok, found, n);
    course_goes_on(ok, found, n);
}

proof fn course_is_reached(ok: spec_fn(int) -> bool, found: Option<int>, n: int)
    requires
        0 <= n,
        is_found(ok, found),
    ensures
        state_before(ok, n) == state_in_course(found, n),
    decreases n,
{
    if n > 0 {
        course_is_reached(ok, found, n - 1);
        course_goes_on(ok, found, n - 1);
    }
}

/// How many steps a poller may still take once its terminal does not run any
/// more.
pub open spec fn steps_to_stop(state: PollState) -> nat {
    match state {
        PollState::Stopped => 0,
        PollState::Probing(_) => 5,
        PollState::Configuring(k) => if k < 3 {
            (4 - k) as nat
        } else {
            1
        },
        _ => 1,
    }
}

/// Once its terminal does not run any more, a poller ends: each step brings it
/// nearer to the end.
pub proof fn poller_ends(state: PollState, ok: bool)
    ensures
        state != PollState::Stopped ==> steps_to_stop(poll_next(state, false, ok).0)
            < steps_to_stop(state),
        steps_to_stop(state) == 0 ==> state == PollState::Stopped,
{
}

/// The arguments of tmux for a step of the poller.
pub open spec fn poll_command(step: PollStep, socket: Seq<char>, session: Seq<char>) -> Seq<
    Seq<char>,
> {
    match step {
        PollStep::HasSession => seq!["-L"@, socket, "has-session"@, "-t"@, session],
        PollStep::SetOption(0) => seq![
            "-L"@,
            socket,
            "set-option"@,
            "-t"@,
            session,
            "status"@,
            "off"@,
        ],
        PollStep::SetOption(1) => seq!["-L"@, socket, "set-option"@, "-g"@, "mouse"@, "on"@],
        PollStep::SetOption(2) => seq!["-L"@, socket, "set-option"@, "-g"@, "bell-action"@, "any"@],
        PollStep::SetOption(_) => seq!["-L"@, socket, "set-option"@, "-g"@, "visual-bell"@, "off"@],
        PollStep::Ask => seq![
            "-L"@,
            socket,
            "display-message"@,
            "-p"@,
            "-t"@,
            session,
            "#{pane_current_command}\t#{pane_current_path}\t#{pane_in_mode}\t#{mouse_any_flag}"@,
        ],
        _ => Seq::empty(),
    }
}

fn owned(words: &[&str]) -> (args: Vec<String>)
    ensures
        texts(args@) == words@.map_values(|s: &str| s@),
{
    let mut args: Vec<String> = Vec::new();
    let ghost want = words@.map_values(|s: &str| s@);
    let mut i: usize = 0;
    while i < words.len()
        invariant
            i <= words@.len(),
            want == words@.map_values(|s: &str| s@),
            texts(args@) =~= want.take(i as int),
        decreases words.len() - i,
    {
        let ghost before = args@;
        args.push(words[i].to_owned());
        assert(texts(args@) =~= texts(before).push(want[i as int]));
        i += 1;
    }
    assert(want.take(want.len() as int) =~= want);
    args
}

/// The arguments of tmux for a step of the poller; none for a step that runs
/// no command.
pub fn poll_args(step: PollStep, socket: &str, session: &str) -> (args: Vec<String>)
    ensures
        texts(args@) == poll_command(step, socket@, session@),
{
    let args = match step {
        PollStep::HasSession => owned(&["-L", socket, "has-session", "-t", session]),
        PollStep::SetOption(k) => if k == 0 {
            owned(&["-L", socket, "set-option", "-t", session, "status", "off"])
        } else if k == 1 {
            owned(&["-L", socket, "set-option", "-g", "mouse", "on"])
        } else if k == 2 {
            owned(&["-L", socket, "set-option", "-g", "bell-action", "any"])
        } else {
            owned(&["-L", socket, "set-option", "-g", "visual-bell", "off"])
        },
        PollStep::Ask => owned(
            &[
                "-L",
                socket,
                "display-message",
                "-p",
                "-t",
                session,
                "#{pane_current_command}\t#{pane_current_path}\t#{pane_in_mode}\t#{mouse_any_flag}",
            ],
        ),
        PollStep::Sleep | PollStep::Stop => owned(&[]),
    };
    assert(texts(args@) =~= poll_command(step, socket@, session@));
    args
}

/// The tmux that is used is the first that is there: a candidate only if none
/// before it exists, and the one of the search path only if no candidate does.
pub proof fn the_first_tmux_is_used(exists: Seq<bool>, on_path: bool)
    requires
        exists.len() == 4,
    ensures
        ({
            let paths = seq![
                "/opt/homebrew/bin/tmux"@,
                "/usr/local/bin/tmux"@,
                "/usr/bin/tmux"@,
                "/opt/local/bin/tmux"@,
            ];
            &&& forall|k: int|
                0 <= k < 4 && #[trigger] exists[k] && (forall|j: int|
                    0 <= j < k ==> !#[trigger] exists[j]) ==> chosen_tmux(exists, on_path)
                    == Some(paths[k])
            &&& (forall|j: int| 0 <= j < 4 ==> !#[trigger] exists[j]) ==> chosen_tmux(
                exists,
                on_path,
            ) == if on_path {
                Some("tmux"@)
            } else {
                None
            }
        }),
{
}

/// The configuration, setting by setting.
pub proof fn configuration_settings()
    ensures
        conf_text() == "set -g status off\n"@ + "set -g mouse on\n"@
            + "set -g history-limit 20000\n"@ + "set -g escape-time 10\n"@
            + "set -g focus-events on\n"@ + "set -g default-terminal \"xterm-256color\"\n"@
            + "setw -g aggressive-resize on\n"@ + "set -g bell-action any\n"@
            + "set -g visual-bell off\n"@ + "setw -g monitor-bell on\n"@,
{
    reveal_strlit("set -g status off\nset -g mouse on\nset -g history-limit 20000\nset -g escape-time 10\nset -g focus-events on\nset -g default-terminal \"xterm-256color\"\nsetw -g aggressive-resize on\nset -g bell-action any\nset -g visual-bell off\nsetw -g monitor-bell on\n");
    reveal_strlit("set -g status off\n");
    reveal_strlit("set -g mouse on\n");
    reveal_strlit("set -g history-limit 20000\n");
    reveal_strlit("set -g escape-time 10\n");
    reveal_strlit("set -g focus-events on\n");
    reveal_strlit("set -g default-terminal \"xterm-256color\"\n");
    reveal_strlit("setw -g aggressive-resize on\n");
    reveal_strlit("set -g bell-action any\n");
    reveal_strlit("set -g visual-bell off\n");
    reveal_strlit("setw -g monitor-bell on\n");
    assert(conf_text() =~= "set -g status off\n"@ + "set -g mouse on\n"@
        + "set -g history-limit 20000\n"@ + "set -g escape-time 10\n"@ + "set -g focus-events on\n"@
        + "set -g default-terminal \"xterm-256color\"\n"@ + "setw -g aggressive-resize on\n"@
        + "set -g bell-action any\n"@ + "set -g visual-bell off\n"@
        + "setw -g monitor-bell on\n"@);
}

/// A poller whose session is there at a look, counted from zero, and at none
/// before: it looks and sleeps in turn until then, sets the four options in
/// order right after that, and then asks at every eleventh step and sleeps at
/// the ten between.
pub proof fn pollers_set_up_and_ask(
    ok: spec_fn(int) -> bool,
    look: int,
    j: int,
    k: u8,
    q: int,
    r: int,
)
    requires
        0 <= look < 20,
        ok(2 * look + 1),
        forall|i: int| 0 <= i < look ==> !#[trigger] ok(2 * i + 1),
        0 <= j <= look,
        k < 4,
        0 <= q,
        0 <= r < 11,
    ensures
        nth_step(ok, 2 * j) == PollStep::HasSession,
        j < look ==> nth_step(ok, 2 * j + 1) == PollStep::Sleep,
        nth_step(ok, 2 * look + 1 + k) == PollStep::SetOption(k),
        nth_step(ok, 2 * look + 5 + 11 * q + r) == if r == 0 {
            PollStep::Ask
        } else {
            PollStep::Sleep
        },
{
    let found = Some(look);
    assert(is_found(ok, found));
    poller_keeps_course(ok, found, 2 * j);
    poller_keeps_course(ok, found, 2 * j + 1);
    poller_keeps_course(ok, found, 2 * look + 1 + k);
    poller_keeps_course(ok, found, 2 * look + 5 + 11 * q + r);
    assert((11 * q + r) % 11 == r);
}

/// A poller whose session is there at none of twenty looks: it looks and sleeps
/// in turn, sets no option, and then asks and sleeps all the same.
pub proof fn pollers_ask_without_a_session(ok: spec_fn(int) -> bool, j: int, q: int, r: int)
    requires
        forall|i: int| 0 <= i < 20 ==> !#[trigger] ok(2 * i + 1),
        0 <= j < 20,
        0 <= q,
        0 <= r < 11,
    ensures
        nth_step(ok, 2 * j) == PollStep::HasSession,
        nth_step(ok, 2 * j + 1) == PollStep::Sleep,
        nth_step(ok, 40 + 11 * q + r) == if r == 0 {
            PollStep::Ask
        } else {
            PollStep::Sleep
        },
{
    assert(is_found(ok, None));
    poller_keeps_course(ok, None, 2 * j);
    poller_keeps_course(ok, None, 2 * j + 1);
    poller_keeps_course(ok, None, 40 + 11 * q + r);
    assert((11 * q + r) % 11 == r);
}

/// A poller whose terminal does not run any more neither looks, asks nor sleeps
/// between questions again.
pub proof fn stopped_pollers_do_nothing_more(state: PollState, ok: bool)
    ensures
        ({
            let step = poll_next(state, false, ok).1;
            &&& step != PollStep::HasSession
            &&& step != PollStep::Ask
            &&& state == PollState::Asking || state is Resting || state is Waiting || state
                == PollState::Start ==> step == PollStep::Stop
        }),
{
}

/// The four options that are set: no status bar for the session, and for the
/// server mouse events, bells from any window and no visual bell.
pub proof fn options_that_are_set(socket: Seq<char>, session: Seq<char>)
    ensures
        poll_command(PollStep::SetOption(0), socket, session).skip(3) == seq![
            "-t"@,
            session,
            "status"@,
            "off"@,
        ],
        poll_command(PollStep::SetOption(1), socket, session).skip(3) == seq![
            "-g"@,
            "mouse"@,
            "on"@,
        ],
        poll_command(PollStep::SetOption(2), socket, session).skip(3) == seq![
            "-g"@,
            "bell-action"@,
            "any"@,
        ],
        poll_command(PollStep::SetOption(3), socket, session).skip(3) == seq![
            "-g"@,
            "visual-bell"@,
            "off"@,
        ],
        forall|k: u8|
            k < 4 ==> (#[trigger] poll_command(PollStep::SetOption(k), socket, session)).take(3)
                == seq!["-L"@, socket, "set-option"@],
{
    assert forall|k: u8| k < 4 implies (#[trigger] poll_command(
        PollStep::SetOption(k),
        socket,
        session,
    )).take(3) == seq!["-L"@, socket, "set-option"@] by {
        assert(poll_command(PollStep::SetOption(k), socket, session).take(3) =~= seq![
            "-L"@,
            socket,
            "set-option"@,
        ]);
    }
    assert(poll_command(PollStep::SetOption(0), socket, session).skip(3) =~= seq![
        "-t"@,
        session,
        "status"@,
        "off"@,
    ]);
    assert(poll_command(PollStep::SetOption(1), socket, session).skip(3) =~= seq![
        "-g"@,
        "mouse"@,
        "on"@,
    ]);
    assert(poll_command(PollStep::SetOption(2), socket, session).skip(3) =~= seq![
        "-g"@,
        "bell-action"@,
        "any"@,
    ]);
    assert(poll_command(PollStep::SetOption(3), socket, session).skip(3) =~= seq![
        "-g"@,
        "visual-bell"@,
        "off"@,
    ]);
}

} // verus!
