//! A terminal: what it keeps, what it shows and what it asks of tmux and of
//! its pseudo-terminal.
//!
//! Each terminal runs a tmux session on a private tmux server, so that it
//! survives a restart; without tmux it runs a plain shell. The functions here
//! decide; whoever holds the process handles does what they return.
use crate::acs::{process_split_anywhere, AcsFilter, AcsModel, AcsState};
use crate::screen::{
    byte_ops, bytes_keep_frame, cell, cursor_at, cursor_hidden, cursor_position, grid_size,
    hide_cursor, history_limit, history_rows, lesser, new_parser, paint_views, painted_row, parser_ops, process,
    read_row, scrollback, set_scrollback, set_size, shown_cell, shown_row, steady, view_offset,
    Paint, ScreenOp,
};
use crate::text::{
    byte_texts, bytes_of, decimal, decimal_denotes, encoded, from_utf8_lossy,
    last_filled, last_filled_index, last_filled_is_last, lossy_text, parts,
    parts_split_at_a_separator, parts_weave_back, push_decimal, separators_alone_hold_nothing, split_on, str_eq, texts,
    trim, trim_end_matches, trimmed, trimming_once_is_enough, unseparated_text_is_one_part,
    without_end, woven,
};
use crate::tmux::TmuxEnv;
use vstd::prelude::*;
use vstd::utf8::encode_utf8;

verus! {

/// The rows of history that a terminal keeps.
pub const HISTORY: usize = 20000;

/// The name of the tmux session of a node.
pub open spec fn session_text(id: u64) -> Seq<char> {
    "rsterm_"@ + decimal(id as nat)
}

/// The name of the tmux session of a node. It depends on nothing but the
/// node's number.
pub fn session_name(id: u64) -> (name: String)
    ensures
        name@ == session_text(id),
{
    let mut name = "rsterm_".to_owned();
    push_decimal(&mut name, id);
    name
}

/// Different nodes have different sessions.
pub proof fn sessions_differ(a: u64, b: u64)
    requires
        a != b,
    ensures
        session_text(a) != session_text(b),
{
    let n = "rsterm_"@.len() as int;
    decimal_denotes(a as nat);
    decimal_denotes(b as nat);
    assert(session_text(a).skip(n) =~= decimal(a as nat));
    assert(session_text(b).skip(n) =~= decimal(b as nat));
}

/// The commands that count as an idle shell.
pub open spec fn is_shell(cmd: Seq<char>) -> bool {
    ||| cmd == "zsh"@
    ||| cmd == "bash"@
    ||| cmd == "sh"@
    ||| cmd == "fish"@
    ||| cmd == "-zsh"@
    ||| cmd == "-bash"@
    ||| cmd == "-fish"@
    ||| cmd == "login"@
    ||| cmd == "tmux"@
}

/// The last part of a path that is not empty; the path itself if all are; a
/// tilde if there is nothing.
pub open spec fn short_dir(path: Seq<char>) -> Seq<char> {
    let base = match last_filled(parts(path, '/')) {
        Some(part) => part,
        None => path,
    };
    if base.len() == 0 {
        "~"@
    } else {
        base
    }
}

/// What a pane is doing: its command and its directory, or just the directory
/// when it is idle.
pub open spec fn summary_of(cmd: Seq<char>, path: Seq<char>) -> Seq<char> {
    let cmd = trimmed(cmd);
    let dir = short_dir(trimmed(path));
    if cmd.len() == 0 || is_shell(cmd) {
        dir
    } else {
        cmd + " · "@ + dir
    }
}

/// Sums up in a short title what a pane is doing.
pub fn summarize(cmd: &str, path: &str) -> (title: String)
    ensures
        title@ == summary_of(cmd@, path@),
{
    let cmd = trim(cmd);
    let path = trim(path);
    let segments = split_on(path.as_str(), '/');
    let base = match last_filled_index(&segments) {
        Some(i) => segments[i].clone(),
        None => path,
    };
    let dir = if base.as_str().is_empty() {
        "~".to_owned()
    } else {
        base
    };
    let c = cmd.as_str();
    if c.is_empty() || str_eq(c, "zsh") || str_eq(c, "bash") || str_eq(c, "sh") || str_eq(c, "fish")
        || str_eq(c, "-zsh") || str_eq(c, "-bash") || str_eq(c, "-fish") || str_eq(c, "login")
        || str_eq(c, "tmux") {
        dir
    } else {
        cmd.concat(" · ").concat(dir.as_str())
    }
}

/// Something to be done for a terminal.
pub enum PtyAction {
    /// Run tmux with these arguments.
    Tmux(Vec<String>),
    /// Write these bytes to the pseudo-terminal.
    Write(Vec<u8>),
}

pub enum PtyActionView {
    Tmux(Seq<Seq<char>>),
    Write(Seq<u8>),
}

impl View for PtyAction {
    type V = PtyActionView;

    open spec fn view(&self) -> PtyActionView {
        match self {
            PtyAction::Tmux(args) => PtyActionView::Tmux(texts(args@)),
            PtyAction::Write(bytes) => PtyActionView::Write(bytes@),
        }
    }
}

pub open spec fn action_views(actions: Seq<PtyAction>) -> Seq<PtyActionView> {
    actions.map_values(|action: PtyAction| action@)
}

/// The program to start in a new pseudo-terminal.
pub struct Launch {
    pub program: String,
    pub args: Vec<Vec<u8>>,
    /// The directory to start in; the present one if there is none.
    pub cwd: Option<Vec<u8>>,
    /// The variables that are set in the program's environment, with their
    /// values.
    pub env: Vec<(String, String)>,
    /// The size of the pseudo-terminal.
    pub rows: u16,
    pub cols: u16,
}

pub struct LaunchView {
    pub program: Seq<char>,
    pub args: Seq<Seq<u8>>,
    pub cwd: Option<Seq<u8>>,
    pub env: Seq<(Seq<char>, Seq<char>)>,
    pub rows: u16,
    pub cols: u16,
}

/// The views of variables and their values.
pub open spec fn env_views(env: Seq<(String, String)>) -> Seq<(Seq<char>, Seq<char>)> {
    env.map_values(|v: (String, String)| (v.0@, v.1@))
}

/// What programs are told about the terminal: that it is an xterm with 256
/// colors.
pub open spec fn term_env() -> Seq<(Seq<char>, Seq<char>)> {
    seq![("TERM"@, "xterm-256color"@)]
}

/// What programs are told about the terminal.
pub fn launch_env() -> (env: Vec<(String, String)>)
    ensures
        env_views(env@) == term_env(),
{
    let mut env: Vec<(String, String)> = Vec::new();
    env.push(("TERM".to_owned(), "xterm-256color".to_owned()));
    assert(env_views(env@) =~= term_env());
    env
}

impl View for Launch {
    type V = LaunchView;

    open spec fn view(&self) -> LaunchView {
        LaunchView {
            program: self.program@,
            args: byte_texts(self.args@),
            cwd: opt_bytes(self.cwd),
            env: env_views(self.env@),
            rows: self.rows,
            cols: self.cols,
        }
    }
}

/// The view of optional bytes.
pub open spec fn opt_bytes(bytes: Option<Vec<u8>>) -> Option<Seq<u8>> {
    match bytes {
        Some(bytes) => Some(bytes@),
        None => None,
    }
}

/// The shell that is used where the user named none.
pub open spec fn shell_or_default(shell: Option<Seq<char>>) -> Seq<char> {
    match shell {
        Some(shell) => shell,
        None => "/bin/zsh"@,
    }
}

/// How a shell is told to run a command and to stay open after it.
pub open spec fn startup_args(startup: Option<Seq<char>>) -> Seq<Seq<char>> {
    match startup {
        Some(cmd) => seq!["-l"@, "-c"@, cmd + "; exec ${SHELL:-/bin/zsh}"@],
        None => Seq::empty(),
    }
}

/// The arguments with which tmux attaches to a session, or makes it: of the
/// given size, in the given directory and, if a startup command is given,
/// with a shell that runs it.
pub open spec fn attach_args(
    socket: Seq<char>,
    conf: Seq<char>,
    session: Seq<char>,
    rows: u16,
    cols: u16,
    cwd: Option<Seq<u8>>,
    shell: Seq<char>,
    startup: Option<Seq<char>>,
) -> Seq<Seq<u8>> {
    let fixed = seq![
        "-L"@,
        socket,
        "-f"@,
        conf,
        "new-session"@,
        "-A"@,
        "-s"@,
        session,
        "-x"@,
        decimal(cols as nat),
        "-y"@,
        decimal(rows as nat),
    ];
    let dir = match cwd {
        Some(dir) => seq![encode_utf8("-c"@), dir],
        None => Seq::empty(),
    };
    let command = match startup {
        Some(_) => encoded(seq![shell] + startup_args(startup)),
        None => Seq::empty(),
    };
    encoded(fixed) + dir + command
}

/// The larger of a size and one.
pub open spec fn at_least_one(n: u16) -> u16 {
    if n == 0 {
        1
    } else {
        n
    }
}

/// What is started for a terminal. With tmux: the session of the node. Without:
/// the shell, in the given directory or else at home.
pub open spec fn launch_of(
    rows: u16,
    cols: u16,
    cwd: Option<Seq<u8>>,
    id: u64,
    startup: Option<Seq<char>>,
    shell: Option<Seq<char>>,
    home: Option<Seq<char>>,
    tmux: Option<TmuxEnv>,
) -> LaunchView {
    let shell = shell_or_default(shell);
    match tmux {
        Some(t) => LaunchView {
            program: t.bin@,
            args: attach_args(t.socket@, t.conf@, session_text(id), rows, cols, cwd, shell, startup),
            cwd: None,
            env: term_env(),
            rows,
            cols,
        },
        None => LaunchView {
            program: shell,
            args: encoded(startup_args(startup)),
            cwd: match (cwd, home) {
                (Some(dir), _) => Some(dir),
                (None, Some(home)) => Some(encode_utf8(home)),
                (None, None) => None,
            },
            env: term_env(),
            rows,
            cols,
        },
    }
}

/// Appends an argument.
fn push_arg(args: &mut Vec<Vec<u8>>, arg: &str)
    ensures
        byte_texts(final(args)@) == byte_texts(old(args)@).push(encode_utf8(arg@)),
{
    args.push(bytes_of(arg));
    assert(byte_texts(args@) =~= byte_texts(old(args)@).push(encode_utf8(arg@)));
}

/// Appends the arguments of a startup command.
fn push_startup(args: &mut Vec<Vec<u8>>, cmd: &str)
    ensures
        byte_texts(final(args)@) == byte_texts(old(args)@) + encoded(startup_args(Some(cmd@))),
{
    push_arg(args, "-l");
    push_arg(args, "-c");
    let line = cmd.to_owned().concat("; exec ${SHELL:-/bin/zsh}");
    push_arg(args, line.as_str());
    assert(byte_texts(args@) =~= byte_texts(old(args)@) + encoded(startup_args(Some(cmd@))));
}

/// A number in decimal notation.
fn decimal_string(n: u64) -> (s: String)
    ensures
        s@ == decimal(n as nat),
{
    let mut s = String::new();
    push_decimal(&mut s, n);
    assert(s@ =~= decimal(n as nat));
    s
}

/// A terminal.
pub struct PtyTerminal {
    /// The emulator that keeps the screen.
    pub parser: vt100::Parser,
    /// The filter between the pseudo-terminal and the emulator.
    pub filter: AcsFilter,
    /// A short summary of what the terminal is doing.
    pub summary: String,
    pub rows: u16,
    pub cols: u16,
    /// The name of the tmux session.
    pub session: String,
    /// The name of the private tmux server.
    pub socket: String,
    /// Whether the terminal runs in a tmux session.
    pub tmux_backed: bool,
    /// Whether the tmux pane is scrolled back (in copy mode).
    pub in_copy: bool,
    /// Whether the program in the pane takes mouse events.
    pub mouse_on: bool,
    /// An attention bell rang and was not taken yet.
    pub bell: bool,
    /// Whether the emulator accepts every sequence of bytes.
    pub steady: bool,
}

/// The size of a number without its sign.
pub open spec fn magnitude(n: int) -> nat {
    if n < 0 {
        (-n) as nat
    } else {
        n as nat
    }
}

/// A text `n` times in a row.
pub open spec fn repeated(s: Seq<char>, n: nat) -> Seq<char>
    decreases n,
{
    if n == 0 {
        Seq::empty()
    } else {
        repeated(s, (n - 1) as nat) + s
    }
}

/// A step of the mouse wheel over the middle of the screen, in the SGR
/// encoding: button 64 is up, 65 is down.
pub open spec fn wheel_step(up: bool, rows: u16, cols: u16) -> Seq<char> {
    "\x1b[<"@ + decimal(
        if up {
            64
        } else {
            65
        },
    ) + ";"@ + decimal(at_least_one(cols / 2) as nat) + ";"@ + decimal(
        at_least_one(rows / 2) as nat,
    ) + "M"@
}

impl PtyTerminal {
    /// All that was done to the emulator.
    pub open spec fn ops(self) -> Seq<ScreenOp> {
        parser_ops(self.parser)
    }

    /// The emulator has the terminal's size and history, its view is moved
    /// only where there is no tmux to keep a history, and no further than
    /// there is one, and the filter is sound.
    pub open spec fn wf(self) -> bool {
        &&& self.rows >= 1
        &&& self.cols >= 1
        &&& grid_size(self.ops()) == (self.rows, self.cols)
        &&& history_limit(self.ops()) == HISTORY
        &&& self.steady == steady(self.ops())
        &&& self.tmux_backed ==> view_offset(self.ops()) == 0
        &&& view_offset(self.ops()) <= history_rows(self.ops())
        &&& self.filter.wf()
    }

    /// The arguments of a tmux command on the terminal's pane.
    pub open spec fn pane_args(self, command: Seq<char>, rest: Seq<Seq<char>>) -> Seq<Seq<char>> {
        seq!["-L"@, self.socket@, command, "-t"@, self.session@] + rest
    }

    /// Older output is in view.
    pub open spec fn scrolled(self) -> bool {
        if self.tmux_backed {
            self.in_copy
        } else {
            view_offset(self.ops()) > 0
        }
    }

    /// The terminal was just made, for the node `id`: nothing was printed in it
    /// yet, nothing is known of what it does, and no bell rang.
    pub open spec fn is_new(self, rows: u16, cols: u16, id: u64, tmux: Option<TmuxEnv>) -> bool {
        &&& self.ops() == seq![ScreenOp::New { rows, cols, history: HISTORY }]
        &&& self.filter@ == AcsModel::initial()
        &&& self.summary@ == Seq::<char>::empty()
        &&& self.rows == rows
        &&& self.cols == cols
        &&& self.session@ == session_text(id)
        &&& self.tmux_backed == (tmux is Some)
        &&& self.socket@ == match tmux {
            Some(t) => t.socket@,
            None => Seq::empty(),
        }
        &&& !self.in_copy
        &&& !self.mouse_on
        &&& !self.bell
    }

    /// The history in view is no higher than the screen.
    pub open spec fn view_fits(self) -> bool {
        view_offset(self.ops()) <= self.rows
    }

    /// A new terminal for the node `id`, and the program to start in its
    /// pseudo-terminal. `startup` is a command for the shell to run first.
    /// `shell` and `home` are the user's, where they are known.
    pub fn spawn(
        rows: u16,
        cols: u16,
        cwd: Option<&Vec<u8>>,
        id: u64,
        startup: Option<&str>,
        shell: Option<&str>,
        home: Option<&str>,
        tmux: Option<&TmuxEnv>,
    ) -> (started: (PtyTerminal, Launch))
        ensures
            ({
                let rows = at_least_one(rows);
                let cols = at_least_one(cols);
                let term = started.0;
                &&& started.1@ == launch_of(
                    rows,
                    cols,
                    match cwd { Some(dir) => Some(dir@), None => None },
                    id,
                    match startup { Some(cmd) => Some(cmd@), None => None },
                    match shell { Some(shell) => Some(shell@), None => None },
                    match home { Some(home) => Some(home@), None => None },
                    match tmux { Some(t) => Some(*t), None => None },
                )
                &&& term.wf()
                &&& term.is_new(
                    rows,
                    cols,
                    id,
                    match tmux { Some(t) => Some(*t), None => None },
                )
            }),
    {
        let rows = if rows == 0 {
            1
        } else {
            rows
        };
        let cols = if cols == 0 {
            1
        } else {
            cols
        };
        let session = session_name(id);
        let shell = match shell {
            Some(shell) => shell.to_owned(),
            None => "/bin/zsh".to_owned(),
        };
        let mut args: Vec<Vec<u8>> = Vec::new();
        let (launch, socket) = match tmux {
            Some(t) => {
                push_arg(&mut args, "-L");
                push_arg(&mut args, t.socket.as_str());
                push_arg(&mut args, "-f");
                push_arg(&mut args, t.conf.as_str());
                push_arg(&mut args, "new-session");
                push_arg(&mut args, "-A");
                push_arg(&mut args, "-s");
                push_arg(&mut args, session.as_str());
                push_arg(&mut args, "-x");
                push_arg(&mut args, decimal_string(cols as u64).as_str());
                push_arg(&mut args, "-y");
                push_arg(&mut args, decimal_string(rows as u64).as_str());
                let ghost fixed = byte_texts(args@);
                if let Some(dir) = cwd {
                    push_arg(&mut args, "-c");
                    let ghost before = args@;
                    args.push(dir.clone());
                    assert(byte_texts(args@) =~= byte_texts(before).push(dir@));
                }
                let ghost with_dir = byte_texts(args@);
                if let Some(cmd) = startup {
                    push_arg(&mut args, shell.as_str());
                    push_startup(&mut args, cmd);
                }
                assert(byte_texts(args@) =~= attach_args(
                    t.socket@,
                    t.conf@,
                    session@,
                    rows,
                    cols,
                    match cwd { Some(dir) => Some(dir@), None => None },
                    shell@,
                    match startup { Some(cmd) => Some(cmd@), None => None },
                ));
                (
                    Launch {
                        program: t.bin.clone(),
                        args,
                        cwd: None,
                        env: launch_env(),
                        rows,
                        cols,
                    },
                    t.socket.clone(),
                )
            },
            None => {
                if let Some(cmd) = startup {
                    push_startup(&mut args, cmd);
                }
                assert(byte_texts(args@) =~= encoded(
                    startup_args(match startup { Some(cmd) => Some(cmd@), None => None }),
                ));
                let dir = match cwd {
                    Some(dir) => Some(dir.clone()),
                    None => match home {
                        Some(home) => Some(bytes_of(home)),
                        None => None,
                    },
                };
                (
                    Launch { program: shell, args, cwd: dir, env: launch_env(), rows, cols },
                    String::new(),
                )
            },
        };
        let parser = new_parser(rows, cols, HISTORY);
        let term = PtyTerminal {
            parser,
            filter: AcsFilter::default(),
            summary: String::new(),
            rows,
            cols,
            session,
            socket,
            tmux_backed: tmux.is_some(),
            in_copy: false,
            mouse_on: false,
            bell: false,
            steady: rows >= 2 && 3 <= cols && cols <= 65527,
        };
        (term, launch)
    }

    /// Filters program output, whatever the screen is like, and notes an
    /// attention bell in it. Gives what is left for the emulator.
    pub fn filter_output(&mut self, input: &[u8]) -> (out: Vec<u8>)
        requires
            old(self).wf(),
        ensures
            final(self).wf(),
            out@ == old(self).filter@.quiet().output(input@),
            final(self).filter@ == old(self).filter@.quiet().after(input@),
            final(self).bell == (old(self).bell || final(self).filter@.bell),
            *final(self) == (PtyTerminal {
                filter: final(self).filter,
                bell: final(self).bell,
                ..*old(self)
            }),
    {
        let mut out: Vec<u8> = Vec::new();
        self.filter.process(input, &mut out);
        if self.filter.bell {
            self.bell = true;
        }
        assert(out@ =~= old(self).filter@.quiet().output(input@));
        out
    }

    /// Takes in program output: filters it and hands what is left to the
    /// emulator.
    pub fn feed(&mut self, input: &[u8])
        requires
            old(self).wf(),
            old(self).steady,
        ensures
            final(self).wf(),
            final(self).filter@ == old(self).filter@.quiet().after(input@),
            final(self).ops() == old(self).ops() + byte_ops(
                old(self).filter@.quiet().output(input@),
            ),
            final(self).bell == (old(self).bell || final(self).filter@.bell),
            *final(self) == (PtyTerminal {
                parser: final(self).parser,
                filter: final(self).filter,
                bell: final(self).bell,
                ..*old(self)
            }),
    {
        let out = self.filter_output(input);
        process(&mut self.parser, out.as_slice());
        proof {
            bytes_keep_frame(old(self).ops(), out@);
        }
    }

    /// Takes in program output if the emulator accepts every sequence of
    /// bytes. Otherwise nothing is changed: the output is still to be filtered,
    /// and the emulator may panic on what is left of it.
    pub fn try_feed(&mut self, input: &[u8]) -> (taken: bool)
        requires
            old(self).wf(),
        ensures
            final(self).wf(),
            taken == old(self).steady,
            !taken ==> *final(self) == *old(self),
            taken ==> {
                &&& final(self).filter@ == old(self).filter@.quiet().after(input@)
                &&& final(self).ops() == old(self).ops() + byte_ops(
                    old(self).filter@.quiet().output(input@),
                )
                &&& final(self).bell == (old(self).bell || final(self).filter@.bell)
                &&& *final(self) == (PtyTerminal {
                    parser: final(self).parser,
                    filter: final(self).filter,
                    bell: final(self).bell,
                    ..*old(self)
                })
            },
    {
        if self.steady {
            self.feed(input);
            true
        } else {
            false
        }
    }

    /// Takes a pending attention bell: tells whether one rang since the last
    /// call.
    pub fn take_bell(&mut self) -> (rang: bool)
        ensures
            rang == old(self).bell,
            *final(self) == (PtyTerminal { bell: false, ..*old(self) }),
    {
        let rang = self.bell;
        self.bell = false;
        rang
    }

    /// What sending input asks for: to leave copy mode, if the pane is in it,
    /// and to write the bytes.
    pub open spec fn send_actions(self, bytes: Seq<u8>) -> Seq<PtyActionView> {
        if self.tmux_backed && self.in_copy {
            seq![
                PtyActionView::Tmux(self.pane_args("send-keys"@, seq!["-X"@, "cancel"@])),
                PtyActionView::Write(bytes),
            ]
        } else {
            seq![PtyActionView::Write(bytes)]
        }
    }

    /// `then` is the terminal with its view moved to the live screen.
    pub open spec fn back_to_live(self, then: PtyTerminal) -> bool {
        if self.tmux_backed {
            then == (PtyTerminal { in_copy: false, ..self })
        } else {
            &&& then.ops() == self.ops().push(ScreenOp::Back(0))
            &&& then == (PtyTerminal { parser: then.parser, ..self })
        }
    }

    /// Sends input to the program. The view goes back to the live screen
    /// first: with tmux by leaving copy mode, so that the input does not go to
    /// copy mode; without, by moving the emulator's view.
    pub fn send(&mut self, bytes: &[u8]) -> (actions: Vec<PtyAction>)
        requires
            old(self).wf(),
        ensures
            final(self).wf(),
            !final(self).scrolled(),
            action_views(actions@) == old(self).send_actions(bytes@),
            old(self).back_to_live(*final(self)),
    {
        let mut actions: Vec<PtyAction> = Vec::new();
        if self.tmux_backed {
            if self.in_copy {
                let args = self.pane_command("send-keys", &["-X", "cancel"]);
                assert(texts(args@) =~= self.pane_args("send-keys"@, seq!["-X"@, "cancel"@]));
                actions.push(PtyAction::Tmux(args));
                assert(action_views(actions@) =~= seq![PtyActionView::Tmux(texts(args@))]);
                self.in_copy = false;
            }
        } else {
            set_scrollback(&mut self.parser, 0);
            assert(self.ops().drop_last() =~= old(self).ops());
        }
        let ghost before = actions@;
        let copy = vstd::slice::slice_to_vec(bytes);
        actions.push(PtyAction::Write(copy));
        assert(action_views(actions@) =~= action_views(before).push(PtyActionView::Write(bytes@)));
        actions
    }

    /// The arguments of a tmux command on this terminal's pane.
    fn pane_command(&self, command: &str, rest: &[&str]) -> (args: Vec<String>)
        ensures
            texts(args@) == self.pane_args(command@, rest@.map_values(|s: &str| s@)),
    {
        let mut args: Vec<String> = Vec::new();
        args.push("-L".to_owned());
        args.push(self.socket.clone());
        args.push(command.to_owned());
        args.push("-t".to_owned());
        args.push(self.session.clone());
        let ghost head = texts(args@);
        assert(head =~= seq!["-L"@, self.socket@, command@, "-t"@, self.session@]);
        let ghost tail = rest@.map_values(|s: &str| s@);
        let mut i: usize = 0;
        while i < rest.len()
            invariant
                i <= rest@.len(),
                tail == rest@.map_values(|s: &str| s@),
                texts(args@) =~= head + tail.take(i as int),
            decreases rest.len() - i,
        {
            let ghost before = args@;
            args.push(rest[i].to_owned());
            assert(texts(args@) =~= texts(before).push(tail[i as int]));
            i += 1;
        }
        assert(tail.take(tail.len() as int) =~= tail);
        args
    }

    /// Whether older output is in view.
    pub fn is_scrolled(&self) -> (scrolled: bool)
        ensures
            scrolled == self.scrolled(),
    {
        if self.tmux_backed {
            self.in_copy
        } else {
            scrollback(&self.parser) > 0
        }
    }

    /// Resizes the terminal to at least one row and one column. Gives the size
    /// for the pseudo-terminal if it changed.
    pub fn resize(&mut self, rows: u16, cols: u16) -> (changed: Option<(u16, u16)>)
        requires
            old(self).wf(),
        ensures
            final(self).wf(),
            ({
                let rows = at_least_one(rows);
                let cols = at_least_one(cols);
                if rows == old(self).rows && cols == old(self).cols {
                    &&& changed is None
                    &&& *final(self) == *old(self)
                } else {
                    &&& changed == Some((rows, cols))
                    &&& final(self).ops() == old(self).ops().push(ScreenOp::Size { rows, cols })
                    &&& view_offset(final(self).ops()) == view_offset(old(self).ops())
                    &&& final(self).steady == (old(self).steady && old(self).rows <= rows
                        && old(self).cols <= cols <= 65527)
                    &&& *final(self) == (PtyTerminal {
                        parser: final(self).parser,
                        rows,
                        cols,
                        steady: final(self).steady,
                        ..*old(self)
                    })
                }
            }),
    {
        let rows = if rows == 0 {
            1
        } else {
            rows
        };
        let cols = if cols == 0 {
            1
        } else {
            cols
        };
        if rows == self.rows && cols == self.cols {
            return None;
        }
        self.steady = self.steady && self.rows <= rows && self.cols <= cols && cols <= 65527;
        self.rows = rows;
        self.cols = cols;
        set_size(&mut self.parser, rows, cols);
        assert(self.ops().drop_last() =~= old(self).ops());
        Some((rows, cols))
    }

    /// The tmux command that ends the session for good, if there is one.
    pub fn kill_session(&self) -> (args: Option<Vec<String>>)
        ensures
            match args {
                Some(args) => self.tmux_backed && texts(args@) == self.pane_args(
                    "kill-session"@,
                    Seq::empty(),
                ),
                None => !self.tmux_backed,
            },
    {
        if self.tmux_backed {
            let args = self.pane_command("kill-session", &[]);
            assert(texts(args@) =~= self.pane_args("kill-session"@, Seq::empty()));
            Some(args)
        } else {
            None
        }
    }

    /// What scrolling asks for: for a program that takes mouse events, as many
    /// wheel steps, but no more than eight; for a tmux pane, to enter copy
    /// mode and go up in it, or to go down if it is in copy mode already.
    pub open spec fn scroll_actions(self, delta: int) -> Seq<PtyActionView> {
        let count = decimal(magnitude(delta));
        if delta == 0 || !self.tmux_backed {
            Seq::empty()
        } else if self.mouse_on {
            let steps = if magnitude(delta) < 8 {
                magnitude(delta)
            } else {
                8
            };
            seq![
                PtyActionView::Write(
                    encode_utf8(repeated(wheel_step(delta > 0, self.rows, self.cols), steps)),
                ),
            ]
        } else if delta > 0 {
            seq![
                PtyActionView::Tmux(
                    seq!["-L"@, self.socket@, "copy-mode"@, "-e"@, "-t"@, self.session@],
                ),
                PtyActionView::Tmux(
                    self.pane_args("send-keys"@, seq!["-X"@, "-N"@, count, "scroll-up"@]),
                ),
            ]
        } else if self.in_copy {
            seq![
                PtyActionView::Tmux(
                    self.pane_args("send-keys"@, seq!["-X"@, "-N"@, count, "scroll-down"@]),
                ),
            ]
        } else {
            Seq::empty()
        }
    }

    /// `then` is the terminal with its view scrolled by `delta`, as far as this
    /// program keeps the history.
    pub open spec fn scrolled_by(self, delta: int, then: PtyTerminal) -> bool {
        if self.tmux_backed {
            then == (PtyTerminal {
                in_copy: self.in_copy || (delta > 0 && !self.mouse_on),
                ..self
            })
        } else if delta == 0 {
            then == self
        } else {
            let wanted = view_offset(self.ops()) + delta;
            let target = if wanted < 0 {
                0
            } else {
                wanted
            };
            &&& then.ops() == self.ops().push(ScreenOp::Back(target as usize))
            &&& target <= usize::MAX
            &&& view_offset(then.ops()) == lesser(target as nat, history_rows(self.ops()))
            &&& history_rows(then.ops()) == history_rows(self.ops())
            &&& then == (PtyTerminal { parser: then.parser, ..self })
        }
    }

    /// Scrolls the view: up, toward older output, if `delta` is positive, and
    /// down, toward the live screen, if it is negative. The history of a tmux
    /// pane is kept by tmux; without tmux the emulator's view is moved.
    pub fn scroll_lines(&mut self, delta: isize) -> (actions: Vec<PtyAction>)
        requires
            old(self).wf(),
        ensures
            final(self).wf(),
            action_views(actions@) == old(self).scroll_actions(delta as int),
            old(self).scrolled_by(delta as int, *final(self)),
    {
        let mut actions: Vec<PtyAction> = Vec::new();
        if delta == 0 {
            assert(action_views(actions@) =~= old(self).scroll_actions(delta as int));
            return actions;
        }
        let up = delta > 0;
        let steps: usize = if up {
            delta as usize
        } else {
            (-(delta + 1)) as usize + 1
        };
        if self.tmux_backed && self.mouse_on {
            let bytes = self.wheel_steps(up, if steps < 8 { steps } else { 8 });
            actions.push(PtyAction::Write(bytes));
            assert(action_views(actions@) =~= old(self).scroll_actions(delta as int));
            return actions;
        }
        if self.tmux_backed {
            let count = decimal_string(steps as u64);
            if up {
                let mut enter: Vec<String> = Vec::new();
                enter.push("-L".to_owned());
                enter.push(self.socket.clone());
                enter.push("copy-mode".to_owned());
                enter.push("-e".to_owned());
                enter.push("-t".to_owned());
                enter.push(self.session.clone());
                assert(texts(enter@) =~= seq![
                    "-L"@,
                    self.socket@,
                    "copy-mode"@,
                    "-e"@,
                    "-t"@,
                    self.session@,
                ]);
                let rest = ["-X", "-N", count.as_str(), "scroll-up"];
                let args = self.pane_command("send-keys", &rest);
                assert(texts(args@) =~= self.pane_args(
                    "send-keys"@,
                    seq!["-X"@, "-N"@, count@, "scroll-up"@],
                ));
                actions.push(PtyAction::Tmux(enter));
                actions.push(PtyAction::Tmux(args));
                self.in_copy = true;
            } else if self.in_copy {
                let rest = ["-X", "-N", count.as_str(), "scroll-down"];
                let args = self.pane_command("send-keys", &rest);
                assert(texts(args@) =~= self.pane_args(
                    "send-keys"@,
                    seq!["-X"@, "-N"@, count@, "scroll-down"@],
                ));
                actions.push(PtyAction::Tmux(args));
            }
            assert(action_views(actions@) =~= old(self).scroll_actions(delta as int));
            return actions;
        }
        let current = scrollback(&self.parser);
        let target: usize = if up {
            current + steps
        } else if steps < current {
            current - steps
        } else {
            0
        };
        set_scrollback(&mut self.parser, target);
        assert(self.ops().drop_last() =~= old(self).ops());
        assert(action_views(actions@) =~= old(self).scroll_actions(delta as int));
        actions
    }

    /// The bytes of so many steps of the mouse wheel.
    fn wheel_steps(&self, up: bool, steps: usize) -> (bytes: Vec<u8>)
        ensures
            bytes@ == encode_utf8(
                repeated(wheel_step(up, self.rows, self.cols), steps as nat),
            ),
    {
        let cx: u16 = if self.cols / 2 == 0 {
            1
        } else {
            self.cols / 2
        };
        let cy: u16 = if self.rows / 2 == 0 {
            1
        } else {
            self.rows / 2
        };
        let mut one = "\x1b[<".to_owned();
        push_decimal(
            &mut one,
            if up {
                64
            } else {
                65
            },
        );
        one.append(";");
        push_decimal(&mut one, cx as u64);
        one.append(";");
        push_decimal(&mut one, cy as u64);
        one.append("M");
        assert(one@ =~= wheel_step(up, self.rows, self.cols));
        let mut all = String::new();
        let mut k: usize = 0;
        while k < steps
            invariant
                k <= steps,
                all@ =~= repeated(one@, k as nat),
            decreases steps - k,
        {
            all.append(one.as_str());
            k += 1;
        }
        bytes_of(all.as_str())
    }

    /// Takes in what tmux answered about the pane: updates the summary and
    /// what is known of copy mode and of the mouse. Tells whether the summary
    /// changed.
    pub fn poll(&mut self, stdout: &[u8]) -> (changed: bool)
        requires
            old(self).wf(),
        ensures
            final(self).wf(),
            final(self).summary@ == pane_summary(lossy_text(stdout@)),
            final(self).in_copy == pane_flag(lossy_text(stdout@), 2),
            final(self).mouse_on == pane_flag(lossy_text(stdout@), 3),
            changed == (final(self).summary@ != old(self).summary@),
            *final(self) == (PtyTerminal {
                summary: final(self).summary,
                in_copy: final(self).in_copy,
                mouse_on: final(self).mouse_on,
                ..*old(self)
            }),
    {
        let raw = from_utf8_lossy(stdout);
        self.apply_answer(raw.as_str())
    }

    /// Takes in the text of an answer of tmux about the pane.
    pub fn apply_answer(&mut self, raw: &str) -> (changed: bool)
        requires
            old(self).wf(),
        ensures
            final(self).wf(),
            final(self).summary@ == pane_summary(raw@),
            final(self).in_copy == pane_flag(raw@, 2),
            final(self).mouse_on == pane_flag(raw@, 3),
            changed == (final(self).summary@ != old(self).summary@),
            *final(self) == (PtyTerminal {
                summary: final(self).summary,
                in_copy: final(self).in_copy,
                mouse_on: final(self).mouse_on,
                ..*old(self)
            }),
    {
        let line = trim_end_matches(raw, '\n');
        let fields = split_on(line.as_str(), '\t');
        assert(texts(fields@).len() == fields@.len());
        assert forall|k: int| 0 <= k < fields@.len() implies #[trigger] texts(fields@)[k]
            == fields@[k]@ by {}
        let cmd = field_or(&fields, 0, "");
        let path = field_or(&fields, 1, "");
        self.in_copy = str_eq(trim(field_or(&fields, 2, "0").as_str()).as_str(), "1");
        self.mouse_on = str_eq(trim(field_or(&fields, 3, "0").as_str()).as_str(), "1");
        let title = summarize(cmd.as_str(), path.as_str());
        if str_eq(self.summary.as_str(), title.as_str()) {
            false
        } else {
            self.summary = title;
            true
        }
    }

    /// How every row of the screen is painted.
    pub fn paint_rows(&self) -> (rows: Vec<Vec<Paint>>)
        requires
            self.wf(),
            self.view_fits(),
        ensures
            rows@.len() == self.rows,
            forall|i: int|
                0 <= i < self.rows ==> paint_views(#[trigger] rows@[i]@) == painted_row(
                    shown_row(self.ops(), i as u16, self.cols as nat),
                ),
    {
        let mut rows: Vec<Vec<Paint>> = Vec::new();
        let mut row: u16 = 0;
        while row < self.rows
            invariant
                self.wf(),
                self.view_fits(),
                row <= self.rows,
                rows@.len() == row,
                forall|i: int|
                    0 <= i < row ==> paint_views(#[trigger] rows@[i]@) == painted_row(
                        shown_row(self.ops(), i as u16, self.cols as nat),
                    ),
            decreases self.rows - row,
        {
            let cells = read_row(&self.parser, row, self.cols);
            rows.push(crate::screen::paint_row(&cells));
            row += 1;
        }
        rows
    }

    /// How every row of the screen is painted, unless more history is in view
    /// than the emulator can show.
    pub fn try_paint_rows(&self) -> (painted: Option<Vec<Vec<Paint>>>)
        requires
            self.wf(),
        ensures
            painted is Some <==> self.view_fits(),
            painted matches Some(rows) ==> {
                &&& rows@.len() == self.rows
                &&& forall|i: int|
                    0 <= i < self.rows ==> paint_views(#[trigger] rows@[i]@) == painted_row(
                        shown_row(self.ops(), i as u16, self.cols as nat),
                    )
            },
    {
        if scrollback(&self.parser) <= self.rows as usize {
            Some(self.paint_rows())
        } else {
            None
        }
    }

    /// How the cursor is marked. It is not marked while older output is in
    /// view, after the program ended, while the program hides it or where it
    /// is off the screen.
    pub open spec fn cursor_mark_of(self, focused: bool, dead: bool) -> CursorMarkView {
        let (row, col) = cursor_at(self.ops());
        if self.scrolled() || dead || cursor_hidden(self.ops()) || row >= self.rows || col
            >= self.cols {
            CursorMarkView::Absent
        } else if focused {
            CursorMarkView::Block {
                row,
                col,
                glyph: match shown_cell(self.ops(), row, col) {
                    Some(cell) => cell.text,
                    None => Seq::empty(),
                },
            }
        } else {
            CursorMarkView::Hollow { row, col }
        }
    }

    /// How the cursor is marked.
    pub fn cursor_mark(&self, focused: bool, dead: bool) -> (mark: CursorMark)
        requires
            self.wf(),
        ensures
            mark@ == self.cursor_mark_of(focused, dead),
            mark matches CursorMark::Block { row, col, .. } ==> (row, col) == cursor_at(self.ops()),
            mark matches CursorMark::Hollow { row, col } ==> (row, col) == cursor_at(self.ops()),
    {
        if self.is_scrolled() || dead || hide_cursor(&self.parser) {
            return CursorMark::Absent;
        }
        let (row, col) = cursor_position(&self.parser);
        if row >= self.rows || col >= self.cols {
            return CursorMark::Absent;
        }
        if focused {
            let glyph = match cell(&self.parser, row, col) {
                Some(cell) => cell.text,
                None => String::new(),
            };
            CursorMark::Block { row, col, glyph }
        } else {
            CursorMark::Hollow { row, col }
        }
    }
}

/// How the cursor is marked: not at all, by a solid block with the glyph under
/// it drawn over it, or by the outline of the cell.
pub enum CursorMark {
    Absent,
    Block { row: u16, col: u16, glyph: String },
    Hollow { row: u16, col: u16 },
}

pub enum CursorMarkView {
    Absent,
    Block { row: u16, col: u16, glyph: Seq<char> },
    Hollow { row: u16, col: u16 },
}

impl View for CursorMark {
    type V = CursorMarkView;

    open spec fn view(&self) -> CursorMarkView {
        match self {
            CursorMark::Absent => CursorMarkView::Absent,
            CursorMark::Block { row, col, glyph } => CursorMarkView::Block {
                row: *row,
                col: *col,
                glyph: glyph@,
            },
            CursorMark::Hollow { row, col } => CursorMarkView::Hollow { row: *row, col: *col },
        }
    }
}

/// A field of an answer of tmux: the fields are separated by tabs, and line
/// feeds at the end do not count.
pub open spec fn pane_field(raw: Seq<char>, k: int, missing: Seq<char>) -> Seq<char> {
    let fields = parts(without_end(raw, '\n'), '\t');
    if k < fields.len() {
        fields[k]
    } else {
        missing
    }
}

/// The title that an answer of tmux amounts to: its first field is the
/// command in the pane, its second the directory.
pub open spec fn pane_summary(raw: Seq<char>) -> Seq<char> {
    summary_of(pane_field(raw, 0, ""@), pane_field(raw, 1, ""@))
}

/// A flag in an answer of tmux.
pub open spec fn pane_flag(raw: Seq<char>, k: int) -> bool {
    trimmed(pane_field(raw, k, "0"@)) == "1"@
}

fn field_or(fields: &Vec<String>, k: usize, missing: &str) -> (field: String)
    ensures
        field@ == if k < fields@.len() { fields@[k as int]@ } else { missing@ },
{
    if k < fields.len() {
        fields[k].clone()
    } else {
        missing.to_owned()
    }
}

/// All bytes of a row of reads.
pub open spec fn all_of(reads: Seq<Seq<u8>>) -> Seq<u8>
    decreases reads.len(),
{
    if reads.len() == 0 {
        Seq::empty()
    } else {
        all_of(reads.drop_last()) + reads.last()
    }
}

/// The filter after a row of reads.
pub open spec fn filter_after(m: AcsModel, reads: Seq<Seq<u8>>) -> AcsModel
    decreases reads.len(),
{
    if reads.len() == 0 {
        m
    } else {
        filter_after(m, reads.drop_last()).quiet().after(reads.last())
    }
}

/// A bell is pending after a row of reads, if none was before it.
pub open spec fn bell_after(m: AcsModel, reads: Seq<Seq<u8>>) -> bool
    decreases reads.len(),
{
    reads.len() > 0 && (bell_after(m, reads.drop_last()) || filter_after(m, reads).bell)
}

/// However many reads there were since a bell was last taken, one is pending
/// exactly if an attention bell is among all their bytes.
pub proof fn pending_bell_is_exact(m: AcsModel, reads: Seq<Seq<u8>>)
    ensures
        filter_after(m, reads).quiet() == m.quiet().after(all_of(reads)).quiet(),
        bell_after(m, reads) == m.quiet().after(all_of(reads)).bell,
    decreases reads.len(),
{
    if reads.len() > 0 {
        pending_bell_is_exact(m, reads.drop_last());
        process_split_anywhere(m, all_of(reads.drop_last()), reads.last());
    }
}

/// Scrolling a terminal without tmux moves its view the way that it says: up,
/// by as many rows as asked or as there are, and down, by as many rows or to
/// the live screen.
pub proof fn scrolling_moves_the_view(term: PtyTerminal, delta: int, then: PtyTerminal)
    requires
        term.wf(),
        !term.tmux_backed,
        term.scrolled_by(delta, then),
    ensures
        ({
            let before = view_offset(term.ops());
            let after = view_offset(then.ops());
            &&& delta >= 0 ==> before <= after && (after == before + delta || after
                == history_rows(term.ops()))
            &&& delta <= 0 ==> after <= before && (after == before + delta || after == 0)
        }),
{
}

/// Scrolling up and down again by as much leads back to where the view stood,
/// if there is that much history.
pub proof fn scrolling_back_is_undone(
    term: PtyTerminal,
    delta: int,
    up: PtyTerminal,
    down: PtyTerminal,
)
    requires
        term.wf(),
        !term.tmux_backed,
        0 <= delta,
        view_offset(term.ops()) + delta <= history_rows(term.ops()),
        term.scrolled_by(delta, up),
        up.scrolled_by(-delta, down),
    ensures
        view_offset(down.ops()) == view_offset(term.ops()),
{
}

/// However program output is cut into reads, the emulator is given the same
/// bytes, the filter ends in the same state and the same bell is pending.
pub proof fn reads_may_be_split(m: AcsModel, ops: Seq<ScreenOp>, a: Seq<u8>, b: Seq<u8>)
    ensures
        ({
            let first = m.quiet().after(a);
            let second = first.quiet().after(b);
            let whole = m.quiet().after(a + b);
            &&& ops + byte_ops(m.quiet().output(a + b)) == ops + byte_ops(m.quiet().output(a))
                + byte_ops(first.quiet().output(b))
            &&& whole.quiet() == second.quiet()
            &&& whole.bell == (first.bell || second.bell)
        }),
{
    process_split_anywhere(m, a, b);
    let first = m.quiet().after(a);
    assert(ops + byte_ops(m.quiet().output(a + b)) =~= ops + byte_ops(m.quiet().output(a))
        + byte_ops(first.quiet().output(b)));
}

/// The cursor is marked where the emulator has it, row and column: by a block
/// if the card is selected, with the glyph that stands there, and by an outline
/// otherwise. It is marked unless older output is in view, the program ended
/// or hid it, or it is off the screen.
pub proof fn cursor_is_marked_where_it_is(term: PtyTerminal, focused: bool, dead: bool)
    ensures
        ({
            let at = cursor_at(term.ops());
            let off_screen = at.0 >= term.rows || at.1 >= term.cols;
            match term.cursor_mark_of(focused, dead) {
                CursorMarkView::Absent => term.scrolled() || dead || cursor_hidden(term.ops())
                    || off_screen,
                CursorMarkView::Block { row, col, glyph } => {
                    &&& focused
                    &&& (row, col) == at
                    &&& row < term.rows && col < term.cols
                    &&& shown_cell(term.ops(), row, col) matches Some(cell) ==> glyph == cell.text
                    &&& shown_cell(term.ops(), row, col) is None ==> glyph.len() == 0
                    &&& !term.scrolled() && !dead && !cursor_hidden(term.ops())
                },
                CursorMarkView::Hollow { row, col } => {
                    &&& !focused
                    &&& (row, col) == at
                    &&& row < term.rows && col < term.cols
                    &&& !term.scrolled() && !dead && !cursor_hidden(term.ops())
                },
            }
        }),
{
}

/// With tmux, whatever else is asked for: tmux is started on the private server
/// with its configuration, to attach to the node's session or make it, of the
/// size of the terminal; in the directory, if one is given; and with a login
/// shell that runs the startup command and stays, if one is given. There are no
/// other arguments.
pub proof fn tmux_launches_are_complete(
    rows: u16,
    cols: u16,
    cwd: Option<Seq<u8>>,
    id: u64,
    startup: Option<Seq<char>>,
    shell: Option<Seq<char>>,
    home: Option<Seq<char>>,
    tmux: TmuxEnv,
)
    ensures
        ({
            let launch = launch_of(rows, cols, cwd, id, startup, shell, home, Some(tmux));
            let n: int = if cwd is Some {
                14
            } else {
                12
            };
            &&& launch.program == tmux.bin@
            &&& launch.cwd is None
            &&& (launch.rows, launch.cols) == (rows, cols)
            &&& launch.env == seq![("TERM"@, "xterm-256color"@)]
            &&& launch.args.subrange(0, 5) == seq![
                encode_utf8("-L"@),
                encode_utf8(tmux.socket@),
                encode_utf8("-f"@),
                encode_utf8(tmux.conf@),
                encode_utf8("new-session"@),
            ]
            &&& launch.args.subrange(5, 8) == seq![
                encode_utf8("-A"@),
                encode_utf8("-s"@),
                encode_utf8("rsterm_"@ + decimal(id as nat)),
            ]
            &&& launch.args.subrange(8, 12) == seq![
                encode_utf8("-x"@),
                encode_utf8(decimal(cols as nat)),
                encode_utf8("-y"@),
                encode_utf8(decimal(rows as nat)),
            ]
            &&& cwd matches Some(dir) ==> launch.args.subrange(12, 14) == seq![
                encode_utf8("-c"@),
                dir,
            ]
            &&& startup is None ==> launch.args.len() == n
            &&& startup matches Some(cmd) ==> {
                &&& launch.args.len() == n + 4
                &&& launch.args.skip(n) == seq![
                    encode_utf8(
                        match shell {
                            Some(shell) => shell,
                            None => "/bin/zsh"@,
                        },
                    ),
                    encode_utf8("-l"@),
                    encode_utf8("-c"@),
                    encode_utf8(cmd + "; exec ${SHELL:-/bin/zsh}"@),
                ]
            }
        }),
{
    let launch = launch_of(rows, cols, cwd, id, startup, shell, home, Some(tmux));
    let n: int = if cwd is Some {
        14
    } else {
        12
    };
    match cwd {
        Some(dir) => assert(launch.args.subrange(12, 14) =~= seq![encode_utf8("-c"@), dir]),
        None => {},
    }
    match startup {
        Some(cmd) => {
            assert(launch.args.skip(n) =~= seq![
                encode_utf8(
                    match shell {
                        Some(shell) => shell,
                        None => "/bin/zsh"@,
                    },
                ),
                encode_utf8("-l"@),
                encode_utf8("-c"@),
                encode_utf8(cmd + "; exec ${SHELL:-/bin/zsh}"@),
            ]);
        },
        None => {},
    }
}

/// Without tmux, the user's shell is started, or else zsh, with the startup
/// command if one is given and with no argument otherwise, in the directory if
/// one is given and at home otherwise.
pub proof fn shell_launches_are_complete(
    rows: u16,
    cols: u16,
    cwd: Option<Seq<u8>>,
    id: u64,
    startup: Option<Seq<char>>,
    shell: Option<Seq<char>>,
    home: Option<Seq<char>>,
)
    ensures
        ({
            let launch = launch_of(rows, cols, cwd, id, startup, shell, home, None);
            &&& shell matches Some(shell) ==> launch.program == shell
            &&& shell is None ==> launch.program == "/bin/zsh"@
            &&& (launch.rows, launch.cols) == (rows, cols)
            &&& launch.env == seq![("TERM"@, "xterm-256color"@)]
            &&& cwd is Some ==> launch.cwd == cwd
            &&& cwd is None ==> (home matches Some(home) ==> launch.cwd == Some(encode_utf8(home)))
            &&& cwd is None && home is None ==> launch.cwd is None
            &&& startup is None ==> launch.args.len() == 0
            &&& startup matches Some(cmd) ==> launch.args == seq![
                encode_utf8("-l"@),
                encode_utf8("-c"@),
                encode_utf8(cmd + "; exec ${SHELL:-/bin/zsh}"@),
            ]
        }),
{
    let launch = launch_of(rows, cols, cwd, id, startup, shell, home, None);
    match startup {
        Some(cmd) => {
            assert(launch.args =~= seq![
                encode_utf8("-l"@),
                encode_utf8("-c"@),
                encode_utf8(cmd + "; exec ${SHELL:-/bin/zsh}"@),
            ]);
        },
        None => {},
    }
}

/// A size is kept unless it is zero, and is then one.
pub proof fn sizes_are_kept(n: u16)
    ensures
        n > 0 ==> at_least_one(n) == n,
        at_least_one(0) == 1,
{
}

/// Whatever the terminal is like, sending writes the bytes, all of them, once
/// and last. Copy mode is left before that, if the pane is in it, and nothing
/// else is done.
pub proof fn sending_writes_the_bytes(term: PtyTerminal, bytes: Seq<u8>)
    ensures
        ({
            let actions = term.send_actions(bytes);
            let leaves = term.tmux_backed && term.in_copy;
            &&& actions.last() == PtyActionView::Write(bytes)
            &&& actions.len() == if leaves {
                2int
            } else {
                1
            }
            &&& leaves ==> actions[0] == PtyActionView::Tmux(
                seq!["-L"@, term.socket@, "send-keys"@, "-t"@, term.session@, "-X"@, "cancel"@],
            )
        }),
{
    if term.tmux_backed && term.in_copy {
        assert(term.pane_args("send-keys"@, seq!["-X"@, "cancel"@]) =~= seq![
            "-L"@,
            term.socket@,
            "send-keys"@,
            "-t"@,
            term.session@,
            "-X"@,
            "cancel"@,
        ]);
    }
}

/// Scrolling a tmux pane whose program takes no mouse events: up, it enters copy
/// mode and then goes up by as many lines; down, it goes down by as many lines
/// if the pane is in copy mode, and does nothing otherwise. Up leads into copy
/// mode; down does not lead out of it.
pub proof fn scrolling_goes_by_as_many_lines(term: PtyTerminal, delta: int, then: PtyTerminal)
    requires
        term.tmux_backed,
        !term.mouse_on,
        term.scrolled_by(delta, then),
    ensures
        delta > 0 ==> term.scroll_actions(delta) == seq![
            PtyActionView::Tmux(
                seq!["-L"@, term.socket@, "copy-mode"@, "-e"@, "-t"@, term.session@],
            ),
            PtyActionView::Tmux(
                seq![
                    "-L"@,
                    term.socket@,
                    "send-keys"@,
                    "-t"@,
                    term.session@,
                    "-X"@,
                    "-N"@,
                    decimal(delta as nat),
                    "scroll-up"@,
                ],
            ),
        ],
        delta < 0 && term.in_copy ==> term.scroll_actions(delta) == seq![
            PtyActionView::Tmux(
                seq![
                    "-L"@,
                    term.socket@,
                    "send-keys"@,
                    "-t"@,
                    term.session@,
                    "-X"@,
                    "-N"@,
                    decimal((-delta) as nat),
                    "scroll-down"@,
                ],
            ),
        ],
        delta == 0 || (delta < 0 && !term.in_copy) ==> term.scroll_actions(delta).len() == 0,
        then.scrolled() == (term.scrolled() || delta > 0),
{
    let up = seq!["-X"@, "-N"@, decimal(delta as nat), "scroll-up"@];
    let down = seq!["-X"@, "-N"@, decimal((-delta) as nat), "scroll-down"@];
    assert(term.pane_args("send-keys"@, up) =~= seq![
        "-L"@,
        term.socket@,
        "send-keys"@,
        "-t"@,
        term.session@,
    ] + up);
    assert(seq!["-L"@, term.socket@, "send-keys"@, "-t"@, term.session@] + up =~= seq![
        "-L"@,
        term.socket@,
        "send-keys"@,
        "-t"@,
        term.session@,
        "-X"@,
        "-N"@,
        decimal(delta as nat),
        "scroll-up"@,
    ]);
    assert(seq!["-L"@, term.socket@, "send-keys"@, "-t"@, term.session@] + down =~= seq![
        "-L"@,
        term.socket@,
        "send-keys"@,
        "-t"@,
        term.session@,
        "-X"@,
        "-N"@,
        decimal((-delta) as nat),
        "scroll-down"@,
    ]);
}

/// A program that takes mouse events gets as many steps of the wheel, up to
/// eight, over the middle of the screen: button 64 up, 65 down. Copy mode stays
/// as it is. A terminal without tmux is asked nothing.
pub proof fn wheels_turn_by_as_many_steps(term: PtyTerminal, delta: int, then: PtyTerminal)
    requires
        term.scrolled_by(delta, then),
        delta != 0,
    ensures
        term.tmux_backed && term.mouse_on ==> {
            let button = if delta > 0 {
                "\x1b[<"@ + decimal(64)
            } else {
                "\x1b[<"@ + decimal(65)
            };
            let col = if term.cols < 2 {
                1
            } else {
                term.cols / 2
            };
            let row = if term.rows < 2 {
                1
            } else {
                term.rows / 2
            };
            let step = button + ";"@ + decimal(col as nat) + ";"@ + decimal(row as nat) + "M"@;
            let steps = if -8 < delta < 8 {
                magnitude(delta)
            } else {
                8
            };
            &&& term.scroll_actions(delta) == seq![
                PtyActionView::Write(encode_utf8(repeated(step, steps))),
            ]
            &&& then.in_copy == term.in_copy
        },
        !term.tmux_backed ==> term.scroll_actions(delta).len() == 0,
        magnitude(delta) == magnitude(-delta),
        delta > 0 ==> magnitude(delta) == delta,
{
    if term.tmux_backed && term.mouse_on {
        let button = if delta > 0 {
            "\x1b[<"@ + decimal(64)
        } else {
            "\x1b[<"@ + decimal(65)
        };
        let step = button + ";"@ + decimal(at_least_one(term.cols / 2) as nat) + ";"@ + decimal(
            at_least_one(term.rows / 2) as nat,
        ) + "M"@;
        assert(wheel_step(delta > 0, term.rows, term.cols) =~= step);
    }
}

/// Repeating a text puts it there as often as asked.
pub proof fn repeating_adds_up(s: Seq<char>, a: nat, b: nat)
    ensures
        repeated(s, 0).len() == 0,
        repeated(s, 1) == s,
        repeated(s, a + b) == repeated(s, a) + repeated(s, b),
    decreases b,
{
    reveal_with_fuel(repeated, 2);
    assert(repeated(s, 1) =~= s);
    if b == 0 {
        assert(repeated(s, a) + repeated(s, b) =~= repeated(s, a));
    } else {
        repeating_adds_up(s, a, (b - 1) as nat);
        assert(repeated(s, a + b) =~= repeated(s, a) + repeated(s, b));
    }
}

/// A pane counts as idle exactly if nothing runs in it but a shell, a login or
/// tmux itself.
pub proof fn idle_commands(cmd: Seq<char>)
    ensures
        is_shell(cmd) <==> seq![
            "zsh"@,
            "bash"@,
            "sh"@,
            "fish"@,
            "-zsh"@,
            "-bash"@,
            "-fish"@,
            "login"@,
            "tmux"@,
        ].contains(cmd),
{
    let all = seq![
        "zsh"@,
        "bash"@,
        "sh"@,
        "fish"@,
        "-zsh"@,
        "-bash"@,
        "-fish"@,
        "login"@,
        "tmux"@,
    ];
    assert(all[0] == "zsh"@ && all[1] == "bash"@ && all[2] == "sh"@ && all[3] == "fish"@);
    assert(all[4] == "-zsh"@ && all[5] == "-bash"@ && all[6] == "-fish"@);
    assert(all[7] == "login"@ && all[8] == "tmux"@);
}

/// The title of a pane names the last directory of its path, whatever comes
/// before it and with or without a slash after it, and before that the command
/// unless the pane is idle.
pub proof fn titles_name_the_directory(cmd: Seq<char>, above: Seq<char>, name: Seq<char>)
    requires
        name.len() > 0,
        forall|k: int| 0 <= k < name.len() ==> #[trigger] name[k] != '/',
    ensures
        short_dir(name) == name,
        short_dir(above.push('/') + name) == name,
        short_dir((above.push('/') + name).push('/')) == name,
        short_dir(Seq::empty()) == "~"@,
        ({
            let path = above.push('/') + name;
            let busy = trimmed(cmd).len() > 0 && !is_shell(trimmed(cmd));
            &&& trimmed(path) == path && busy ==> summary_of(cmd, path) == trimmed(cmd) + " · "@
                + name
            &&& trimmed(path) == path && !busy ==> summary_of(cmd, path) == name
        }),
{
    let path = above.push('/') + name;
    let none = Seq::<char>::empty();
    unseparated_text_is_one_part(name, '/');
    parts_split_at_a_separator(above, name, '/');
    parts_split_at_a_separator(path, none, '/');
    unseparated_text_is_one_part(none, '/');
    assert(path.push('/') + none =~= path.push('/'));
    let p = parts(path, '/');
    assert(p.last() == name);
    let q = parts(path.push('/'), '/');
    assert(q.last() == none);
    assert(q.drop_last() =~= p);
    assert(seq![name].last() == name);
    reveal_with_fuel(last_filled, 2);
    assert(trimmed(none) =~= none);
    assert(seq![none].drop_last() =~= Seq::<Seq<char>>::empty());
}

/// What tmux answers is read field by field: the command and the directory make
/// the title, and each flag is set exactly if its own field is a one.
pub proof fn answers_are_read_by_field(
    cmd: Seq<char>,
    path: Seq<char>,
    mode: Seq<char>,
    mouse: Seq<char>,
)
    requires
        forall|k: int| 0 <= k < cmd.len() ==> #[trigger] cmd[k] != '\t',
        forall|k: int| 0 <= k < path.len() ==> #[trigger] path[k] != '\t',
        forall|k: int| 0 <= k < mode.len() ==> #[trigger] mode[k] != '\t',
        forall|k: int| 0 <= k < mouse.len() ==> #[trigger] mouse[k] != '\t',
        mouse.len() > 0 ==> mouse.last() != '\n',
    ensures
        ({
            let line = cmd.push('\t') + (path.push('\t') + (mode.push('\t') + mouse));
            &&& pane_summary(line.push('\n')) == summary_of(cmd, path)
            &&& pane_flag(line.push('\n'), 2) == (trimmed(mode) == "1"@)
            &&& pane_flag(line.push('\n'), 3) == (trimmed(mouse) == "1"@)
        }),
{
    let c = mode.push('\t') + mouse;
    let b = path.push('\t') + c;
    let line = cmd.push('\t') + b;
    assert(line.push('\n').drop_last() =~= line);
    assert(line.last() == if mouse.len() > 0 {
        mouse.last()
    } else {
        '\t'
    });
    assert(without_end(line.push('\n'), '\n') == without_end(line, '\n'));
    assert(without_end(line, '\n') == line);
    unseparated_text_is_one_part(cmd, '\t');
    unseparated_text_is_one_part(path, '\t');
    unseparated_text_is_one_part(mode, '\t');
    unseparated_text_is_one_part(mouse, '\t');
    parts_split_at_a_separator(mode, mouse, '\t');
    parts_split_at_a_separator(path, c, '\t');
    parts_split_at_a_separator(cmd, b, '\t');
    assert(parts(line, '\t') =~= seq![cmd, path, mode, mouse]);
}

/// White space around a command or a path does not show in the title, and a path
/// of slashes alone is shown as it is.
pub proof fn titles_ignore_white_space(cmd: Seq<char>, path: Seq<char>, root: Seq<char>)
    requires
        root.len() > 0,
        forall|k: int| 0 <= k < root.len() ==> #[trigger] root[k] == '/',
    ensures
        summary_of(cmd, path) == summary_of(trimmed(cmd), trimmed(path)),
        short_dir(root) == root,
{
    trimming_once_is_enough(cmd);
    trimming_once_is_enough(path);
    separators_alone_hold_nothing(root, '/');
    last_filled_is_last(parts(root, '/'));
    match last_filled(parts(root, '/')) {
        Some(t) => {
            let i = choose|i: int|
                0 <= i < parts(root, '/').len() && #[trigger] parts(root, '/')[i] == t;
            assert(parts(root, '/')[i].len() == 0);
        },
        None => {},
    }
}

/// A terminal that was just made is blank, of the size that was asked for, and
/// keeps twenty thousand rows of history. It shows its live screen, has no title
/// and no bell, and stands where no sequence has begun.
pub proof fn new_terminals_are_blank(
    term: PtyTerminal,
    rows: u16,
    cols: u16,
    id: u64,
    tmux: Option<TmuxEnv>,
)
    requires
        term.is_new(rows, cols, id, tmux),
    ensures
        term.ops().len() == 1,
        history_limit(term.ops()) == 20000,
        grid_size(term.ops()) == (rows, cols),
        (term.rows, term.cols) == (rows, cols),
        term.summary@.len() == 0,
        term.session@ == "rsterm_"@ + decimal(id as nat),
        term.tmux_backed <==> tmux is Some,
        tmux matches Some(t) ==> term.socket@ == t.socket@,
        !term.bell && !term.in_copy && !term.mouse_on,
        term.filter@.state == AcsState::Ground,
        !term.filter@.g0_line && !term.filter@.g1_line && !term.filter@.shift_out,
{
}

/// Program output reaches the emulator byte for byte and in order.
pub proof fn bytes_are_handed_over_in_order(bytes: Seq<u8>, i: int)
    requires
        0 <= i < bytes.len(),
    ensures
        byte_ops(bytes).len() == bytes.len(),
        byte_ops(bytes)[i] == ScreenOp::Byte(bytes[i]),
{
}

/// Going back to the live screen changes nothing else.
pub proof fn going_live_keeps_the_rest(term: PtyTerminal, then: PtyTerminal)
    requires
        term.back_to_live(then),
    ensures
        term.tmux_backed ==> !then.in_copy && then.parser == term.parser,
        !term.tmux_backed ==> then.ops() == term.ops().push(ScreenOp::Back(0)) && then.in_copy
            == term.in_copy,
        (then.rows, then.cols) == (term.rows, term.cols),
        then.summary == term.summary,
        then.session == term.session,
        then.socket == term.socket,
        then.tmux_backed == term.tmux_backed,
        then.mouse_on == term.mouse_on,
        then.bell == term.bell,
        then.filter == term.filter,
{
}

/// Older output is in view if the pane is in copy mode, or, without tmux, if the
/// emulator's view was moved back.
pub proof fn what_counts_as_scrolled(term: PtyTerminal)
    ensures
        term.tmux_backed ==> (term.scrolled() <==> term.in_copy),
        !term.tmux_backed ==> (term.scrolled() <==> view_offset(term.ops()) != 0),
        term.view_fits() <==> view_offset(term.ops()) <= term.rows,
{
}


/// Every title is the directory, or the command, a dot and the directory; and
/// slashes at the end of a path that names a directory never matter.
pub proof fn every_title_names_the_directory(cmd: Seq<char>, path: Seq<char>)
    ensures
        ({
            let idle = trimmed(cmd).len() == 0 || is_shell(trimmed(cmd));
            let dir = short_dir(trimmed(path));
            &&& idle ==> summary_of(cmd, path) == dir
            &&& !idle ==> summary_of(cmd, path) == trimmed(cmd) + " · "@ + dir
        }),
        (exists|k: int| 0 <= k < path.len() && #[trigger] path[k] != '/') ==> short_dir(
            path.push('/'),
        ) == short_dir(path),
{
    if exists|k: int| 0 <= k < path.len() && #[trigger] path[k] != '/' {
        let none = Seq::<char>::empty();
        unseparated_text_is_one_part(none, '/');
        parts_split_at_a_separator(path, none, '/');
        assert(path.push('/') + none =~= path.push('/'));
        let p = parts(path, '/');
        assert((p + seq![none]).drop_last() =~= p);
        assert((p + seq![none]).last() == none);
        if last_filled(p) is None {
            last_filled_is_last(p);
            parts_weave_back(path, '/');
            empty_parts_weave_separators(p, '/');
            let k = choose|k: int| 0 <= k < path.len() && #[trigger] path[k] != '/';
            assert(woven(p, '/')[k] == '/');
        }
    }
}

/// Empty texts with separators between them are separators alone.
proof fn empty_parts_weave_separators(p: Seq<Seq<char>>, sep: char)
    requires
        forall|j: int| 0 <= j < p.len() ==> (#[trigger] p[j]).len() == 0,
    ensures
        forall|k: int| 0 <= k < woven(p, sep).len() ==> #[trigger] woven(p, sep)[k] == sep,
    decreases p.len(),
{
    if p.len() > 1 {
        let front = p.drop_last();
        assert forall|j: int| 0 <= j < front.len() implies (#[trigger] front[j]).len() == 0 by {
            assert(front[j] == p[j]);
        }
        empty_parts_weave_separators(front, sep);
        assert(p[p.len() - 1].len() == 0);
        assert(woven(p, sep) =~= woven(front, sep).push(sep));
    } else if p.len() == 1 {
        assert(p[0].len() == 0);
    }
}

} // verus!
