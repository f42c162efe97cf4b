use rs_term::color::{Rgb, TermColor};
use rs_term::node::Selection;
use rs_term::screen::{paint_row, row_runs, term_bg, term_fg, Paint, ScreenCell};
use rs_term::selftest::{selftest_input, SelfTest};
use rs_term::terminal::{
    launch_env, session_name, summarize, CursorMark, Launch, PtyAction, PtyTerminal, HISTORY,
};
use rs_term::tmux::{
    poll_args, poll_step, tmux_candidates, tmux_conf, tmux_env, tmux_notice, PollState, PollStep,
    TmuxEnv,
};

fn tmux() -> TmuxEnv {
    TmuxEnv {
        bin: "/usr/bin/tmux".to_string(),
        conf: "/home/u/.rs-term/tmux.conf".to_string(),
        socket: "rs-term".to_string(),
    }
}

fn plain(rows: u16, cols: u16) -> PtyTerminal {
    PtyTerminal::spawn(rows, cols, None, 1, None, None, None, None).0
}

fn in_tmux(rows: u16, cols: u16) -> PtyTerminal {
    PtyTerminal::spawn(rows, cols, None, 1, None, None, None, Some(&tmux())).0
}

fn args(launch: &Launch) -> Vec<String> {
    launch
        .args
        .iter()
        .map(|a| String::from_utf8(a.clone()).unwrap())
        .collect()
}

fn words(list: &[&str]) -> Vec<String> {
    list.iter().map(|s| s.to_string()).collect()
}

fn tmux_args(action: &PtyAction) -> Vec<String> {
    match action {
        PtyAction::Tmux(args) => args.clone(),
        PtyAction::Write(_) => panic!("a write"),
    }
}

fn written(action: &PtyAction) -> Vec<u8> {
    match action {
        PtyAction::Write(bytes) => bytes.clone(),
        PtyAction::Tmux(_) => panic!("a command"),
    }
}

fn shown(term: &PtyTerminal) -> Vec<String> {
    term.try_paint_rows()
        .unwrap()
        .iter()
        .map(|row| row.iter().map(|p| p.text.clone().unwrap_or_default()).collect::<String>())
        .map(|line| line.trim_end().to_string())
        .collect()
}

#[test]
fn session_names() {
    assert_eq!(session_name(1), "rsterm_1");
    assert_eq!(session_name(u64::MAX), "rsterm_18446744073709551615");
    assert_ne!(session_name(11), session_name(1));
}

#[test]
fn summaries() {
    assert_eq!(summarize("vim", "/home/u/src"), "vim · src");
    assert_eq!(summarize("cargo", "/home/u/rust_term/"), "cargo · rust_term");
    for shell in ["zsh", "bash", "sh", "fish", "-zsh", "-bash", "-fish", "login", "tmux", ""] {
        assert_eq!(summarize(shell, "/home/u/src"), "src");
    }
    assert_eq!(summarize("-sh", "/a"), "-sh · a");
    assert_eq!(summarize(" zsh ", " /a/b \n"), "b");
    assert_eq!(summarize("zsh", "/"), "/");
    assert_eq!(summarize("zsh", "  "), "~");
    assert_eq!(summarize("vim", ""), "vim · ~");
}

#[test]
fn tmux_session_is_attached() {
    let dir = b"/home/u/src".to_vec();
    let (term, launch) =
        PtyTerminal::spawn(24, 80, Some(&dir), 7, None, Some("/bin/fish"), None, Some(&tmux()));
    assert_eq!(launch.program, "/usr/bin/tmux");
    assert_eq!(
        args(&launch),
        words(&[
            "-L", "rs-term", "-f", "/home/u/.rs-term/tmux.conf", "new-session", "-A", "-s",
            "rsterm_7", "-x", "80", "-y", "24", "-c", "/home/u/src",
        ])
    );
    assert_eq!(launch.cwd, None);
    assert_eq!(launch.env, vec![("TERM".to_string(), "xterm-256color".to_string())]);
    assert_eq!((launch.rows, launch.cols), (24, 80));
    assert_eq!(term.session, "rsterm_7");
    assert_eq!(term.socket, "rs-term");
    assert!(term.tmux_backed && !term.in_copy && !term.mouse_on && !term.bell);
    assert_eq!(term.summary, "");
}

#[test]
fn startup_command_runs_in_a_login_shell() {
    let (_, launch) =
        PtyTerminal::spawn(1, 2, None, 3, Some("agent"), Some("/bin/fish"), None, Some(&tmux()));
    assert_eq!(
        args(&launch)[8..].to_vec(),
        words(&[
            "-x", "2", "-y", "1", "/bin/fish", "-l", "-c", "agent; exec ${SHELL:-/bin/zsh}",
        ])
    );
}

#[test]
fn without_tmux_a_shell_is_started() {
    let (term, launch) =
        PtyTerminal::spawn(0, 0, None, 3, Some("agent"), None, Some("/home/u"), None);
    assert_eq!(launch.program, "/bin/zsh");
    assert_eq!(args(&launch), words(&["-l", "-c", "agent; exec ${SHELL:-/bin/zsh}"]));
    assert_eq!(launch.cwd, Some(b"/home/u".to_vec()));
    assert_eq!(launch.env, launch_env());
    assert_eq!((launch.rows, launch.cols), (1, 1));
    assert_eq!((term.rows, term.cols), (1, 1));
    assert!(!term.tmux_backed);

    let dir = b"/w".to_vec();
    let (_, launch) =
        PtyTerminal::spawn(2, 2, Some(&dir), 3, None, Some("/bin/sh"), Some("/home/u"), None);
    assert_eq!(launch.program, "/bin/sh");
    assert!(launch.args.is_empty());
    assert_eq!(launch.cwd, Some(dir));

    let (_, launch) = PtyTerminal::spawn(2, 2, None, 3, None, None, None, None);
    assert_eq!(launch.cwd, None);
}

#[test]
fn output_is_painted() {
    let mut term = plain(3, 10);
    assert!(term.try_feed(b"\x1b[31mhi\x1b[0m ok\r\n\x1b[7minv\x1b[0m\r\n\x1b[44m  \x1b[38;2;1;2;3mz"));
    let rows = term.try_paint_rows().unwrap();
    assert_eq!(rows.len(), 3);
    let row: &Vec<Paint> = &rows[0];
    assert_eq!(row.len(), 2);
    assert_eq!((row[0].start, row[0].end), (0, 2));
    assert_eq!(row[0].text, Some("hi".to_string()));
    assert_eq!(row[0].fill, None);
    assert_eq!(row[0].fg, Rgb { r: 0xcd, g: 0x31, b: 0x31 });
    assert_eq!((row[1].start, row[1].end), (2, 10));
    assert_eq!(row[1].text, Some(" ok     ".to_string()));
    assert_eq!(row[1].fg, term_fg());
    let row: &Vec<Paint> = &rows[1];
    assert_eq!(row[0].text, Some("inv".to_string()));
    assert_eq!(row[0].fill, Some(term_fg()));
    assert_eq!(row[0].fg, term_bg());
    assert_eq!(row[1].text, None);
    assert_eq!(row[1].fill, None);
    let row: &Vec<Paint> = &rows[2];
    assert_eq!((row[0].start, row[0].end), (0, 2));
    assert_eq!(row[0].text, None);
    assert_eq!(row[0].fill, Some(Rgb { r: 0x24, g: 0x72, b: 0xc8 }));
    assert_eq!(row[1].text, Some("z".to_string()));
    assert_eq!(row[1].fg, Rgb { r: 1, g: 2, b: 3 });
}

#[test]
fn line_drawing_reaches_the_screen() {
    let mut term = plain(2, 6);
    assert!(term.try_feed(b"\x1b(0l"));
    assert!(term.try_feed(b"qk\x1b(Bq"));
    assert_eq!(shown(&term)[0], "┌─┐q");
}

#[test]
fn rows_are_cut_into_runs() {
    let cell = |text: &str, fg: TermColor| {
        Some(ScreenCell {
            text: text.to_string(),
            fg,
            bg: TermColor::Default,
            inverse: false,
            wide_tail: false,
        })
    };
    let cells = vec![
        cell("a", TermColor::Default),
        None,
        cell("", TermColor::Default),
        cell("b", TermColor::Idx(2)),
        cell("c", TermColor::Idx(2)),
    ];
    let runs = row_runs(&cells);
    assert_eq!(runs.len(), 2);
    assert_eq!((runs[0].start, runs[0].end, runs[0].text.as_str()), (0, 3, "a  "));
    assert_eq!((runs[1].start, runs[1].end, runs[1].text.as_str()), (3, 5, "bc"));
    let paints = paint_row(&cells);
    assert_eq!(paints[1].fg, Rgb { r: 0x0d, g: 0xbc, b: 0x79 });
    assert!(row_runs(&Vec::new()).is_empty());
}

#[test]
fn cursor_marks() {
    let mut term = plain(3, 10);
    term.try_feed(b"hi");
    assert!(matches!(term.cursor_mark(false, false), CursorMark::Hollow { row: 0, col: 2 }));
    match term.cursor_mark(true, false) {
        CursorMark::Block { row, col, glyph } => {
            assert_eq!((row, col, glyph.as_str()), (0, 2, ""));
        }
        _ => panic!("no block"),
    }
    term.try_feed(b"\x1b[1;1H");
    match term.cursor_mark(true, false) {
        CursorMark::Block { row, col, glyph } => {
            assert_eq!((row, col, glyph.as_str()), (0, 0, "h"));
        }
        _ => panic!("no block"),
    }
    assert!(matches!(term.cursor_mark(true, true), CursorMark::Absent));
    term.try_feed(b"\x1b[?25l");
    assert!(matches!(term.cursor_mark(true, false), CursorMark::Absent));
    // After a full line the cursor is off the screen.
    let mut term = plain(3, 3);
    term.try_feed(b"abc");
    assert!(matches!(term.cursor_mark(true, false), CursorMark::Absent));
}

#[test]
fn bells_are_taken_once() {
    let mut term = plain(3, 10);
    term.try_feed(b"a\x07");
    term.try_feed(b"b");
    assert!(term.take_bell());
    assert!(!term.take_bell());
    term.try_feed(b"\x1b]0;t\x07");
    assert!(!term.take_bell());
}

#[test]
fn bells_ring_on_any_screen() {
    let mut term = plain(24, 80);
    term.resize(10, 40);
    assert!(!term.try_feed(b"a\x07"));
    assert!(!term.take_bell());
    // The filter keeps its state over the reads, and the bell stays pending.
    assert_eq!(term.filter_output(b"a\x07\x1b(0q\x1b"), "a─".as_bytes().to_vec());
    assert_eq!(term.filter_output(b"(Bq"), b"q".to_vec());
    assert!(term.take_bell());
    assert!(!term.take_bell());
    assert_eq!(term.filter_output(b"\x1b]0;t\x07"), b"\x1b]0;t\x07".to_vec());
    assert!(!term.take_bell());
}

#[test]
fn the_user_is_told_where_tmux_is_missing() {
    assert_eq!(tmux_notice(Some(&tmux())), None);
    assert_eq!(tmux_notice(None), Some("tmux not found: terminals do not survive a restart"));
}

#[test]
fn selected_text_is_in_reading_order() {
    let mut term = plain(4, 8);
    term.try_feed("one two\r\n日本 x\r\n  end".as_bytes());
    let text = |anchor: (u16, u16), head: (u16, u16)| {
        term.selected_text(Selection { anchor, head }).unwrap()
    };
    assert_eq!(text((0, 0), (0, 0)), "o");
    assert_eq!(text((0, 4), (2, 3)), "two\n日本 x\n  en");
    // Drawn backwards it is the same.
    assert_eq!(text((2, 3), (0, 4)), "two\n日本 x\n  en");
    // Blanks at the end of a row do not count.
    assert_eq!(text((0, 3), (0, 7)), " two");
    assert_eq!(text((2, 5), (3, 7)), "\n");
    // What lies off the screen is left out.
    assert_eq!(text((2, 2), (9, 9)), "end\n");
    assert_eq!(text((7, 0), (9, 9)), "");
    assert_eq!(text((1, 9), (1, 9)), "");
}

#[test]
fn selected_text_of_history() {
    let mut term = plain(2, 8);
    term.try_feed(b"1\r\n2\r\n3\r\n4\r\n5\r\n6");
    let all = Selection { anchor: (0, 0), head: (1, 7) };
    assert_eq!(term.selected_text(all).unwrap(), "5\n6");
    term.scroll_lines(1);
    assert_eq!(term.selected_text(all).unwrap(), "4\n5");
    term.scroll_lines(3);
    assert_eq!(term.selected_text(all), None);
}

#[test]
fn selected_columns() {
    let s = Selection { anchor: (3, 2), head: (1, 5) };
    assert_eq!(s.columns(0, 8), None);
    assert_eq!(s.columns(1, 8), Some((5, 8)));
    assert_eq!(s.columns(2, 8), Some((0, 8)));
    assert_eq!(s.columns(3, 8), Some((0, 3)));
    assert_eq!(s.columns(4, 8), None);
    assert_eq!(s.columns(1, 5), None);
    assert_eq!(s.columns(3, 2), Some((0, 2)));
}

#[test]
fn answers_of_tmux() {
    let mut term = in_tmux(24, 80);
    assert!(term.poll(b"vim\t/home/u/src\t1\t0\n"));
    assert_eq!(term.summary, "vim · src");
    assert!(term.in_copy && !term.mouse_on);
    assert!(term.is_scrolled());
    assert!(!term.poll(b"vim\t/home/u/src\t0\t 1 \n"));
    assert!(!term.in_copy && term.mouse_on);
    assert!(term.poll(b"v\xffm\t/x"));
    assert_eq!(term.summary, "v\u{fffd}m · x");
    assert!(!term.in_copy && !term.mouse_on);
    assert!(term.poll(b"\n"));
    assert_eq!(term.summary, "~");
    assert!(term.apply_answer("zsh\t/tmp\t1\t1"));
    assert_eq!(term.summary, "tmp");
    assert!(term.in_copy && term.mouse_on);
}

#[test]
fn typing_leaves_copy_mode() {
    let mut term = in_tmux(24, 80);
    let actions = term.send(b"ls\r");
    assert_eq!(actions.len(), 1);
    assert_eq!(written(&actions[0]), b"ls\r".to_vec());

    term.in_copy = true;
    let actions = term.send(b"x");
    assert_eq!(actions.len(), 2);
    assert_eq!(
        tmux_args(&actions[0]),
        words(&["-L", "rs-term", "send-keys", "-t", "rsterm_1", "-X", "cancel"])
    );
    assert_eq!(written(&actions[1]), b"x".to_vec());
    assert!(!term.is_scrolled());
}

#[test]
fn scrolling_drives_copy_mode() {
    let mut term = in_tmux(24, 80);
    assert!(term.scroll_lines(0).is_empty());
    assert!(term.scroll_lines(-2).is_empty());
    let actions = term.scroll_lines(3);
    assert_eq!(actions.len(), 2);
    assert_eq!(
        tmux_args(&actions[0]),
        words(&["-L", "rs-term", "copy-mode", "-e", "-t", "rsterm_1"])
    );
    assert_eq!(
        tmux_args(&actions[1]),
        words(&["-L", "rs-term", "send-keys", "-t", "rsterm_1", "-X", "-N", "3", "scroll-up"])
    );
    assert!(term.in_copy);
    let actions = term.scroll_lines(-12);
    assert_eq!(actions.len(), 1);
    assert_eq!(
        tmux_args(&actions[0]),
        words(&["-L", "rs-term", "send-keys", "-t", "rsterm_1", "-X", "-N", "12", "scroll-down"])
    );
    assert!(term.in_copy);
    let actions = term.scroll_lines(isize::MIN);
    assert_eq!(tmux_args(&actions[0])[7], format!("{}", isize::MIN.unsigned_abs()));
}

#[test]
fn mouse_programs_get_wheel_steps() {
    let mut term = in_tmux(24, 80);
    term.mouse_on = true;
    let actions = term.scroll_lines(-2);
    assert_eq!(actions.len(), 1);
    assert_eq!(written(&actions[0]), b"\x1b[<65;40;12M\x1b[<65;40;12M".to_vec());
    let actions = term.scroll_lines(100);
    assert_eq!(written(&actions[0]), b"\x1b[<64;40;12M".repeat(8));
    assert!(!term.in_copy);
    let mut term = in_tmux(1, 1);
    term.mouse_on = true;
    assert_eq!(written(&term.scroll_lines(1)[0]), b"\x1b[<64;1;1M".to_vec());
}

#[test]
fn plain_terminals_keep_their_history() {
    let mut term = plain(3, 10);
    for i in 0..10 {
        term.try_feed(format!("line {}\r\n", i).as_bytes());
    }
    assert_eq!(shown(&term), words(&["line 8", "line 9", ""]));
    assert!(!term.is_scrolled());
    assert!(term.scroll_lines(2).is_empty());
    assert!(term.is_scrolled());
    assert_eq!(shown(&term), words(&["line 6", "line 7", "line 8"]));
    assert!(matches!(term.cursor_mark(true, false), CursorMark::Absent));
    // Further back than the screen is high.
    term.scroll_lines(1000);
    assert!(term.try_paint_rows().is_none());
    term.scroll_lines(-6);
    assert_eq!(shown(&term), words(&["line 6", "line 7", "line 8"]));
    term.scroll_lines(-1000);
    assert!(!term.is_scrolled());
    term.scroll_lines(1);
    let actions = term.send(b"x");
    assert_eq!(actions.len(), 1);
    assert!(!term.is_scrolled());
    assert_eq!(shown(&term), words(&["line 8", "line 9", ""]));
}

#[test]
fn history_is_bounded() {
    let mut term = plain(2, 10);
    let mut all: Vec<u8> = Vec::new();
    for i in 0..HISTORY + 50 {
        all.extend_from_slice(format!("{}\r\n", i).as_bytes());
    }
    assert!(term.try_feed(&all));
    term.scroll_lines(isize::MAX);
    let back = HISTORY as isize;
    term.scroll_lines(2 - back);
    assert_eq!(shown(&term).len(), 2);
    assert_eq!(shown(&term)[0], format!("{}", HISTORY + 50 - 3));
}

#[test]
fn resizing() {
    let mut term = plain(3, 10);
    assert_eq!(term.resize(3, 10), None);
    assert_eq!(term.resize(4, 12), Some((4, 12)));
    assert_eq!((term.rows, term.cols), (4, 12));
    assert!(term.try_feed(b"0123456789ab"));
    assert_eq!(shown(&term), words(&["0123456789ab", "", "", ""]));
    assert_eq!(term.resize(0, 0), Some((1, 1)));
    assert_eq!((term.rows, term.cols), (1, 1));
    // Once it shrank, the emulator does not accept everything any more.
    assert!(!term.try_feed(b"x"));
    assert_eq!(shown(&term), words(&["0"]));
}

#[test]
fn tiny_terminals_take_no_output() {
    for (rows, cols) in [(1, 80), (24, 2), (2, 65528)] {
        assert!(!plain(rows, cols).try_feed(b"x"));
    }
    for (rows, cols) in [(2, 3), (2, 65527)] {
        assert!(plain(rows, cols).try_feed("\u{17d8}\t\t\u{1f600}".as_bytes()));
    }
}

#[test]
fn sessions_are_ended() {
    assert_eq!(
        in_tmux(24, 80).kill_session(),
        Some(words(&["-L", "rs-term", "kill-session", "-t", "rsterm_1"]))
    );
    assert_eq!(plain(24, 80).kill_session(), None);
}

#[test]
fn tmux_is_chosen() {
    let candidates = tmux_candidates();
    assert_eq!(
        candidates,
        words(&[
            "/opt/homebrew/bin/tmux", "/usr/local/bin/tmux", "/usr/bin/tmux", "/opt/local/bin/tmux",
        ])
    );
    for k in 0..4 {
        let exists: Vec<bool> = (0..4).map(|i| i >= k).collect();
        let env = tmux_env(&exists, false, "c".to_string()).unwrap();
        assert_eq!(env.bin, candidates[k]);
        assert_eq!((env.conf.as_str(), env.socket.as_str()), ("c", "rs-term"));
    }
    let env = tmux_env(&vec![false; 4], true, "c".to_string()).unwrap();
    assert_eq!(env.bin, "tmux");
    assert!(tmux_env(&vec![false; 4], false, "c".to_string()).is_none());
    assert_eq!(tmux_conf().lines().count(), 10);
    assert!(tmux_conf().contains("set -g history-limit 20000\n"));
    assert!(tmux_conf().contains("set -g default-terminal \"xterm-256color\"\n"));
}

/// The steps of a poller whose session is there after `probes` looks, until it
/// has asked `asks` times.
fn course(probes: usize, asks: usize) -> Vec<PollStep> {
    let mut steps = Vec::new();
    let mut state = PollState::Start;
    let mut ok = false;
    let mut seen = 0;
    let mut asked = 0;
    while asked < asks {
        let (next, step) = poll_step(state, true, ok);
        if step == PollStep::HasSession {
            seen += 1;
        }
        if step == PollStep::Ask {
            asked += 1;
        }
        ok = step != PollStep::HasSession || seen == probes;
        state = next;
        steps.push(step);
    }
    steps
}

#[test]
fn poller_waits_configures_and_asks() {
    let mut want = vec![
        PollStep::HasSession,
        PollStep::Sleep,
        PollStep::HasSession,
        PollStep::SetOption(0),
        PollStep::SetOption(1),
        PollStep::SetOption(2),
        PollStep::SetOption(3),
        PollStep::Ask,
    ];
    want.extend(vec![PollStep::Sleep; 10]);
    want.push(PollStep::Ask);
    assert_eq!(course(2, 2), want);
    // Whenever it is found, each option is set once and in order.
    for probes in 1..=20 {
        let steps = course(probes, 3);
        let first: Vec<PollStep> = steps[2 * probes - 1..2 * probes + 4].to_vec();
        let options: Vec<PollStep> = (0..4).map(PollStep::SetOption).collect();
        assert_eq!(first[..4].to_vec(), options);
        assert_eq!(first[4], PollStep::Ask);
        assert_eq!(steps.len(), 2 * probes + 4 + 22);
    }
    // A session that never comes up is looked for twenty times.
    let steps = course(0, 1);
    assert_eq!(steps.iter().filter(|s| **s == PollStep::HasSession).count(), 20);
    assert_eq!(steps.len(), 41);
}

#[test]
fn poller_stops_with_its_terminal() {
    for state in [
        PollState::Start,
        PollState::Probing(0),
        PollState::Waiting(3),
        PollState::Configuring(0),
        PollState::Asking,
        PollState::Resting(4),
        PollState::Stopped,
    ] {
        let mut state = state;
        for _ in 0..5 {
            state = poll_step(state, false, true).0;
        }
        assert_eq!(state, PollState::Stopped);
        assert_eq!(poll_step(state, true, true), (PollState::Stopped, PollStep::Stop));
    }
}

#[test]
fn poller_commands() {
    let of = |step: PollStep| poll_args(step, "s", "n");
    assert_eq!(of(PollStep::HasSession), words(&["-L", "s", "has-session", "-t", "n"]));
    assert_eq!(
        of(PollStep::SetOption(0)),
        words(&["-L", "s", "set-option", "-t", "n", "status", "off"])
    );
    assert_eq!(of(PollStep::SetOption(1)), words(&["-L", "s", "set-option", "-g", "mouse", "on"]));
    assert_eq!(
        of(PollStep::SetOption(2)),
        words(&["-L", "s", "set-option", "-g", "bell-action", "any"])
    );
    assert_eq!(
        of(PollStep::SetOption(3)),
        words(&["-L", "s", "set-option", "-g", "visual-bell", "off"])
    );
    assert_eq!(
        of(PollStep::Ask),
        words(&[
            "-L", "s", "display-message", "-p", "-t", "n",
            "#{pane_current_command}\t#{pane_current_path}\t#{pane_in_mode}\t#{mouse_any_flag}",
        ])
    );
    assert!(of(PollStep::Sleep).is_empty());
    assert!(of(PollStep::Stop).is_empty());
}

#[test]
fn selftest_finds_its_marker() {
    assert_eq!(selftest_input(), "printf 'RSTERM_OK_%s\\n' 4242; exit\n");
    let mut test = SelfTest::new();
    test.feed(b"$ printf 'RSTERM_OK_%s\\n' 4242; exit\r\n");
    assert!(!test.passed());
    test.feed(b"RSTERM_OK");
    test.feed(b"_4242\r\n");
    assert!(test.passed());
    assert_eq!(test.screen(), "$ printf 'RSTERM_OK_%s\\n' 4242; exit\nRSTERM_OK_4242");
    // Escapes in between are seen by the screen alone.
    let mut test = SelfTest::new();
    test.feed(b"RSTERM_\x1b[1mOK_4242");
    assert!(!test.got.contains("RSTERM_OK_4242"));
    assert!(test.passed());
    // What was cleared from the screen is still in the output.
    let mut test = SelfTest::new();
    test.feed(b"RSTERM_OK_4242\x1b[2J\x1b[H\xff");
    assert!(!test.screen().contains("RSTERM_OK_4242"));
    assert!(test.got.ends_with('\u{fffd}'));
    assert!(test.passed());
}
