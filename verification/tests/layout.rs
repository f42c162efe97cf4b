use rs_term::app::{session_end, session_ends, RsTermApp};
use rs_term::geometry::{Area, Extent, Point, Scalar};
use rs_term::interact::{hit_pos, scroll_target, CardEvents, ScrollTarget};
use rs_term::keys::{InputEvent, Key, Modifiers};
use rs_term::layout::clamp_zoom;
use rs_term::node::{
    border_color, default_true, minimap_color, status_dot, title_fill, Node, NodeKind, SavedApp,
    SavedCanvas, SavedKind, SavedNode, Selection,
};
use rs_term::terminal::PtyAction;
use rs_term::tmux::TmuxEnv;

fn s(x: f32) -> Scalar {
    Scalar { bits: x.to_bits() }
}

fn at(x: f32, y: f32) -> Point {
    Point { x: s(x), y: s(y) }
}

fn by(x: f32, y: f32) -> Extent {
    Extent { x: s(x), y: s(y) }
}

fn area(x: f32, y: f32, w: f32, h: f32) -> Area {
    Area { min: at(x, y), max: at(x + w, y + h) }
}

fn tmux() -> TmuxEnv {
    TmuxEnv {
        bin: "/usr/bin/tmux".to_string(),
        conf: "/c".to_string(),
        socket: "rs-term".to_string(),
    }
}

fn ids(app: &RsTermApp) -> Vec<u64> {
    app.cv().nodes.iter().map(|n| n.id).collect()
}

/// A fresh layout with two terminals and a note between them.
fn three() -> RsTermApp {
    let mut app = RsTermApp::new(None);
    app.add_terminal(at(0.0, 0.0), None);
    app.add_note(at(10.0, 10.0));
    app.add_claude(at(20.0, 20.0), None, "agent");
    app
}

fn start(app: &mut RsTermApp, i: usize, tmux: Option<&TmuxEnv>) {
    let (term, _) = app.terminal_launch(i, 5, 20, "agent", None, None, tmux).unwrap();
    app.attach_terminal(i, term);
}

#[test]
fn fresh_layout() {
    let app = RsTermApp::new(None);
    assert_eq!((app.canvases.len(), app.active, app.next_id), (1, 0, 1));
    assert!(app.show_minimap && default_true());
    assert!(!app.dirty);
    let c = app.cv();
    assert_eq!(c.name, "untitled");
    assert_eq!((c.offset, c.zoom), (by(80.0, 80.0), s(1.0)));
    assert!(c.nodes.is_empty() && c.workspace.is_none() && c.focused.is_none());
    assert!(app.shows_open_card());
}

#[test]
fn cards_are_added_on_top() {
    let mut app = three();
    assert_eq!(ids(&app), vec![1, 2, 3]);
    assert_eq!(app.next_id, 4);
    assert_eq!(app.cv().focused, Some(3));
    assert!(app.dirty);
    let n = &app.cv().nodes[0];
    assert_eq!((n.title.as_str(), n.size), ("terminal 1", by(560.0, 360.0)));
    let n = &app.cv().nodes[1];
    assert_eq!((n.title.as_str(), n.size), ("note 2", by(280.0, 200.0)));
    let n = &app.cv().nodes[2];
    assert_eq!((n.title.as_str(), n.size), ("agent 3", by(620.0, 420.0)));
    assert!(n.is_agent() && n.is_terminal());
    // Terminals open in the folder of the canvas, or else in the given one.
    app.add_terminal(at(0.0, 0.0), Some(b"/here".to_vec()));
    app.open_workspace("/home/u/src");
    app.add_terminal(at(0.0, 0.0), Some(b"/here".to_vec()));
    let cwd = |i: usize| match &app.cv().nodes[i].kind {
        NodeKind::Terminal(t) => t.cwd.clone(),
        NodeKind::Note(_) => panic!("a note"),
    };
    assert_eq!(cwd(3), Some(b"/here".to_vec()));
    assert_eq!(cwd(4), Some(b"/home/u/src".to_vec()));
}

#[test]
fn opening_a_folder() {
    let mut app = RsTermApp::new(None);
    app.open_workspace("/home/u/src");
    assert_eq!(app.cv().name, "src");
    assert_eq!(app.cv().workspace, Some(b"/home/u/src".to_vec()));
    assert_eq!(ids(&app), vec![1]);
    assert_eq!(app.cv().nodes[0].pos, at(60.0, 40.0));
    assert!(!app.shows_open_card());
    app.open_workspace("/");
    assert_eq!(app.cv().name, "/");
    assert_eq!(ids(&app), vec![1]);
}

#[test]
fn tabs() {
    let mut app = RsTermApp::new(None);
    assert_eq!(app.tab_label(0), "▦ untitled");
    app.open_workspace("/a/b");
    assert_eq!(app.tab_label(0), "b");
    app.top_bar(None, None, true);
    assert_eq!((app.canvases.len(), app.active), (2, 1));
    assert!(app.close_prompt().is_none());
    app.top_bar(Some(0), Some(1), false);
    assert_eq!((app.active, app.confirm_close), (0, Some(1)));
    assert_eq!(
        app.close_prompt().unwrap(),
        "Close “untitled” and kill its terminal sessions?"
    );
}

#[test]
fn closing_a_canvas_is_confirmed() {
    let mut app = RsTermApp::new(None);
    app.top_bar(None, None, true);
    app.dirty = false;
    app.confirm_close = Some(0);
    assert!(app.confirm_close_dialog(false, false).is_none());
    assert_eq!(app.confirm_close, Some(0));
    assert!(app.confirm_close_dialog(false, true).is_none());
    assert_eq!((app.confirm_close, app.canvases.len()), (None, 2));
    assert!(!app.dirty);
    // A question about a canvas that is gone is dropped.
    app.confirm_close = Some(2);
    assert!(app.close_prompt().is_none());
    assert!(app.confirm_close_dialog(true, false).is_none());
    assert_eq!((app.confirm_close, app.canvases.len()), (None, 2));
    app.confirm_close = Some(1);
    assert!(app.confirm_close_dialog(true, true).is_some());
    assert_eq!((app.active, app.canvases.len(), app.confirm_close), (0, 1, None));
    assert!(app.dirty);
}

#[test]
fn the_last_canvas_stays() {
    let mut app = three();
    assert!(app.close_canvas(0).is_none());
    assert_eq!(ids(&app), vec![1, 2, 3]);
    app.add_canvas();
    app.add_canvas();
    assert!(app.close_canvas(3).is_none());
    assert_eq!(app.active, 2);
    assert_eq!(app.close_canvas(0).unwrap().nodes.len(), 3);
    assert_eq!((app.active, app.canvases.len()), (1, 2));
    app.active = 0;
    assert!(app.close_canvas(1).is_some());
    assert_eq!(app.active, 0);
}

#[test]
fn closing_a_canvas_ends_its_sessions() {
    let mut app = three();
    let env = tmux();
    start(&mut app, 0, Some(&env));
    app.add_canvas();
    let closed = app.close_canvas(0).unwrap();
    let ends = session_ends(&closed, Some(&env));
    // The agent was not shown yet; its session may be left from an earlier run.
    assert_eq!(ends.len(), 2);
    for (args, session) in ends.iter().zip(["rsterm_1", "rsterm_3"]) {
        assert_eq!(*args, vec!["-L", "rs-term", "kill-session", "-t", session]);
    }
    assert_eq!(session_ends(&closed, None).len(), 1);
    assert!(session_end(&closed.nodes[1], Some(&env)).is_none());
    let mut app = three();
    start(&mut app, 0, None);
    assert!(session_end(&app.cv().nodes[0], Some(&env)).is_none());
}

#[test]
fn closing_cards() {
    let mut app = three();
    assert!(app.close_node(9).is_none());
    assert_eq!(app.close_node(2).unwrap().id, 2);
    assert_eq!((ids(&app), app.cv().focused), (vec![1, 3], Some(3)));
    assert_eq!(app.close_focused().unwrap().id, 3);
    assert_eq!((ids(&app), app.cv().focused), (vec![1], None));
    assert!(app.close_focused().is_none());
    // Numbers are not used again.
    app.add_note(at(0.0, 0.0));
    assert_eq!(ids(&app), vec![1, 4]);
}

#[test]
fn cards_come_to_the_front() {
    let mut app = three();
    app.bring_to_front(1);
    assert_eq!(ids(&app), vec![2, 3, 1]);
    app.bring_to_front(1);
    app.bring_to_front(9);
    assert_eq!(ids(&app), vec![2, 3, 1]);
    let closed = app.finish_cards(Some(2), Some(3));
    assert_eq!(closed.unwrap().id, 3);
    assert_eq!((ids(&app), app.cv().focused), (vec![1, 2], None));
    assert!(app.finish_cards(None, None).is_none());
}

#[test]
fn hits() {
    let app = three();
    let areas = vec![
        area(0.0, 0.0, 10.0, 10.0),
        area(5.0, 5.0, 10.0, 10.0),
        area(20.0, 0.0, 5.0, 5.0),
    ];
    assert_eq!(app.topmost_at(&areas, Some(at(1.0, 1.0))), Some(1));
    assert_eq!(app.topmost_at(&areas, Some(at(7.0, 7.0))), Some(2));
    assert_eq!(app.topmost_at(&areas, Some(at(17.0, 7.0))), None);
    assert_eq!(app.topmost_at(&areas, None), None);
    // A note does not hide the terminal under it.
    assert_eq!(app.terminal_index_at(&areas, at(7.0, 7.0)), Some(0));
    assert_eq!(app.terminal_index_at(&areas, at(22.0, 1.0)), Some(2));
    assert_eq!(app.terminal_index_at(&areas, at(12.0, 12.0)), None);
    // While the button is held, what was pressed counts.
    let (p, q) = (Some(at(1.0, 1.0)), Some(at(2.0, 2.0)));
    assert_eq!(hit_pos(true, p, q), p);
    assert_eq!(hit_pos(true, None, q), q);
    assert_eq!(hit_pos(false, p, q), q);
}

#[test]
fn scrolling_over_the_canvas() {
    assert_eq!(scroll_target(false, Some(1)), ScrollTarget::Zoom);
    assert_eq!(scroll_target(false, None), ScrollTarget::Zoom);
    assert_eq!(scroll_target(true, None), ScrollTarget::Pan);
    assert_eq!(scroll_target(true, Some(1)), ScrollTarget::Terminal(1));
}

fn nothing() -> CardEvents {
    CardEvents {
        move_started: false,
        move_stopped: false,
        title_clicked: false,
        moved_to: at(1000.0, 1000.0),
        resize_started: false,
        resize_stopped: false,
        resized_to: by(10.0, 999.0),
        body_clicked: false,
    }
}

#[test]
fn moving_a_card() {
    let mut app = three();
    app.dirty = false;
    assert!(!app.card_events(0, nothing()));
    assert_eq!(app.cv().nodes[0].pos, at(0.0, 0.0));
    let grab = CardEvents { move_started: true, moved_to: at(3.0, 4.0), ..nothing() };
    assert!(app.card_events(0, grab));
    assert_eq!((app.cv().moving, app.cv().focused), (Some(1), Some(1)));
    assert_eq!(app.cv().nodes[0].pos, at(3.0, 4.0));
    assert_eq!(app.active_node(Some(2)), Some(1));
    assert!(!app.background_is_free(None, false, false));
    // Another card does not move with it.
    app.card_events(1, nothing());
    assert_eq!(app.cv().nodes[1].pos, at(10.0, 10.0));
    assert!(!app.dirty);
    let stop = CardEvents { move_stopped: true, moved_to: at(5.0, 6.0), ..nothing() };
    assert!(!app.card_events(0, stop));
    assert_eq!((app.cv().moving, app.cv().nodes[0].pos), (None, at(5.0, 6.0)));
    assert!(app.dirty);
    assert_eq!(app.active_node(Some(2)), Some(2));
}

#[test]
fn resizing_a_card() {
    let mut app = three();
    let grab = CardEvents { resize_started: true, ..nothing() };
    assert!(app.card_events(1, grab));
    assert_eq!(app.cv().nodes[1].size, by(200.0, 999.0));
    assert_eq!(app.active_node(None), Some(2));
    let nan = CardEvents { resized_to: by(f32::NAN, 1.0), ..nothing() };
    app.card_events(1, nan);
    assert_eq!(app.cv().nodes[1].size, by(200.0, 140.0));
    app.dirty = false;
    app.card_events(1, CardEvents { resize_stopped: true, ..nothing() });
    assert!(app.dirty && app.cv().resizing.is_none());
    app.card_events(1, CardEvents { resized_to: by(900.0, 900.0), ..nothing() });
    assert_eq!(app.cv().nodes[1].size, by(200.0, 999.0));
}

#[test]
fn clicks_select() {
    let mut app = three();
    if let NodeKind::Terminal(t) = &mut app.canvases[0].nodes[0].kind {
        t.selection = Some(Selection { anchor: (0, 0), head: (1, 2) });
    }
    let selected = |app: &RsTermApp| match &app.cv().nodes[0].kind {
        NodeKind::Terminal(t) => t.selection.is_some(),
        NodeKind::Note(_) => false,
    };
    assert!(app.card_events(0, CardEvents { title_clicked: true, ..nothing() }));
    assert!(selected(&app));
    assert_eq!(app.cv().focused, Some(1));
    assert!(app.card_events(0, CardEvents { body_clicked: true, ..nothing() }));
    assert!(!selected(&app));
    app.background_events(true, Some(at(7.0, 8.0)));
    assert_eq!((app.cv().focused, app.cv().menu_world), (None, at(7.0, 8.0)));
    app.background_events(false, None);
    assert_eq!(app.cv().menu_world, at(7.0, 8.0));
    assert!(app.background_is_free(None, false, false));
    assert!(!app.background_is_free(Some(1), false, false));
    assert!(!app.background_is_free(None, true, false));
    assert!(!app.background_is_free(None, false, true));
}

#[test]
fn dragging_selects_text() {
    let mut app = three();
    let selection = |app: &RsTermApp| match &app.cv().nodes[0].kind {
        NodeKind::Terminal(t) => t.selection.map(|s| (s.anchor, s.head)),
        NodeKind::Note(_) => None,
    };
    // Nothing is selected before the terminal was started, nor in a note.
    app.select(0, true, (0, 0));
    app.select(1, true, (0, 0));
    assert_eq!(selection(&app), None);
    start(&mut app, 0, None);
    app.select(0, false, (1, 1));
    assert_eq!(selection(&app), None);
    assert_eq!(app.copied_text(0), None);
    app.select(0, true, (0, 2));
    assert_eq!(selection(&app), Some(((0, 2), (0, 2))));
    // The head follows the pointer and stays on the screen of 5 by 20 cells.
    app.select(0, false, (99, 99));
    assert_eq!(selection(&app), Some(((0, 2), (4, 19))));
    app.select(0, false, (0, 4));
    if let NodeKind::Terminal(t) = &mut app.canvases[0].nodes[0].kind {
        assert!(t.term.as_mut().unwrap().try_feed(b"abcdefg"));
    }
    assert_eq!(app.copied_text(0), Some("cde".to_string()));
    assert_eq!(app.copied_text(1), None);
    app.send_input(0, &vec![InputEvent::Text("x".to_string())]);
    assert_eq!(selection(&app), None);
    assert_eq!(app.copied_text(0), None);
}

#[test]
fn maximizing_and_back() {
    let mut app = three();
    app.toggle_maximized(1, at(-1.0, -2.0), by(3000.0, 2000.0));
    assert_eq!(app.cv().nodes[1].pos, at(-1.0, -2.0));
    assert_eq!(app.cv().nodes[1].size, by(3000.0, 2000.0));
    app.toggle_maximized(1, at(5.0, 5.0), by(1.0, 1.0));
    assert_eq!(app.cv().nodes[1].pos, at(10.0, 10.0));
    assert_eq!(app.cv().nodes[1].size, by(280.0, 200.0));
    assert!(app.cv().nodes[1].restore.is_none());
}

#[test]
fn views_stay_in_range() {
    let mut app = RsTermApp::new(None);
    for (zoom, want) in [(10.0, 3.0), (0.0, 0.2), (-1.0, 0.2), (1.7, 1.7), (0.2, 0.2)] {
        app.set_view(by(1.0, 2.0), s(zoom));
        assert_eq!((app.cv().offset, app.cv().zoom), (by(1.0, 2.0), s(want)));
        assert_eq!(clamp_zoom(s(zoom)), s(want));
    }
    assert!(clamp_zoom(s(f32::NAN)).is_nan());
}

#[test]
fn notes_are_edited() {
    let mut app = three();
    app.dirty = false;
    app.note_events(1, None, false, false);
    assert_eq!((app.cv().focused, app.dirty), (Some(3), false));
    app.note_events(1, Some("\n  buy milk \nand bread".to_string()), true, false);
    assert_eq!((app.cv().focused, app.dirty), (Some(2), false));
    app.sync_title(1);
    assert_eq!(app.cv().nodes[1].title, "buy milk");
    app.note_events(1, None, false, true);
    assert!(app.dirty);
    app.note_events(1, Some("0123456789012345678901234567890".to_string()), false, false);
    assert_eq!(app.cv().nodes[1].display_title(), "012345678901234567890123456789…");
    app.note_events(1, Some("012345678901234567890123456789".to_string()), false, false);
    assert_eq!(app.cv().nodes[1].display_title(), "012345678901234567890123456789");
    app.dirty = false;
    app.note_events(0, Some("x".to_string()), true, true);
    assert!(app.cv().nodes[0].is_terminal() && !app.dirty);
    app.note_events(1, Some(" \n".to_string()), false, false);
    assert_eq!(app.cv().nodes[1].display_title(), "note");
}

#[test]
fn titles_of_terminals() {
    let mut app = three();
    assert_eq!(app.cv().nodes[2].display_title(), "terminal 3");
    start(&mut app, 2, Some(&tmux()));
    assert_eq!(app.cv().nodes[2].display_title(), "terminal 3");
    if let NodeKind::Terminal(t) = &mut app.canvases[0].nodes[2].kind {
        t.term.as_mut().unwrap().poll(b"vim\t/a/src\t0\t0\n");
    }
    assert_eq!(app.cv().nodes[2].title_text(), "vim · src");
    app.canvases[0].nodes[2].label = Some(String::new());
    assert_eq!(app.cv().nodes[2].title_text(), "vim · src");
    app.canvases[0].nodes[2].label = Some("mine".to_string());
    assert_eq!(app.cv().nodes[2].title_text(), "mine");
    assert_eq!(app.cv().nodes[2].display_title(), "vim · src");
}

#[test]
fn terminals_are_started_once() {
    let mut app = three();
    assert!(app.terminal_launch(1, 5, 20, "agent", None, None, None).is_none());
    let (_, launch) =
        app.terminal_launch(2, 5, 20, "agent", Some("/bin/sh"), None, None).unwrap();
    assert_eq!(launch.program, "/bin/sh");
    assert_eq!(launch.args[2], b"agent; exec ${SHELL:-/bin/zsh}".to_vec());
    let (_, launch) = app.terminal_launch(0, 5, 20, "agent", None, None, None).unwrap();
    assert!(launch.args.is_empty());
    assert!(!app.has_terminal(0));
    start(&mut app, 0, None);
    assert!(app.has_terminal(0));
    assert!(app.terminal_launch(0, 5, 20, "agent", None, None, None).is_none());
}

#[test]
fn input_goes_to_the_terminal() {
    let mut app = three();
    let enter = InputEvent::Key {
        key: Key::Enter,
        pressed: true,
        modifiers: Modifiers { ctrl: false, command: false, mac_cmd: false },
    };
    let events = vec![InputEvent::Text("ls".to_string()), enter];
    assert!(app.send_input(0, &events).is_empty());
    assert!(app.send_input(1, &events).is_empty());
    start(&mut app, 0, Some(&tmux()));
    if let NodeKind::Terminal(t) = &mut app.canvases[0].nodes[0].kind {
        t.selection = Some(Selection { anchor: (0, 0), head: (1, 2) });
    }
    assert_eq!(app.scroll_terminal(0, 2).len(), 2);
    assert!(app.send_input(0, &vec![InputEvent::Other]).is_empty());
    let actions = app.send_input(0, &events);
    assert_eq!(actions.len(), 2);
    assert!(matches!(&actions[1], PtyAction::Write(bytes) if bytes == b"ls\r"));
    if let NodeKind::Terminal(t) = &app.cv().nodes[0].kind {
        assert!(t.selection.is_none());
        assert!(!t.term.as_ref().unwrap().is_scrolled());
    }
    assert!(app.scroll_terminal(1, 2).is_empty());
}

#[test]
fn bells_let_a_card_glow() {
    let mut app = three();
    assert!(!app.notice_bell(0, 5));
    start(&mut app, 0, None);
    if let NodeKind::Terminal(t) = &mut app.canvases[0].nodes[0].kind {
        assert!(t.term.as_mut().unwrap().try_feed(b"done\x07"));
    }
    assert!(app.notice_bell(0, 7));
    assert!(!app.notice_bell(0, 9));
    assert_eq!(app.cv().nodes[0].glow_start, Some(7));
}

#[test]
fn layout_is_written_in_time() {
    let mut app = three();
    assert!(!app.should_flush(false, 9));
    assert!(app.should_flush(false, 10));
    assert!(app.should_flush(true, 0));
    let saved = app.flush_layout();
    assert_eq!(saved.canvases[0].nodes.len(), 3);
    assert!(!app.should_flush(true, 100));
}

/// Everything in a layout.
fn dump(saved: &SavedApp) -> String {
    let mut out = format!("{} {} {}", saved.active, saved.next_id, saved.show_minimap);
    for c in &saved.canvases {
        out += &format!("|{} {:?} {:?} {:?}", c.name, c.workspace, c.offset, c.zoom);
        for n in &c.nodes {
            out += &format!("/{} {} {:?} {:?} {:?} ", n.id, n.title, n.label, n.pos, n.size);
            out += &match &n.kind {
                SavedKind::Terminal { cwd, agent } => format!("{:?} {}", cwd, agent),
                SavedKind::Note { text } => format!("{:?}", text),
            };
        }
    }
    out
}

#[test]
fn layout_comes_back() {
    let mut app = three();
    app.open_workspace("/home/u/ö");
    app.add_terminal(at(-1.5, 2.25), None);
    app.note_events(1, Some("text".to_string()), false, false);
    app.canvases[0].nodes[0].label = Some("label".to_string());
    app.set_view(by(-3.5, 4.0), s(0.75));
    app.add_canvas();
    app.show_minimap = false;
    start_first(&mut app);
    let again = RsTermApp::new(Some(app.save_layout()));
    assert_eq!(dump(&again.save_layout()), dump(&app.save_layout()));
    assert_eq!(again.active, 1);
    assert!(!again.show_minimap);
    let first: &Node = &again.canvases[0].nodes[0];
    assert!(matches!(&first.kind, NodeKind::Terminal(t) if t.term.is_none()));
    // The session is attached to again, and a new terminal gets its own.
    let mut again = again;
    again.active = 0;
    let (term, _) = again.terminal_launch(0, 5, 20, "agent", None, None, Some(&tmux())).unwrap();
    assert_eq!(term.session, "rsterm_1");
    again.add_terminal(at(0.0, 0.0), None);
    assert_eq!(again.cv().nodes.last().unwrap().id, 5);
}

fn start_first(app: &mut RsTermApp) {
    app.active = 0;
    start(app, 0, Some(&tmux()));
    app.active = 1;
}

fn saved_canvas(zoom: f32) -> SavedCanvas {
    SavedCanvas {
        name: "c".to_string(),
        workspace: None,
        offset: by(0.0, 0.0),
        zoom: s(zoom),
        nodes: vec![SavedNode {
            id: 1,
            title: "t".to_string(),
            label: None,
            pos: at(0.0, 0.0),
            size: by(1.0, 1.0),
            kind: SavedKind::Terminal { cwd: Some("/a".to_string()), agent: true },
        }],
    }
}

#[test]
fn odd_layouts_are_mended() {
    let saved = SavedApp {
        active: 7,
        next_id: 0,
        canvases: vec![saved_canvas(9.0), saved_canvas(0.1), saved_canvas(1.5)],
        show_minimap: true,
    };
    let app = RsTermApp::new(Some(saved));
    assert_eq!((app.active, app.next_id), (2, 1));
    let zooms: Vec<Scalar> = app.canvases.iter().map(|c| c.zoom).collect();
    assert_eq!(zooms, vec![s(3.0), s(0.2), s(1.5)]);
    assert!(app.canvases[0].nodes[0].is_agent());
    let empty = SavedApp { active: 3, next_id: 9, canvases: vec![], show_minimap: false };
    let app = RsTermApp::new(Some(empty));
    assert_eq!((app.active, app.next_id, app.canvases.len()), (0, 9, 1));
    assert_eq!(app.cv().name, "untitled");
    assert!(!app.show_minimap);
}

#[test]
fn paths_that_are_not_text_are_patched() {
    let mut app = RsTermApp::new(None);
    app.add_terminal(at(0.0, 0.0), Some(b"/a\xff".to_vec()));
    let saved = app.save_layout();
    assert!(matches!(
        &saved.canvases[0].nodes[0].kind,
        SavedKind::Terminal { cwd: Some(cwd), agent: false } if cwd == "/a\u{fffd}"
    ));
}

#[test]
fn colors_of_cards() {
    let app = three();
    let rgb = |c: rs_term::color::Rgb| (c.r, c.g, c.b);
    assert_eq!(rgb(border_color(false, true)), (0x3a, 0x3d, 0x44));
    assert_eq!(rgb(border_color(true, true)), (0xd0, 0x86, 0x4a));
    assert_eq!(rgb(border_color(true, false)), (0x4c, 0x8b, 0xf5));
    assert_eq!(rgb(title_fill(true, true)), (0x40, 0x2c, 0x18));
    assert_eq!(rgb(title_fill(true, false)), (0x2b, 0x3a, 0x55));
    assert_eq!(rgb(title_fill(false, true)), (0x26, 0x28, 0x2e));
    let nodes = &app.cv().nodes;
    assert_eq!(rgb(status_dot(&nodes[0])), (0x35, 0xc0, 0x7a));
    assert_eq!(rgb(status_dot(&nodes[1])), (0xe0, 0xc0, 0x50));
    assert_eq!(rgb(status_dot(&nodes[2])), (0xd0, 0x86, 0x4a));
    assert_eq!(rgb(minimap_color(&nodes[0])), (0x35, 0x6a, 0x9a));
    assert_eq!(rgb(minimap_color(&nodes[1])), (0x9a, 0x86, 0x40));
    assert_eq!(rgb(minimap_color(&nodes[2])), (0xd0, 0x86, 0x4a));
}
