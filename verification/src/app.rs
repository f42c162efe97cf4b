//! The whole layout: tabbed canvases of cards, and how it changes.
use crate::geometry::{extent, extent_of, point, point_of, Extent, Point, Scalar};
use crate::keys::{input_bytes, input_of, InputEvent};
use crate::node::{numbered, Node, NodeKind, NoteNode, TerminalNode};
use crate::paths::{folder_name, folder_name_of};
use crate::terminal::{
    action_views, at_least_one, launch_of, opt_bytes, session_name, session_text, sessions_differ,
    Launch, PtyAction, PtyTerminal,
};
use crate::text::{bytes_of, decimal, texts};
use crate::tmux::TmuxEnv;
use vstd::prelude::*;
use vstd::utf8::encode_utf8;

verus! {

/// A canvas: a tab with its own cards, place and zoom.
pub struct Canvas {
    pub name: String,
    /// The folder that the canvas is bound to, as the bytes of its path.
    pub workspace: Option<Vec<u8>>,
    /// The cards, the topmost last.
    pub nodes: Vec<Node>,
    pub offset: Extent,
    pub zoom: Scalar,
    pub focused: Option<u64>,
    pub moving: Option<u64>,
    pub resizing: Option<u64>,
    /// Where the context menu was opened.
    pub menu_world: Point,
}

impl Canvas {
    /// Every card is sound.
    pub open spec fn wf(self) -> bool {
        forall|i: int| 0 <= i < self.nodes@.len() ==> (#[trigger] self.nodes@[i]).wf()
    }

    /// An empty canvas that is bound to no folder.
    pub fn new(name: String) -> (canvas: Canvas)
        ensures
            canvas.wf(),
            canvas.name == name,
            canvas.workspace is None,
            canvas.nodes@.len() == 0,
            canvas.offset == extent(0x42a0_0000, 0x42a0_0000),
            canvas.zoom == (Scalar { bits: 0x3f80_0000 }),
            canvas.focused is None,
            canvas.moving is None,
            canvas.resizing is None,
            canvas.menu_world == point(0, 0),
    {
        Canvas {
            name,
            workspace: None,
            nodes: Vec::new(),
            offset: extent_of(0x42a0_0000, 0x42a0_0000),
            zoom: Scalar { bits: 0x3f80_0000 },
            focused: None,
            moving: None,
            resizing: None,
            menu_world: point_of(0, 0),
        }
    }
}

/// The canvases and what is going on with them.
pub struct RsTermApp {
    pub canvases: Vec<Canvas>,
    pub active: usize,
    /// The number of the next node.
    pub next_id: u64,
    /// The canvas that is about to be closed, if the user confirms.
    pub confirm_close: Option<usize>,
    /// The layout changed since it was written.
    pub dirty: bool,
    pub show_minimap: bool,
}

/// The first card with the number `id`.
pub open spec fn first_with_id(nodes: Seq<Node>, id: u64) -> Option<int>
    decreases nodes.len(),
{
    if nodes.len() == 0 {
        None
    } else {
        match first_with_id(nodes.drop_last(), id) {
            Some(i) => Some(i),
            None => if nodes.last().id == id {
                Some(nodes.len() - 1)
            } else {
                None
            },
        }
    }
}

fn position(nodes: &Vec<Node>, id: u64) -> (found: Option<usize>)
    ensures
        match found {
            Some(i) => i < nodes@.len() && nodes@[i as int].id == id && first_with_id(nodes@, id)
                == Some(i as int),
            None => first_with_id(nodes@, id) is None,
        },
{
    let mut i: usize = 0;
    while i < nodes.len()
        invariant
            i <= nodes@.len(),
            first_with_id(nodes@.take(i as int), id) is None,
        decreases nodes.len() - i,
    {
        assert(nodes@.take(i + 1).drop_last() =~= nodes@.take(i as int));
        if nodes[i].id == id {
            proof {
                first_stays(nodes@, id, i + 1);
            }
            return Some(i);
        }
        i += 1;
    }
    assert(nodes@.take(nodes@.len() as int) =~= nodes@);
    None
}

/// What is found among the first cards is found among all.
proof fn first_stays(nodes: Seq<Node>, id: u64, n: int)
    requires
        0 <= n <= nodes.len(),
        first_with_id(nodes.take(n), id) is Some,
    ensures
        first_with_id(nodes, id) == first_with_id(nodes.take(n), id),
    decreases nodes.len() - n,
{
    if n == nodes.len() {
        assert(nodes.take(n) =~= nodes);
    } else {
        assert(nodes.take(n + 1).drop_last() =~= nodes.take(n));
        first_stays(nodes, id, n + 1);
    }
}

impl RsTermApp {
    /// There is an active canvas, and every card is sound.
    pub open spec fn wf(self) -> bool {
        &&& self.active < self.canvases@.len()
        &&& forall|c: int| 0 <= c < self.canvases@.len() ==> (#[trigger] self.canvases@[c]).wf()
    }

    /// The active canvas.
    pub open spec fn current(self) -> Canvas {
        self.canvases@[self.active as int]
    }

    /// There is such a card.
    pub open spec fn has(self, c: int, i: int) -> bool {
        0 <= c < self.canvases@.len() && 0 <= i < self.canvases@[c].nodes@.len()
    }

    /// The number of a card.
    pub open spec fn id_at(self, c: int, i: int) -> u64 {
        self.canvases@[c].nodes@[i].id
    }

    /// No two cards have one number, and all numbers lie below the next one.
    pub open spec fn ids_sound(self) -> bool {
        &&& forall|c: int, i: int| self.has(c, i) ==> #[trigger] self.id_at(c, i) < self.next_id
        &&& forall|c: int, i: int, d: int, j: int|
            self.has(c, i) && self.has(d, j) && #[trigger] self.id_at(c, i) == #[trigger] self.id_at(
                d,
                j,
            ) ==> c == d && i == j
    }

    /// `self` is `before` but for the canvas that is active in it.
    pub open spec fn differs_in_active(self, before: RsTermApp) -> bool {
        &&& self.canvases@.len() == before.canvases@.len()
        &&& forall|c: int|
            0 <= c < before.canvases@.len() && c != before.active ==> self.canvases@[c]
                == #[trigger] before.canvases@[c]
    }

    /// `self` is `before` with another card `i` on the active canvas.
    pub open spec fn has_new_node(self, before: RsTermApp, i: int, node: Node) -> bool {
        &&& self.differs_in_active(before)
        &&& self.current().nodes@ == before.current().nodes@.update(i, node)
        &&& self.current() == (Canvas { nodes: self.current().nodes, ..before.current() })
        &&& self == (RsTermApp { canvases: self.canvases, ..before })
    }

    /// Marks the layout as changed.
    pub fn mark_dirty(&mut self)
        ensures
            *final(self) == (RsTermApp { dirty: true, ..*old(self) }),
            old(self).ids_sound() ==> final(self).ids_sound(),
    {
        self.dirty = true;
        proof {
            ids_unmoved(*old(self), *self);
        }
    }

    /// The active canvas.
    pub fn cv(&self) -> (canvas: &Canvas)
        requires
            self.wf(),
        ensures
            *canvas == self.current(),
    {
        &self.canvases[self.active]
    }

    /// `self` is `before` with one more card, which has the next number, lies
    /// on top of the active canvas and is selected.
    pub open spec fn adds(self, before: RsTermApp, node: Node) -> bool {
        &&& node.id == before.next_id
        &&& self.differs_in_active(before)
        &&& self.current().nodes@ == before.current().nodes@.push(node)
        &&& self.current() == (Canvas {
            nodes: self.current().nodes,
            focused: Some(node.id),
            ..before.current()
        })
        &&& self == (RsTermApp {
            canvases: self.canvases,
            next_id: (before.next_id + 1) as u64,
            dirty: true,
            ..before
        })
    }

    /// Adds a card on top of the active canvas.
    fn add_node(&mut self, node: Node)
        requires
            old(self).wf(),
            old(self).next_id < u64::MAX,
            node.id == old(self).next_id,
            node.wf(),
        ensures
            final(self).wf(),
            old(self).ids_sound() ==> final(self).ids_sound(),
            final(self).adds(*old(self), node),
    {
        let id = node.id;
        self.next_id = self.next_id + 1;
        let a = self.active;
        let c = &mut self.canvases[a];
        c.nodes.push(node);
        c.focused = Some(id);
        self.mark_dirty();
        proof {
            if old(self).ids_sound() {
                let n = old(self).current().nodes@.len() as int;
                assert forall|c: int, i: int| self.has(c, i) implies {
                    ||| old(self).has(c, i) && #[trigger] self.id_at(c, i) == old(self).id_at(c, i)
                    ||| c == a && i == n && self.id_at(c, i) == id
                } by {
                    if c != a {
                        assert(self.canvases@[c] == old(self).canvases@[c]);
                    }
                }
            }
        }
    }

    /// The directory for a new terminal: the folder of the active canvas, or
    /// the given one if it has none.
    pub open spec fn start_dir(self, default_cwd: Option<Vec<u8>>) -> Option<Seq<u8>> {
        match self.current().workspace {
            Some(path) => Some(path@),
            None => opt_bytes(default_cwd),
        }
    }

    /// Adds a terminal to the active canvas.
    pub fn add_terminal(&mut self, world_pos: Point, default_cwd: Option<Vec<u8>>)
        requires
            old(self).wf(),
            old(self).next_id < u64::MAX,
        ensures
            final(self).wf(),
            old(self).ids_sound() ==> final(self).ids_sound(),
            final(self).adds(*old(self), final(self).current().nodes@.last()),
            is_new_terminal(
                final(self).current().nodes@.last(),
                "terminal "@ + decimal(old(self).next_id as nat),
                world_pos,
                extent(0x440c_0000, 0x43b4_0000),
                old(self).start_dir(default_cwd),
                false,
            ),
    {
        let id = self.next_id;
        let cwd = self.new_cwd(default_cwd);
        self.add_node(
            Node {
                id,
                title: numbered("terminal ", id),
                label: None,
                pos: world_pos,
                size: extent_of(0x440c_0000, 0x43b4_0000),
                kind: NodeKind::Terminal(
                    TerminalNode { cwd, agent: false, term: None, selection: None },
                ),
                glow_start: None,
                restore: None,
            },
        );
    }

    /// Adds a terminal that runs a coding agent to the active canvas. `agent`
    /// is the command of the agent.
    pub fn add_claude(&mut self, world_pos: Point, default_cwd: Option<Vec<u8>>, agent: &str)
        requires
            old(self).wf(),
            old(self).next_id < u64::MAX,
        ensures
            final(self).wf(),
            old(self).ids_sound() ==> final(self).ids_sound(),
            final(self).adds(*old(self), final(self).current().nodes@.last()),
            is_new_terminal(
                final(self).current().nodes@.last(),
                agent@ + " "@ + decimal(old(self).next_id as nat),
                world_pos,
                extent(0x441b_0000, 0x43d2_0000),
                old(self).start_dir(default_cwd),
                true,
            ),
    {
        let id = self.next_id;
        let cwd = self.new_cwd(default_cwd);
        self.add_node(
            Node {
                id,
                title: numbered(agent.to_owned().concat(" ").as_str(), id),
                label: None,
                pos: world_pos,
                size: extent_of(0x441b_0000, 0x43d2_0000),
                kind: NodeKind::Terminal(
                    TerminalNode { cwd, agent: true, term: None, selection: None },
                ),
                glow_start: None,
                restore: None,
            },
        );
    }

    /// Adds an empty note to the active canvas.
    pub fn add_note(&mut self, world_pos: Point)
        requires
            old(self).wf(),
            old(self).next_id < u64::MAX,
        ensures
            final(self).wf(),
            old(self).ids_sound() ==> final(self).ids_sound(),
            final(self).adds(*old(self), final(self).current().nodes@.last()),
            is_new_card(
                final(self).current().nodes@.last(),
                "note "@ + decimal(old(self).next_id as nat),
                world_pos,
                extent(0x438c_0000, 0x4348_0000),
            ),
            final(self).current().nodes@.last().kind matches NodeKind::Note(note)
                && note.text@.len() == 0,
    {
        let id = self.next_id;
        self.add_node(
            Node {
                id,
                title: numbered("note ", id),
                label: None,
                pos: world_pos,
                size: extent_of(0x438c_0000, 0x4348_0000),
                kind: NodeKind::Note(NoteNode { text: String::new() }),
                glow_start: None,
                restore: None,
            },
        );
    }

    fn new_cwd(&self, default_cwd: Option<Vec<u8>>) -> (cwd: Option<Vec<u8>>)
        requires
            self.wf(),
        ensures
            opt_bytes(cwd) == self.start_dir(default_cwd),
    {
        match &self.canvases[self.active].workspace {
            Some(path) => Some(path.clone()),
            None => default_cwd,
        }
    }

    /// Adds an empty canvas and switches to it.
    pub fn add_canvas(&mut self)
        requires
            old(self).wf(),
        ensures
            final(self).wf(),
            old(self).ids_sound() ==> final(self).ids_sound(),
            final(self).canvases@ == old(self).canvases@.push(final(self).current()),
            is_untitled(final(self).current()),
            *final(self) == (RsTermApp {
                canvases: final(self).canvases,
                active: old(self).canvases@.len() as usize,
                ..*old(self)
            }),
    {
        self.canvases.push(Canvas::new("untitled".to_owned()));
        self.active = self.canvases.len() - 1;
        proof {
            ids_unmoved(*old(self), *self);
        }
    }

    /// Binds the active canvas to a folder, names it after the folder and, if
    /// it is empty, opens a terminal there.
    pub fn open_workspace(&mut self, path: &str)
        requires
            old(self).wf(),
            old(self).current().nodes@.len() == 0 ==> old(self).next_id < u64::MAX,
        ensures
            final(self).wf(),
            old(self).ids_sound() ==> final(self).ids_sound(),
            final(self).differs_in_active(*old(self)),
            ({
                let before = old(self).current();
                let after = final(self).current();
                let empty = before.nodes@.len() == 0;
                &&& after.name@ == folder_name_of(path@)
                &&& opt_bytes(after.workspace) == Some(encode_utf8(path@))
                &&& empty ==> {
                    &&& after.nodes@.len() == 1
                    &&& after.nodes@[0].id == old(self).next_id
                    &&& is_new_terminal(
                        after.nodes@[0],
                        "terminal "@ + decimal(old(self).next_id as nat),
                        point(0x4270_0000, 0x4220_0000),
                        extent(0x440c_0000, 0x43b4_0000),
                        Some(encode_utf8(path@)),
                        false,
                    )
                }
                &&& !empty ==> after.nodes == before.nodes
                &&& after == (Canvas {
                    name: after.name,
                    workspace: after.workspace,
                    nodes: after.nodes,
                    focused: if empty {
                        Some(old(self).next_id)
                    } else {
                        before.focused
                    },
                    ..before
                })
                &&& *final(self) == (RsTermApp {
                    canvases: final(self).canvases,
                    next_id: if empty {
                        (old(self).next_id + 1) as u64
                    } else {
                        old(self).next_id
                    },
                    dirty: true,
                    ..*old(self)
                })
            }),
    {
        let name = folder_name(path);
        let a = self.active;
        let c = &mut self.canvases[a];
        c.workspace = Some(bytes_of(path));
        c.name = name;
        proof {
            ids_unmoved(*old(self), *self);
        }
        let ghost bound = *self;
        if self.canvases[a].nodes.len() == 0 {
            self.add_terminal(point_of(0x4270_0000, 0x4220_0000), None);
        }
        assert forall|c: int| 0 <= c < old(self).canvases@.len() && c != a implies self.canvases@[c]
            == #[trigger] old(self).canvases@[c] by {
            assert(bound.canvases@[c] == old(self).canvases@[c]);
        }
        self.mark_dirty();
    }

    /// Closes a canvas, unless it is the last one or there is none with that
    /// number. Gives the closed canvas. The canvas that moved into its place,
    /// or else the last one, stays or becomes active.
    pub fn close_canvas(&mut self, idx: usize) -> (closed: Option<Canvas>)
        requires
            old(self).wf(),
        ensures
            final(self).wf(),
            old(self).ids_sound() ==> final(self).ids_sound(),
            old(self).canvases@.len() <= 1 || idx >= old(self).canvases@.len() ==> closed is None
                && *final(self) == *old(self),
            old(self).canvases@.len() > 1 && idx < old(self).canvases@.len() ==> {
                let left = old(self).canvases@.len() - 1;
                &&& closed == Some(old(self).canvases@[idx as int])
                &&& final(self).canvases@ == old(self).canvases@.remove(idx as int)
                &&& *final(self) == (RsTermApp {
                    canvases: final(self).canvases,
                    active: if old(self).active >= left {
                        (left - 1) as usize
                    } else {
                        old(self).active
                    },
                    ..*old(self)
                })
            },
    {
        if self.canvases.len() <= 1 || idx >= self.canvases.len() {
            return None;
        }
        let closed = self.canvases.remove(idx);
        if self.active >= self.canvases.len() {
            self.active = self.canvases.len() - 1;
        }
        proof {
            if old(self).ids_sound() {
                ids_carried(
                    *old(self),
                    *self,
                    |c: int, i: int|
                        if c < idx {
                            c
                        } else {
                            c + 1
                        },
                    |c: int, i: int| i,
                );
            }
        }
        Some(closed)
    }

    /// Closes the card with the number `id` on the active canvas, and gives
    /// it. It is not selected any more.
    pub fn close_node(&mut self, id: u64) -> (closed: Option<Node>)
        requires
            old(self).wf(),
        ensures
            final(self).wf(),
            old(self).ids_sound() ==> final(self).ids_sound(),
            final(self).differs_in_active(*old(self)),
            ({
                let before = old(self).current();
                let after = final(self).current();
                &&& match first_with_id(before.nodes@, id) {
                    Some(i) => {
                        &&& 0 <= i < before.nodes@.len()
                        &&& closed == Some(before.nodes@[i])
                        &&& after.nodes@ == before.nodes@.remove(i)
                    },
                    None => closed is None && after.nodes == before.nodes,
                }
                &&& after == (Canvas {
                    nodes: after.nodes,
                    focused: if before.focused == Some(id) {
                        None
                    } else {
                        before.focused
                    },
                    ..before
                })
                &&& *final(self) == (RsTermApp { canvases: final(self).canvases, ..*old(self) })
            }),
    {
        let a = self.active;
        let c = &mut self.canvases[a];
        let mut closed: Option<Node> = None;
        let found = position(&c.nodes, id);
        if let Some(pos) = found {
            closed = Some(c.nodes.remove(pos));
        }
        if let Some(focused) = c.focused {
            if focused == id {
                c.focused = None;
            }
        }
        proof {
            if old(self).ids_sound() {
                ids_carried(
                    *old(self),
                    *self,
                    |c: int, i: int| c,
                    |c: int, i: int|
                        match found {
                            Some(pos) => if c == a && i >= pos {
                                i + 1
                            } else {
                                i
                            },
                            None => i,
                        },
                );
            }
        }
        closed
    }

    /// Closes the selected card of the active canvas, if one is selected.
    pub fn close_focused(&mut self) -> (closed: Option<Node>)
        requires
            old(self).wf(),
        ensures
            final(self).wf(),
            old(self).ids_sound() ==> final(self).ids_sound(),
            match old(self).current().focused {
                None => closed is None && *final(self) == *old(self),
                Some(id) => {
                    let before = old(self).current();
                    let after = final(self).current();
                    &&& final(self).differs_in_active(*old(self))
                    &&& match first_with_id(before.nodes@, id) {
                        Some(i) => {
                            &&& 0 <= i < before.nodes@.len()
                            &&& closed == Some(before.nodes@[i])
                            &&& after.nodes@ == before.nodes@.remove(i)
                        },
                        None => closed is None && after.nodes == before.nodes,
                    }
                    &&& after == (Canvas { nodes: after.nodes, focused: None, ..before })
                    &&& *final(self) == (RsTermApp {
                        canvases: final(self).canvases,
                        dirty: true,
                        ..*old(self)
                    })
                },
            },
    {
        let focused = self.canvases[self.active].focused;
        match focused {
            Some(id) => {
                let closed = self.close_node(id);
                self.mark_dirty();
                closed
            },
            None => None,
        }
    }

    /// Puts the card with the number `id` on top of the active canvas.
    pub fn bring_to_front(&mut self, id: u64)
        requires
            old(self).wf(),
        ensures
            final(self).wf(),
            old(self).ids_sound() ==> final(self).ids_sound(),
            final(self).differs_in_active(*old(self)),
            ({
                let before = old(self).current();
                let after = final(self).current();
                &&& after.nodes@ == to_front(before.nodes@, id)
                &&& after == (Canvas { nodes: after.nodes, ..before })
                &&& *final(self) == (RsTermApp { canvases: final(self).canvases, ..*old(self) })
            }),
    {
        let a = self.active;
        let c = &mut self.canvases[a];
        let found = position(&c.nodes, id);
        let n: usize = c.nodes.len();
        if let Some(pos) = found {
            let node = c.nodes.remove(pos);
            c.nodes.push(node);
        }
        proof {
            if old(self).ids_sound() {
                ids_carried(
                    *old(self),
                    *self,
                    |c: int, i: int| c,
                    |c: int, i: int|
                        match found {
                            Some(pos) => if c != a || i < pos {
                                i
                            } else if i == n - 1 {
                                pos as int
                            } else {
                                i + 1
                            },
                            None => i,
                        },
                );
            }
        }
    }

    /// The terminal of a card of the active canvas, if it has one.
    pub open spec fn term_at(self, i: int) -> Option<PtyTerminal> {
        match self.current().nodes@[i].kind {
            NodeKind::Terminal(t) => t.term,
            NodeKind::Note(_) => None,
        }
    }

    /// Scrolls the terminal of a card of the active canvas.
    pub fn scroll_terminal(&mut self, i: usize, lines: isize) -> (actions: Vec<PtyAction>)
        requires
            old(self).wf(),
            i < old(self).current().nodes@.len(),
        ensures
            final(self).wf(),
            match old(self).term_at(i as int) {
                None => actions@.len() == 0 && *final(self) == *old(self),
                Some(term) => {
                    let after = final(self).term_at(i as int);
                    &&& action_views(actions@) == term.scroll_actions(lines as int)
                    &&& after is Some
                    &&& term.scrolled_by(lines as int, after->0)
                    &&& final(self).has_new_node(
                        *old(self),
                        i as int,
                        with_term(old(self).current().nodes@[i as int], after->0),
                    )
                },
            },
            old(self).ids_sound() ==> final(self).ids_sound(),
    {
        if !self.has_terminal(i) {
            return Vec::new();
        }
        let a = self.active;
        if let NodeKind::Terminal(t) = &mut self.canvases[a].nodes[i].kind {
            if let Some(term) = &mut t.term {
                let actions = term.scroll_lines(lines);
                proof {
                    ids_unmoved(*old(self), *self);
                }
                return actions;
            }
        }
        Vec::new()
    }

    /// Whether a card of the active canvas has a terminal that was started.
    pub fn has_terminal(&self, i: usize) -> (r: bool)
        requires
            self.wf(),
            i < self.current().nodes@.len(),
        ensures
            r == (self.term_at(i as int) is Some),
    {
        match &self.canvases[self.active].nodes[i].kind {
            NodeKind::Terminal(t) => t.term.is_some(),
            NodeKind::Note(_) => false,
        }
    }

    /// Hands input events to the terminal of a card of the active canvas. If
    /// they amount to any bytes, those are sent and nothing is selected any
    /// more.
    pub fn send_input(&mut self, i: usize, events: &Vec<InputEvent>) -> (actions: Vec<PtyAction>)
        requires
            old(self).wf(),
            i < old(self).current().nodes@.len(),
        ensures
            final(self).wf(),
            old(self).ids_sound() ==> final(self).ids_sound(),
            old(self).term_at(i as int) is None || input_of(events@).len() == 0 ==> actions@.len()
                == 0 && *final(self) == *old(self),
            old(self).term_at(i as int) is Some && input_of(events@).len() > 0 ==> {
                let term = old(self).term_at(i as int)->0;
                let after = final(self).term_at(i as int);
                &&& action_views(actions@) == term.send_actions(input_of(events@))
                &&& after is Some
                &&& term.back_to_live(after->0)
                &&& !after->0.scrolled()
                &&& final(self).has_new_node(
                    *old(self),
                    i as int,
                    without_selection(
                        with_term(old(self).current().nodes@[i as int], after->0),
                    ),
                )
            },
    {
        let out = input_bytes(events);
        if out.len() == 0 || !self.has_terminal(i) {
            return Vec::new();
        }
        let a = self.active;
        if let NodeKind::Terminal(t) = &mut self.canvases[a].nodes[i].kind {
            t.selection = None;
            if let Some(term) = &mut t.term {
                let actions = term.send(out.as_slice());
                proof {
                    ids_unmoved(*old(self), *self);
                }
                return actions;
            }
        }
        Vec::new()
    }

    /// The terminal to start for a card of the active canvas that is shown for
    /// the first time, and the program to start in it. A card for a coding
    /// agent always starts the agent, whose command is `agent`.
    pub fn terminal_launch(
        &self,
        i: usize,
        rows: u16,
        cols: u16,
        agent: &str,
        shell: Option<&str>,
        home: Option<&str>,
        tmux: Option<&TmuxEnv>,
    ) -> (started: Option<(PtyTerminal, Launch)>)
        requires
            self.wf(),
            i < self.current().nodes@.len(),
        ensures
            ({
                let node = self.current().nodes@[i as int];
                match started {
                    None => node.kind is Note || self.term_at(i as int) is Some,
                    Some((term, launch)) => {
                        let holder = node.kind->Terminal_0;
                        &&& node.kind is Terminal
                        &&& holder.term is None
                        &&& term.wf()
                        &&& term.is_new(
                            at_least_one(rows),
                            at_least_one(cols),
                            node.id,
                            match tmux { Some(t) => Some(*t), None => None },
                        )
                        &&& launch@ == launch_of(
                            at_least_one(rows),
                            at_least_one(cols),
                            opt_bytes(holder.cwd),
                            node.id,
                            if holder.agent {
                                Some(agent@)
                            } else {
                                None
                            },
                            match shell { Some(shell) => Some(shell@), None => None },
                            match home { Some(home) => Some(home@), None => None },
                            match tmux { Some(t) => Some(*t), None => None },
                        )
                    },
                }
            }),
    {
        let node = &self.canvases[self.active].nodes[i];
        match &node.kind {
            NodeKind::Terminal(t) => {
                if t.term.is_some() {
                    return None;
                }
                let startup = if t.agent {
                    Some(agent)
                } else {
                    None
                };
                let cwd = t.cwd.as_ref();
                Some(PtyTerminal::spawn(rows, cols, cwd, node.id, startup, shell, home, tmux))
            },
            NodeKind::Note(_) => None,
        }
    }

    /// Gives a card of the active canvas its terminal.
    pub fn attach_terminal(&mut self, i: usize, term: PtyTerminal)
        requires
            old(self).wf(),
            i < old(self).current().nodes@.len(),
            old(self).current().nodes@[i as int].kind is Terminal,
            term.wf(),
            term.session@ == session_text(old(self).current().nodes@[i as int].id),
        ensures
            final(self).wf(),
            old(self).ids_sound() ==> final(self).ids_sound(),
            final(self).has_new_node(
                *old(self),
                i as int,
                with_term(old(self).current().nodes@[i as int], term),
            ),
    {
        let a = self.active;
        if let NodeKind::Terminal(t) = &mut self.canvases[a].nodes[i].kind {
            t.term = Some(term);
        }
        proof {
            ids_unmoved(*old(self), *self);
        }
    }
}

/// The tmux command that ends the session of a card, as a list of none or one:
/// a terminal that was started has a session if it runs in tmux, and one that
/// was not shown yet may have one from an earlier run.
pub open spec fn end_of(node: Node, tmux: Option<TmuxEnv>) -> Seq<Seq<Seq<char>>> {
    let end = |socket: Seq<char>|
        seq![seq!["-L"@, socket, "kill-session"@, "-t"@, session_text(node.id)]];
    match node.kind {
        NodeKind::Terminal(t) => match (t.term, tmux) {
            (Some(term), _) => if term.tmux_backed {
                end(term.socket@)
            } else {
                Seq::empty()
            },
            (None, Some(tmux)) => end(tmux.socket@),
            (None, None) => Seq::empty(),
        },
        NodeKind::Note(_) => Seq::empty(),
    }
}

/// The tmux commands that end the sessions of all cards, in their order.
pub open spec fn ends_of(nodes: Seq<Node>, tmux: Option<TmuxEnv>) -> Seq<Seq<Seq<char>>>
    decreases nodes.len(),
{
    if nodes.len() == 0 {
        Seq::empty()
    } else {
        ends_of(nodes.drop_last(), tmux) + end_of(nodes.last(), tmux)
    }
}

/// The views of lists of arguments.
pub open spec fn command_views(commands: Seq<Vec<String>>) -> Seq<Seq<Seq<char>>> {
    commands.map_values(|args: Vec<String>| texts(args@))
}

/// The tmux command that ends the session of a card, if it has one.
pub fn session_end(node: &Node, tmux: Option<&TmuxEnv>) -> (args: Option<Vec<String>>)
    requires
        node.wf(),
    ensures
        (match args {
            Some(args) => seq![texts(args@)],
            None => Seq::empty(),
        }) == end_of(*node, match tmux { Some(t) => Some(*t), None => None }),
{
    match &node.kind {
        NodeKind::Terminal(t) => match &t.term {
            Some(term) => {
                let args = term.kill_session();
                proof {
                    if args is Some {
                        assert(texts(args->0@) =~= seq![
                            "-L"@,
                            term.socket@,
                            "kill-session"@,
                            "-t"@,
                            session_text(node.id),
                        ]);
                    }
                }
                args
            },
            None => match tmux {
                Some(tmux) => {
                    let mut args: Vec<String> = Vec::new();
                    args.push("-L".to_owned());
                    args.push(tmux.socket.clone());
                    args.push("kill-session".to_owned());
                    args.push("-t".to_owned());
                    args.push(session_name(node.id));
                    assert(texts(args@) =~= seq![
                        "-L"@,
                        tmux.socket@,
                        "kill-session"@,
                        "-t"@,
                        session_text(node.id),
                    ]);
                    Some(args)
                },
                None => None,
            },
        },
        NodeKind::Note(_) => None,
    }
}

/// The tmux commands that end the sessions of a canvas that is closed.
pub fn session_ends(canvas: &Canvas, tmux: Option<&TmuxEnv>) -> (commands: Vec<Vec<String>>)
    requires
        canvas.wf(),
    ensures
        command_views(commands@) == ends_of(
            canvas.nodes@,
            match tmux { Some(t) => Some(*t), None => None },
        ),
{
    let ghost env = match tmux { Some(t) => Some(*t), None => None };
    let mut commands: Vec<Vec<String>> = Vec::new();
    let mut i: usize = 0;
    assert(command_views(commands@) =~= ends_of(canvas.nodes@.take(0), env));
    while i < canvas.nodes.len()
        invariant
            canvas.wf(),
            i <= canvas.nodes@.len(),
            env == (match tmux { Some(t) => Some(*t), None => None }),
            command_views(commands@) == ends_of(canvas.nodes@.take(i as int), env),
        decreases canvas.nodes.len() - i,
    {
        let ghost before = commands@;
        assert(canvas.nodes@.take(i + 1).drop_last() =~= canvas.nodes@.take(i as int));
        if let Some(args) = session_end(&canvas.nodes[i], tmux) {
            commands.push(args);
            assert(command_views(commands@) =~= command_views(before) + seq![texts(args@)]);
        } else {
            assert(command_views(commands@) =~= command_views(before) + Seq::empty());
        }
        i += 1;
    }
    assert(canvas.nodes@.take(canvas.nodes@.len() as int) =~= canvas.nodes@);
    commands
}

/// Closing a canvas ends the session of each of its terminals, shown yet or
/// not.
pub proof fn every_session_is_ended(nodes: Seq<Node>, tmux: TmuxEnv, i: int)
    requires
        0 <= i < nodes.len(),
        nodes[i].kind matches NodeKind::Terminal(t) && (t.term matches Some(term)
            ==> term.tmux_backed && term.socket@ == tmux.socket@),
    ensures
        ends_of(nodes, Some(tmux)).contains(
            seq!["-L"@, tmux.socket@, "kill-session"@, "-t"@, session_text(nodes[i].id)],
        ),
    decreases nodes.len(),
{
    let all = ends_of(nodes, Some(tmux));
    let front = ends_of(nodes.drop_last(), Some(tmux));
    let command = seq!["-L"@, tmux.socket@, "kill-session"@, "-t"@, session_text(nodes[i].id)];
    if i == nodes.len() - 1 {
        assert(all[front.len() as int] == command);
    } else {
        every_session_is_ended(nodes.drop_last(), tmux, i);
        let k = choose|k: int| 0 <= k < front.len() && front[k] == command;
        assert(all[k] == command);
    }
}

/// A card that is added gets a session that no other card has.
pub proof fn new_session_is_fresh(app: RsTermApp, c: int, i: int)
    requires
        app.ids_sound(),
        app.has(c, i),
    ensures
        session_text(app.id_at(c, i)) != session_text(app.next_id),
{
    sessions_differ(app.id_at(c, i), app.next_id);
}

/// A terminal card with another terminal.
pub open spec fn with_term(node: Node, term: PtyTerminal) -> Node {
    let holder = TerminalNode { term: Some(term), ..node.kind->Terminal_0 };
    Node { kind: NodeKind::Terminal(holder), ..node }
}

/// A terminal card with nothing selected.
pub open spec fn without_selection(node: Node) -> Node {
    let holder = TerminalNode { selection: None, ..node.kind->Terminal_0 };
    Node { kind: NodeKind::Terminal(holder), ..node }
}

/// The cards with the first of number `id` put on top.
pub open spec fn to_front(nodes: Seq<Node>, id: u64) -> Seq<Node> {
    match first_with_id(nodes, id) {
        Some(i) => nodes.remove(i).push(nodes[i]),
        None => nodes,
    }
}

/// Putting a card on top loses no card and adds none, and the card lies on
/// top then.
pub proof fn to_front_reorders(nodes: Seq<Node>, id: u64)
    ensures
        to_front(nodes, id).to_multiset() == nodes.to_multiset(),
        first_with_id(nodes, id) is Some ==> to_front(nodes, id).last().id == id,
{
    first_is_there(nodes, id);
    match first_with_id(nodes, id) {
        Some(i) => {
            broadcast use vstd::seq_lib::group_to_multiset_ensures;

            vstd::seq_lib::to_multiset_remove(nodes, i);
            assert(to_front(nodes, id).to_multiset() =~= nodes.to_multiset());
        },
        None => {},
    }
}

/// A card that is found is there, and has the number.
proof fn first_is_there(nodes: Seq<Node>, id: u64)
    ensures
        match first_with_id(nodes, id) {
            Some(i) => 0 <= i < nodes.len() && nodes[i].id == id,
            None => true,
        },
    decreases nodes.len(),
{
    if nodes.len() > 0 {
        first_is_there(nodes.drop_last(), id);
    }
}

/// A card that was just made.
pub open spec fn is_new_card(node: Node, title: Seq<char>, pos: Point, size: Extent) -> bool {
    &&& node.title@ == title
    &&& node.label is None
    &&& node.pos == pos
    &&& node.size == size
    &&& node.glow_start is None
    &&& node.restore is None
}

/// A terminal that was just made, and not shown yet.
pub open spec fn is_new_terminal(
    node: Node,
    title: Seq<char>,
    pos: Point,
    size: Extent,
    cwd: Option<Seq<u8>>,
    agent: bool,
) -> bool {
    &&& is_new_card(node, title, pos, size)
    &&& node.kind is Terminal
    &&& opt_bytes(node.kind->Terminal_0.cwd) == cwd
    &&& node.kind->Terminal_0.agent == agent
    &&& node.kind->Terminal_0.term is None
    &&& node.kind->Terminal_0.selection is None
}

/// An empty canvas that is bound to no folder.
pub open spec fn is_untitled(canvas: Canvas) -> bool {
    &&& canvas.name@ == "untitled"@
    &&& canvas.workspace is None
    &&& canvas.nodes@.len() == 0
    &&& canvas.offset == extent(0x42a0_0000, 0x42a0_0000)
    &&& canvas.zoom == Scalar { bits: 0x3f80_0000 }
    &&& canvas.focused is None
    &&& canvas.moving is None
    &&& canvas.resizing is None
    &&& canvas.menu_world == point(0, 0)
}

/// Cards that are where other cards with their numbers were, each where another
/// one was, have sound numbers if those had.
proof fn ids_carried(
    before: RsTermApp,
    after: RsTermApp,
    from_canvas: spec_fn(int, int) -> int,
    from_index: spec_fn(int, int) -> int,
)
    requires
        before.ids_sound(),
        after.next_id >= before.next_id,
        forall|c: int, i: int|
            after.has(c, i) ==> before.has(from_canvas(c, i), from_index(c, i))
                && #[trigger] after.id_at(c, i) == before.id_at(
                from_canvas(c, i),
                from_index(c, i),
            ),
        forall|c: int, i: int, d: int, j: int|
            after.has(c, i) && after.has(d, j) && from_canvas(c, i) == from_canvas(d, j)
                && from_index(c, i) == from_index(d, j) && #[trigger] after.id_at(c, i)
                == #[trigger] after.id_at(d, j) ==> c == d && i == j,
    ensures
        after.ids_sound(),
{
}

/// Cards that are where they were, with the numbers that they had, have sound
/// numbers if they had.
pub(crate) proof fn ids_unmoved(before: RsTermApp, after: RsTermApp)
    requires
        after.next_id >= before.next_id,
        forall|c: int, i: int|
            after.has(c, i) ==> before.has(c, i) && #[trigger] after.id_at(c, i) == before.id_at(
                c,
                i,
            ),
    ensures
        before.ids_sound() ==> after.ids_sound(),
{
}

/// The card that is found by a number is there, has the number, and is the first
/// that has it. None is found only if none has it.
pub proof fn the_first_card_is_found(nodes: Seq<Node>, id: u64)
    ensures
        match first_with_id(nodes, id) {
            Some(i) => {
                &&& 0 <= i < nodes.len()
                &&& nodes[i].id == id
                &&& forall|j: int| 0 <= j < i ==> (#[trigger] nodes[j]).id != id
            },
            None => forall|j: int| 0 <= j < nodes.len() ==> (#[trigger] nodes[j]).id != id,
        },
    decreases nodes.len(),
{
    if nodes.len() > 0 {
        let front = nodes.drop_last();
        the_first_card_is_found(front, id);
        match first_with_id(front, id) {
            Some(i) => {
                assert forall|j: int| 0 <= j < i implies (#[trigger] nodes[j]).id != id by {
                    assert(front[j] == nodes[j]);
                }
            },
            None => {
                assert forall|j: int| 0 <= j < front.len() implies (#[trigger] nodes[j]).id
                    != id by {
                    assert(front[j] == nodes[j]);
                }
            },
        }
    }
}

/// Putting a card on top leaves the others in their order.
pub proof fn raising_keeps_the_order(nodes: Seq<Node>, id: u64, at: int)
    requires
        0 <= at < nodes.len(),
        nodes[at].id == id,
        forall|j: int| 0 <= j < at ==> (#[trigger] nodes[j]).id != id,
    ensures
        ({
            let raised = to_front(nodes, id);
            &&& raised.len() == nodes.len()
            &&& raised.last() == nodes[at]
            &&& forall|j: int| 0 <= j < at ==> #[trigger] raised[j] == nodes[j]
            &&& forall|j: int| at <= j < nodes.len() - 1 ==> #[trigger] raised[j] == nodes[j + 1]
        }),
{
    the_first_card_is_found(nodes, id);
    match first_with_id(nodes, id) {
        Some(i) => {
            assert(i == at) by {
                if i < at {
                    assert(nodes[i].id != id);
                }
            }
        },
        None => {
            assert(nodes[at].id != id);
        },
    }
}

/// Putting a card on top that is not there changes nothing.
pub proof fn raising_nothing_changes_nothing(nodes: Seq<Node>, id: u64)
    requires
        forall|j: int| 0 <= j < nodes.len() ==> (#[trigger] nodes[j]).id != id,
    ensures
        to_front(nodes, id) == nodes,
{
    the_first_card_is_found(nodes, id);
}

/// Adding a card leaves all others where they are: on the active canvas they
/// stay below the new one, which is selected, and the other canvases stay as
/// they are. The counter goes on by one, and the layout is to be written.
pub proof fn adding_leaves_the_rest(before: RsTermApp, after: RsTermApp, node: Node)
    requires
        before.wf(),
        before.next_id < u64::MAX,
        after.adds(before, node),
    ensures
        ({
            let old_nodes = before.current().nodes@;
            let nodes = after.current().nodes@;
            &&& after.active == before.active
            &&& nodes.len() == old_nodes.len() + 1
            &&& nodes.last() == node
            &&& forall|i: int| 0 <= i < old_nodes.len() ==> #[trigger] nodes[i] == old_nodes[i]
            &&& node.id == before.next_id
            &&& after.next_id == before.next_id + 1
            &&& after.current().focused == Some(node.id)
            &&& after.current().offset == before.current().offset
            &&& after.current().zoom == before.current().zoom
            &&& after.current().name == before.current().name
            &&& after.current().workspace == before.current().workspace
            &&& after.dirty
        }),
        after.canvases@.len() == before.canvases@.len(),
        forall|c: int|
            0 <= c < before.canvases@.len() && c != before.active ==> #[trigger] after.canvases@[c]
                == before.canvases@[c],
{
    assert forall|c: int|
        0 <= c < before.canvases@.len() && c != before.active implies #[trigger] after.canvases@[c]
        == before.canvases@[c] by {
        assert(after.canvases@[c] == before.canvases@[c]);
    }
}

/// A card that was made is as it was asked for.
pub proof fn new_cards_are_as_asked(
    node: Node,
    title: Seq<char>,
    pos: Point,
    size: Extent,
    cwd: Option<Seq<u8>>,
    agent: bool,
)
    requires
        is_new_terminal(node, title, pos, size, cwd, agent),
    ensures
        is_new_card(node, title, pos, size),
        node.title@ == title && node.pos == pos && node.size == size,
        node.label is None && node.glow_start is None && node.restore is None,
        node.kind matches NodeKind::Terminal(t) && t.agent == agent && t.term is None
            && t.selection is None,
        cwd matches Some(dir) ==> node.kind->Terminal_0.cwd matches Some(d) && d@ == dir,
        cwd is None ==> node.kind->Terminal_0.cwd is None,
{
}

/// A new terminal opens in the folder of its canvas, if it has one, and where
/// it was asked for otherwise.
pub proof fn terminals_open_in_the_folder(app: RsTermApp, default_cwd: Option<Vec<u8>>)
    ensures
        app.current().workspace matches Some(folder) ==> app.start_dir(default_cwd) == Some(
            folder@,
        ),
        app.current().workspace is None ==> (default_cwd matches Some(dir) ==> app.start_dir(
            default_cwd,
        ) == Some(dir@)),
        app.current().workspace is None && default_cwd is None ==> app.start_dir(
            default_cwd,
        ) is None,
{
}

/// Changing one card leaves every other card and every other canvas as it is.
pub proof fn changing_one_card_leaves_the_rest(
    before: RsTermApp,
    after: RsTermApp,
    i: int,
    node: Node,
)
    requires
        before.wf(),
        0 <= i < before.current().nodes@.len(),
        after.has_new_node(before, i, node),
    ensures
        after.active == before.active,
        after.next_id == before.next_id,
        after.dirty == before.dirty,
        after.current().nodes@.len() == before.current().nodes@.len(),
        after.current().nodes@[i] == node,
        after.current().focused == before.current().focused,
        forall|j: int|
            0 <= j < before.current().nodes@.len() && j != i ==> #[trigger] after.current().nodes@[j]
                == before.current().nodes@[j],
        forall|c: int|
            0 <= c < before.canvases@.len() && c != before.active ==> #[trigger] after.canvases@[c]
                == before.canvases@[c],
{
    assert forall|c: int|
        0 <= c < before.canvases@.len() && c != before.active implies #[trigger] after.canvases@[c]
        == before.canvases@[c] by {
        assert(after.canvases@[c] == before.canvases@[c]);
    }
}

/// A card that gets another terminal, or loses its selection, stays as it is
/// otherwise.
pub proof fn cards_keep_the_rest(node: Node, term: PtyTerminal)
    requires
        node.kind is Terminal,
    ensures
        ({
            let with = with_term(node, term);
            let t = node.kind->Terminal_0;
            &&& with.kind == NodeKind::Terminal(TerminalNode { term: Some(term), ..t })
            &&& (with.id, with.pos, with.size) == (node.id, node.pos, node.size)
            &&& (with.title, with.label) == (node.title, node.label)
            &&& (with.glow_start, with.restore) == (node.glow_start, node.restore)
        }),
        ({
            let without = without_selection(node);
            let t = node.kind->Terminal_0;
            &&& without.kind == NodeKind::Terminal(TerminalNode { selection: None, ..t })
            &&& (without.id, without.pos, without.size) == (node.id, node.pos, node.size)
            &&& (without.title, without.label) == (node.title, node.label)
            &&& (without.glow_start, without.restore) == (node.glow_start, node.restore)
        }),
{
}

/// Closing a canvas ends no session but those of its own terminals.
pub proof fn only_own_sessions_are_ended(nodes: Seq<Node>, tmux: Option<TmuxEnv>, k: int)
    requires
        0 <= k < ends_of(nodes, tmux).len(),
    ensures
        exists|i: int|
            {
                &&& 0 <= i < nodes.len()
                &&& (#[trigger] nodes[i]).kind is Terminal
                &&& ends_of(nodes, tmux)[k].skip(2) == seq![
                    "kill-session"@,
                    "-t"@,
                    "rsterm_"@ + decimal(nodes[i].id as nat),
                ]
            },
        ends_of(nodes, tmux).len() <= nodes.len(),
    decreases nodes.len(),
{
    let all = ends_of(nodes, tmux);
    let front = ends_of(nodes.drop_last(), tmux);
    if front.len() > 0 {
        only_own_sessions_are_ended(
            nodes.drop_last(),
            tmux,
            if k < front.len() {
                k
            } else {
                0
            },
        );
    }
    if k < front.len() {
        let i = choose|i: int|
            {
                &&& 0 <= i < nodes.drop_last().len()
                &&& (#[trigger] nodes.drop_last()[i]).kind is Terminal
                &&& front[k].skip(2) == seq![
                    "kill-session"@,
                    "-t"@,
                    "rsterm_"@ + decimal(nodes.drop_last()[i].id as nat),
                ]
            };
        assert(nodes[i] == nodes.drop_last()[i]);
        assert(all[k] == front[k]);
    } else {
        let last = nodes[nodes.len() - 1];
        assert(all[k] == end_of(last, tmux)[0]);
        assert(end_of(last, tmux)[0].skip(2) =~= seq![
            "kill-session"@,
            "-t"@,
            "rsterm_"@ + decimal(last.id as nat),
        ]);
    }
}

/// A new canvas is called untitled, is empty and bound to no folder, and stands
/// a little off the corner at its natural size.
pub proof fn untitled_canvases_are_empty(canvas: Canvas)
    requires
        is_untitled(canvas),
    ensures
        canvas.name@ == "untitled"@,
        canvas.workspace is None,
        canvas.nodes@.len() == 0,
        canvas.zoom.bits == 0x3f80_0000,
        canvas.offset.x.bits == 0x42a0_0000 && canvas.offset.y.bits == 0x42a0_0000,
        canvas.focused is None && canvas.moving is None && canvas.resizing is None,
{
}

} // verus!
