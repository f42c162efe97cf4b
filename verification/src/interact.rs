//! What the user does with the mouse and the keyboard, and what comes of it.
//!
//! The rectangles that cards have on the screen are handed in, in the order of
//! the cards.
use crate::app::{
    first_with_id, ids_unmoved, is_untitled, to_front, with_term, without_selection, Canvas,
    RsTermApp,
};
use crate::geometry::{Area, Extent, Point, Scalar};
use crate::layout::{clamp_zoom, zoom_in_range, zoom_max, zoom_min};
use crate::node::{Node, NodeKind, NoteNode};
use crate::terminal::PtyTerminal;
use vstd::prelude::*;

verus! {

/// What scrolling over a canvas does.
#[derive(Clone, Copy, Debug, PartialEq, Eq, Structural)]
pub enum ScrollTarget {
    /// It zooms toward the pointer.
    Zoom,
    /// It moves the canvas.
    Pan,
    /// It scrolls the terminal of this card.
    Terminal(usize),
}

/// Plain scrolling zooms. With the option key held it scrolls the terminal
/// under the pointer or, where there is none, moves the canvas.
pub fn scroll_target(alt: bool, over_terminal: Option<usize>) -> (target: ScrollTarget)
    ensures
        target == if !alt {
            ScrollTarget::Zoom
        } else {
            match over_terminal {
                Some(i) => ScrollTarget::Terminal(i),
                None => ScrollTarget::Pan,
            }
        },
{
    if !alt {
        return ScrollTarget::Zoom;
    }
    match over_terminal {
        Some(i) => ScrollTarget::Terminal(i),
        None => ScrollTarget::Pan,
    }
}

/// Where the pointer counts as being: while the button is held, where it was
/// pressed, so that a card stays grabbed when the pointer leaves it.
pub fn hit_pos(button_down: bool, press_origin: Option<Point>, pointer: Option<Point>) -> (at:
    Option<Point>)
    ensures
        at == if button_down && press_origin is Some {
            press_origin
        } else {
            pointer
        },
{
    if button_down && press_origin.is_some() {
        press_origin
    } else {
        pointer
    }
}

/// What happened to a card that is under the pointer, or grabbed.
pub struct CardEvents {
    /// The title bar was grabbed, is let go, was clicked.
    pub move_started: bool,
    pub move_stopped: bool,
    pub title_clicked: bool,
    /// Where the card would be now if it is being moved.
    pub moved_to: Point,
    /// The corner was grabbed, is let go.
    pub resize_started: bool,
    pub resize_stopped: bool,
    /// The size that the card would have now if it is being resized.
    pub resized_to: Extent,
    /// The body was clicked.
    pub body_clicked: bool,
}

impl CardEvents {
    /// The card is selected and goes on top.
    pub open spec fn raises(self) -> bool {
        self.move_started || self.title_clicked || self.resize_started || self.body_clicked
    }
}

/// A size that is not below the least one of a card, 200 by 140.
pub open spec fn card_size(size: Extent) -> Extent {
    Extent {
        x: size.x.at_least_spec(Scalar { bits: 0x4348_0000 }),
        y: size.y.at_least_spec(Scalar { bits: 0x430c_0000 }),
    }
}

/// No card gets smaller than 200 by 140 by being resized.
pub proof fn card_size_is_least(size: Extent)
    ensures
        (Scalar { bits: 0x4348_0000 }).le_spec(card_size(size).x),
        (Scalar { bits: 0x430c_0000 }).le_spec(card_size(size).y),
        card_size(card_size(size)) == card_size(size),
{
}

/// The card after what happened to it.
pub open spec fn card_after(canvas: Canvas, i: int, events: CardEvents) -> Node {
    let node = canvas.nodes@[i];
    let clicked = if events.body_clicked && node.kind is Terminal {
        without_selection(node)
    } else {
        node
    };
    Node {
        pos: if events.move_started || canvas.moving == Some(node.id) {
            events.moved_to
        } else {
            node.pos
        },
        size: if events.resize_started || canvas.resizing == Some(node.id) {
            card_size(events.resized_to)
        } else {
            node.size
        },
        ..clicked
    }
}

/// The canvas, but for its cards, after what happened to one of them.
pub open spec fn canvas_after(canvas: Canvas, i: int, events: CardEvents, nodes: Vec<Node>) -> Canvas {
    let id = canvas.nodes@[i].id;
    Canvas {
        nodes,
        focused: if events.raises() {
            Some(id)
        } else {
            canvas.focused
        },
        moving: if events.move_stopped {
            None
        } else if events.move_started {
            Some(id)
        } else {
            canvas.moving
        },
        resizing: if events.resize_stopped {
            None
        } else if events.resize_started {
            Some(id)
        } else {
            canvas.resizing
        },
        ..canvas
    }
}

fn is_id(held: Option<u64>, id: u64) -> (r: bool)
    ensures
        r == (held == Some(id)),
{
    match held {
        Some(other) => other == id,
        None => false,
    }
}

impl RsTermApp {
    /// A terminal of the active canvas lies under a place.
    pub open spec fn terminal_under(self, areas: Seq<Area>, at: Point, i: int) -> bool {
        self.current().nodes@[i].kind is Terminal && areas[i].covers(at)
    }

    /// The topmost terminal of the active canvas under a place.
    pub fn terminal_index_at(&self, areas: &Vec<Area>, at: Point) -> (found: Option<usize>)
        requires
            self.wf(),
            areas@.len() == self.current().nodes@.len(),
        ensures
            match found {
                Some(i) => {
                    &&& i < areas@.len()
                    &&& self.terminal_under(areas@, at, i as int)
                    &&& forall|j: int|
                        i < j < areas@.len() ==> !#[trigger] self.terminal_under(areas@, at, j)
                },
                None => forall|j: int|
                    0 <= j < areas@.len() ==> !#[trigger] self.terminal_under(areas@, at, j),
            },
    {
        let c = &self.canvases[self.active];
        let mut i: usize = c.nodes.len();
        while i > 0
            invariant
                self.wf(),
                *c == self.current(),
                areas@.len() == c.nodes@.len(),
                i <= areas@.len(),
                forall|j: int|
                    i <= j < areas@.len() ==> !#[trigger] self.terminal_under(areas@, at, j),
            decreases i,
        {
            i -= 1;
            if c.nodes[i].is_terminal() && areas[i].contains(at) {
                return Some(i);
            }
        }
        None
    }

    /// The number of the topmost card of the active canvas under a place.
    pub fn topmost_at(&self, areas: &Vec<Area>, at: Option<Point>) -> (found: Option<u64>)
        requires
            self.wf(),
            areas@.len() == self.current().nodes@.len(),
        ensures
            at is None ==> found is None,
            at matches Some(at) ==> match found {
                Some(id) => exists|i: int|
                    {
                        &&& 0 <= i < areas@.len()
                        &&& (#[trigger] areas@[i]).covers(at)
                        &&& id == self.current().nodes@[i].id
                        &&& forall|j: int|
                            i < j < areas@.len() ==> !(#[trigger] areas@[j]).covers(at)
                    },
                None => forall|j: int| 0 <= j < areas@.len() ==> !(#[trigger] areas@[j]).covers(at),
            },
    {
        match at {
            None => None,
            Some(place) => {
                let c = &self.canvases[self.active];
                let mut i: usize = c.nodes.len();
                while i > 0
                    invariant
                        self.wf(),
                        at == Some(place),
                        *c == self.current(),
                        areas@.len() == c.nodes@.len(),
                        i <= areas@.len(),
                        forall|j: int|
                            i <= j < areas@.len() ==> !(#[trigger] areas@[j]).covers(place),
                    decreases i,
                {
                    i -= 1;
                    if areas[i].contains(place) {
                        return Some(c.nodes[i].id);
                    }
                }
                None
            },
        }
    }

    /// The card that mouse events go to: the one that is being moved, else the
    /// one that is being resized, else the topmost one under the pointer.
    pub fn active_node(&self, topmost: Option<u64>) -> (id: Option<u64>)
        requires
            self.wf(),
        ensures
            id == if self.current().moving is Some {
                self.current().moving
            } else if self.current().resizing is Some {
                self.current().resizing
            } else {
                topmost
            },
    {
        let c = &self.canvases[self.active];
        if c.moving.is_some() {
            c.moving
        } else if c.resizing.is_some() {
            c.resizing
        } else {
            topmost
        }
    }

    /// Takes in what happened to a card of the active canvas. Tells whether it
    /// is to go on top.
    pub fn card_events(&mut self, i: usize, events: CardEvents) -> (front: bool)
        requires
            old(self).wf(),
            i < old(self).current().nodes@.len(),
        ensures
            final(self).wf(),
            old(self).ids_sound() ==> final(self).ids_sound(),
            front == events.raises(),
            final(self).differs_in_active(*old(self)),
            final(self).current().nodes@ == old(self).current().nodes@.update(
                i as int,
                card_after(old(self).current(), i as int, events),
            ),
            final(self).current() == canvas_after(
                old(self).current(),
                i as int,
                events,
                final(self).current().nodes,
            ),
            *final(self) == (RsTermApp {
                canvases: final(self).canvases,
                dirty: old(self).dirty || events.move_stopped || events.resize_stopped,
                ..*old(self)
            }),
    {
        let a = self.active;
        let front = events.move_started || events.title_clicked || events.resize_started
            || events.body_clicked;
        let c = &mut self.canvases[a];
        let id = c.nodes[i].id;
        if front {
            c.focused = Some(id);
        }
        if events.move_started {
            c.moving = Some(id);
        }
        if is_id(c.moving, id) {
            c.nodes[i].pos = events.moved_to;
        }
        if events.move_stopped {
            c.moving = None;
        }
        if events.resize_started {
            c.resizing = Some(id);
        }
        if is_id(c.resizing, id) {
            c.nodes[i].size = Extent {
                x: events.resized_to.x.at_least(Scalar { bits: 0x4348_0000 }),
                y: events.resized_to.y.at_least(Scalar { bits: 0x430c_0000 }),
            };
        }
        if events.resize_stopped {
            c.resizing = None;
        }
        if events.body_clicked {
            if let NodeKind::Terminal(t) = &mut c.nodes[i].kind {
                t.selection = None;
            }
        }
        if events.move_stopped || events.resize_stopped {
            self.dirty = true;
        }
        proof {
            ids_unmoved(*old(self), *self);
        }
        front
    }

    /// Stores the automatic title of a card of the active canvas in it.
    pub fn sync_title(&mut self, i: usize)
        requires
            old(self).wf(),
            i < old(self).current().nodes@.len(),
        ensures
            final(self).wf(),
            old(self).ids_sound() ==> final(self).ids_sound(),
            ({
                let node = old(self).current().nodes@[i as int];
                let title = final(self).current().nodes@[i as int].title;
                &&& title@ == node.live_title()
                &&& final(self).has_new_node(*old(self), i as int, Node { title, ..node })
            }),
    {
        let a = self.active;
        let title = self.canvases[a].nodes[i].display_title();
        self.canvases[a].nodes[i].title = title;
        proof {
            ids_unmoved(*old(self), *self);
        }
    }

    /// After all cards were shown: puts a card on top, and closes one. Gives
    /// the closed card.
    pub fn finish_cards(&mut self, front: Option<u64>, close: Option<u64>) -> (closed: Option<Node>)
        requires
            old(self).wf(),
        ensures
            final(self).wf(),
            old(self).ids_sound() ==> final(self).ids_sound(),
            final(self).differs_in_active(*old(self)),
            ({
                let before = old(self).current();
                let after = final(self).current();
                let raised = match front {
                    Some(id) => to_front(before.nodes@, id),
                    None => before.nodes@,
                };
                &&& match close {
                    Some(id) => match first_with_id(raised, id) {
                        Some(i) => {
                            &&& 0 <= i < raised.len()
                            &&& closed == Some(raised[i])
                            &&& after.nodes@ == raised.remove(i)
                        },
                        None => closed is None && after.nodes@ == raised,
                    },
                    None => closed is None && after.nodes@ == raised,
                }
                &&& after == (Canvas {
                    nodes: after.nodes,
                    focused: if close is Some && before.focused == close {
                        None
                    } else {
                        before.focused
                    },
                    ..before
                })
                &&& *final(self) == (RsTermApp {
                    canvases: final(self).canvases,
                    dirty: old(self).dirty || close is Some,
                    ..*old(self)
                })
            }),
    {
        if let Some(id) = front {
            self.bring_to_front(id);
        }
        let ghost raised = *self;
        let closed = match close {
            Some(id) => {
                let closed = self.close_node(id);
                self.mark_dirty();
                closed
            },
            None => None,
        };
        assert forall|c: int|
            0 <= c < old(self).canvases@.len() && c != old(self).active implies self.canvases@[c]
            == #[trigger] old(self).canvases@[c] by {
            assert(raised.canvases@[c] == old(self).canvases@[c]);
        }
        closed
    }

    /// Takes in what happened to the text of a note of the active canvas: its
    /// new text if it was edited, whether it has the keyboard and whether it
    /// has lost it just now. A card that is no note stays as it is.
    pub fn note_events(
        &mut self,
        i: usize,
        new_text: Option<String>,
        has_focus: bool,
        lost_focus: bool,
    )
        requires
            old(self).wf(),
            i < old(self).current().nodes@.len(),
        ensures
            final(self).wf(),
            old(self).ids_sound() ==> final(self).ids_sound(),
            final(self).differs_in_active(*old(self)),
            old(self).current().nodes@[i as int].kind is Terminal ==> *final(self) == *old(self),
            old(self).current().nodes@[i as int].kind is Note ==> {
                let before = old(self).current();
                let after = final(self).current();
                let node = before.nodes@[i as int];
                let edited = match new_text {
                    Some(text) => Node {
                        kind: NodeKind::Note(NoteNode { text }),
                        ..node
                    },
                    None => node,
                };
                &&& after.nodes@ == before.nodes@.update(i as int, edited)
                &&& after == (Canvas {
                    nodes: after.nodes,
                    focused: if has_focus {
                        Some(node.id)
                    } else {
                        before.focused
                    },
                    ..before
                })
                &&& *final(self) == (RsTermApp {
                    canvases: final(self).canvases,
                    dirty: old(self).dirty || lost_focus,
                    ..*old(self)
                })
            },
    {
        let a = self.active;
        if self.canvases[a].nodes[i].is_terminal() {
            return;
        }
        let id = self.canvases[a].nodes[i].id;
        if let Some(text) = new_text {
            if let NodeKind::Note(note) = &mut self.canvases[a].nodes[i].kind {
                note.text = text;
            }
        }
        if has_focus {
            self.canvases[a].focused = Some(id);
        }
        if lost_focus {
            self.dirty = true;
        }
        proof {
            ids_unmoved(*old(self), *self);
        }
    }

    /// Whether the active canvas asks for a folder: it has none, and no cards.
    pub fn shows_open_card(&self) -> (r: bool)
        requires
            self.wf(),
        ensures
            r == (self.current().workspace is None && self.current().nodes@.len() == 0),
    {
        let c = &self.canvases[self.active];
        c.workspace.is_none() && c.nodes.len() == 0
    }

    /// Whether the mouse acts on the empty space of the active canvas: it is
    /// over no card, not over the minimap nor over the card that asks for a
    /// folder, and no card is grabbed.
    pub fn background_is_free(&self, topmost: Option<u64>, over_minimap: bool, over_open_card: bool)
        -> (r: bool)
        requires
            self.wf(),
        ensures
            r == (topmost is None && !over_minimap && !over_open_card
                && self.current().moving is None && self.current().resizing is None),
    {
        let c = &self.canvases[self.active];
        topmost.is_none() && !over_minimap && !over_open_card && c.moving.is_none()
            && c.resizing.is_none()
    }

    /// Takes in a click on the empty space of the active canvas, and where the
    /// context menu was opened.
    pub fn background_events(&mut self, clicked: bool, menu_at: Option<Point>)
        requires
            old(self).wf(),
        ensures
            final(self).wf(),
            old(self).ids_sound() ==> final(self).ids_sound(),
            final(self).differs_in_active(*old(self)),
            final(self).current() == (Canvas {
                focused: if clicked {
                    None
                } else {
                    old(self).current().focused
                },
                menu_world: match menu_at {
                    Some(at) => at,
                    None => old(self).current().menu_world,
                },
                ..old(self).current()
            }),
            *final(self) == (RsTermApp { canvases: final(self).canvases, ..*old(self) }),
    {
        let a = self.active;
        let c = &mut self.canvases[a];
        if clicked {
            c.focused = None;
        }
        if let Some(at) = menu_at {
            c.menu_world = at;
        }
        proof {
            ids_unmoved(*old(self), *self);
        }
    }

    /// Moves and zooms the active canvas. The zoom is brought into range.
    pub fn set_view(&mut self, offset: Extent, zoom: Scalar)
        requires
            old(self).wf(),
        ensures
            final(self).wf(),
            old(self).ids_sound() ==> final(self).ids_sound(),
            final(self).differs_in_active(*old(self)),
            final(self).current() == (Canvas {
                offset,
                zoom: zoom.clamp_spec(zoom_min(), zoom_max()),
                ..old(self).current()
            }),
            zoom_in_range(final(self).current().zoom),
            *final(self) == (RsTermApp { canvases: final(self).canvases, ..*old(self) }),
    {
        let a = self.active;
        let c = &mut self.canvases[a];
        c.offset = offset;
        c.zoom = clamp_zoom(zoom);
        proof {
            ids_unmoved(*old(self), *self);
        }
    }

    /// The label of a tab: the name of the canvas, after a sign if it is bound
    /// to no folder.
    pub open spec fn tab_text(self, idx: int) -> Seq<char> {
        if self.canvases@[idx].workspace is Some {
            self.canvases@[idx].name@
        } else {
            "▦ "@ + self.canvases@[idx].name@
        }
    }

    /// The label of a tab.
    pub fn tab_label(&self, idx: usize) -> (label: String)
        requires
            idx < self.canvases@.len(),
        ensures
            label@ == self.tab_text(idx as int),
    {
        let c = &self.canvases[idx];
        if c.workspace.is_some() {
            c.name.clone()
        } else {
            "▦ ".to_owned().concat(c.name.as_str())
        }
    }

    /// Takes in what happened to the tabs: switches to a canvas, asks whether
    /// to close one, and adds one.
    pub fn top_bar(&mut self, switch: Option<usize>, close: Option<usize>, add: bool)
        requires
            old(self).wf(),
            switch matches Some(idx) ==> idx < old(self).canvases@.len(),
        ensures
            final(self).wf(),
            old(self).ids_sound() ==> final(self).ids_sound(),
            ({
                let count = old(self).canvases@.len();
                &&& if add {
                    &&& final(self).canvases@.len() == count + 1
                    &&& final(self).canvases@.drop_last() == old(self).canvases@
                    &&& is_untitled(final(self).canvases@.last())
                } else {
                    final(self).canvases == old(self).canvases
                }
                &&& *final(self) == (RsTermApp {
                    canvases: final(self).canvases,
                    active: match switch {
                        _ if add => count as usize,
                        Some(idx) => idx,
                        None => old(self).active,
                    },
                    confirm_close: if close is Some {
                        close
                    } else {
                        old(self).confirm_close
                    },
                    dirty: old(self).dirty || add,
                    ..*old(self)
                })
            }),
    {
        if let Some(idx) = switch {
            self.active = idx;
        }
        if close.is_some() {
            self.confirm_close = close;
        }
        proof {
            ids_unmoved(*old(self), *self);
        }
        if add {
            self.add_canvas();
            self.mark_dirty();
            assert(self.canvases@.drop_last() =~= old(self).canvases@);
        }
    }

    /// The question that is asked before a canvas is closed.
    pub open spec fn prompt_text(self, idx: int) -> Seq<char> {
        "Close “"@ + self.canvases@[idx].name@ + "” and kill its terminal sessions?"@
    }

    /// The question to ask, if a canvas is about to be closed.
    pub fn close_prompt(&self) -> (prompt: Option<String>)
        ensures
            match (self.confirm_close, prompt) {
                (Some(idx), Some(prompt)) => idx < self.canvases@.len() && prompt@
                    == self.prompt_text(idx as int),
                (Some(idx), None) => idx >= self.canvases@.len(),
                (None, prompt) => prompt is None,
            },
    {
        match self.confirm_close {
            Some(idx) => if idx < self.canvases.len() {
                Some(
                    "Close “".to_owned().concat(self.canvases[idx].name.as_str()).concat(
                        "” and kill its terminal sessions?",
                    ),
                )
            } else {
                None
            },
            None => None,
        }
    }

    /// Takes in the answer to that question, and gives the canvas that was
    /// closed. The question is dropped if there is no such canvas any more.
    pub fn confirm_close_dialog(&mut self, confirmed: bool, cancelled: bool) -> (closed: Option<
        Canvas,
    >)
        requires
            old(self).wf(),
        ensures
            final(self).wf(),
            old(self).ids_sound() ==> final(self).ids_sound(),
            match old(self).confirm_close {
                None => closed is None && *final(self) == *old(self),
                Some(idx) => {
                    let count = old(self).canvases@.len();
                    let left = count - 1;
                    if idx >= count || !confirmed {
                        &&& closed is None
                        &&& *final(self) == (RsTermApp {
                            confirm_close: if idx >= count || cancelled {
                                None
                            } else {
                                Some(idx)
                            },
                            ..*old(self)
                        })
                    } else if count == 1 {
                        &&& closed is None
                        &&& *final(self) == (RsTermApp {
                            confirm_close: None,
                            dirty: true,
                            ..*old(self)
                        })
                    } else {
                        &&& closed == Some(old(self).canvases@[idx as int])
                        &&& final(self).canvases@ == old(self).canvases@.remove(idx as int)
                        &&& *final(self) == (RsTermApp {
                            canvases: final(self).canvases,
                            active: if old(self).active >= left {
                                (left - 1) as usize
                            } else {
                                old(self).active
                            },
                            confirm_close: None,
                            dirty: true,
                            ..*old(self)
                        })
                    }
                },
            },
    {
        let idx = match self.confirm_close {
            Some(idx) => idx,
            None => return None,
        };
        if idx < self.canvases.len() && !confirmed && !cancelled {
            return None;
        }
        let stale = idx >= self.canvases.len();
        self.confirm_close = None;
        proof {
            ids_unmoved(*old(self), *self);
        }
        if stale || !confirmed {
            return None;
        }
        let closed = self.close_canvas(idx);
        self.mark_dirty();
        closed
    }

    /// Lets a card of the active canvas glow from `now` on if an attention
    /// bell of its terminal rang since the last call. Tells whether it rang.
    pub fn notice_bell(&mut self, i: usize, now: u64) -> (rang: bool)
        requires
            old(self).wf(),
            i < old(self).current().nodes@.len(),
        ensures
            final(self).wf(),
            old(self).ids_sound() ==> final(self).ids_sound(),
            ({
                let node = old(self).current().nodes@[i as int];
                match old(self).term_at(i as int) {
                    None => !rang && *final(self) == *old(self),
                    Some(term) => {
                        let quiet = with_term(node, PtyTerminal { bell: false, ..term });
                        &&& rang == term.bell
                        &&& final(self).has_new_node(
                            *old(self),
                            i as int,
                            Node {
                                glow_start: if rang {
                                    Some(now)
                                } else {
                                    node.glow_start
                                },
                                ..quiet
                            },
                        )
                    },
                }
            }),
    {
        if !self.has_terminal(i) {
            return false;
        }
        let a = self.active;
        let mut rang = false;
        if let NodeKind::Terminal(t) = &mut self.canvases[a].nodes[i].kind {
            if let Some(term) = &mut t.term {
                rang = term.take_bell();
            }
        }
        if rang {
            self.canvases[a].nodes[i].glow_start = Some(now);
        }
        assert(self.current().nodes@ =~= old(self).current().nodes@.update(
            i as int,
            self.current().nodes@[i as int],
        ));
        assert(self.current().nodes@[i as int].kind == with_term(
            old(self).current().nodes@[i as int],
            PtyTerminal { bell: false, ..old(self).term_at(i as int)->0 },
        ).kind);
        proof {
            ids_unmoved(*old(self), *self);
        }
        rang
    }

    /// Maximizes a card of the active canvas to the given place and size, or
    /// puts it back if it is maximized.
    pub fn toggle_maximized(&mut self, i: usize, pos: Point, size: Extent)
        requires
            old(self).wf(),
            i < old(self).current().nodes@.len(),
        ensures
            final(self).wf(),
            old(self).ids_sound() ==> final(self).ids_sound(),
            final(self).has_new_node(
                *old(self),
                i as int,
                toggled(old(self).current().nodes@[i as int], pos, size),
            ),
    {
        let a = self.active;
        let node = &mut self.canvases[a].nodes[i];
        match node.restore {
            Some((pos, size)) => {
                node.pos = pos;
                node.size = size;
                node.restore = None;
            },
            None => {
                node.restore = Some((node.pos, node.size));
                node.pos = pos;
                node.size = size;
            },
        }
        proof {
            ids_unmoved(*old(self), *self);
        }
    }
}

/// A card that is maximized, or put back if it was.
pub open spec fn toggled(node: Node, pos: Point, size: Extent) -> Node {
    match node.restore {
        Some((pos, size)) => Node { pos, size, restore: None, ..node },
        None => Node { pos, size, restore: Some((node.pos, node.size)), ..node },
    }
}

/// Maximizing a card and putting it back leaves it as it was.
pub proof fn maximizing_is_undone(node: Node, pos: Point, size: Extent, pos2: Point, size2: Extent)
    requires
        node.restore is None,
    ensures
        toggled(toggled(node, pos, size), pos2, size2) == node,
{
}

/// Nothing that happens to a card changes anything of it but its place, its
/// size and what is selected in it; and if nothing happens to it, and it is
/// neither moved nor resized, nothing changes.
pub proof fn cards_change_by_what_happens(canvas: Canvas, i: int, events: CardEvents)
    requires
        0 <= i < canvas.nodes@.len(),
    ensures
        ({
            let node = canvas.nodes@[i];
            let after = card_after(canvas, i, events);
            let moves = events.move_started || canvas.moving == Some(node.id);
            let resizes = events.resize_started || canvas.resizing == Some(node.id);
            &&& (after.id, after.title, after.label) == (node.id, node.title, node.label)
            &&& (after.glow_start, after.restore) == (node.glow_start, node.restore)
            &&& moves ==> after.pos == events.moved_to
            &&& !moves ==> after.pos == node.pos
            &&& resizes && (Scalar { bits: 0x4348_0000 }).le_spec(events.resized_to.x)
                ==> after.size.x == events.resized_to.x
            &&& resizes && (Scalar { bits: 0x430c_0000 }).le_spec(events.resized_to.y)
                ==> after.size.y == events.resized_to.y
            &&& resizes ==> (Scalar { bits: 0x4348_0000 }).le_spec(after.size.x)
                && (Scalar { bits: 0x430c_0000 }).le_spec(after.size.y)
            &&& !resizes ==> after.size == node.size
            &&& node.kind is Note ==> after.kind == node.kind
            &&& node.kind matches NodeKind::Terminal(t) ==> {
                &&& after.kind is Terminal
                &&& after.kind->Terminal_0.term == t.term
                &&& after.kind->Terminal_0.cwd == t.cwd
                &&& after.kind->Terminal_0.agent == t.agent
                &&& events.body_clicked ==> after.kind->Terminal_0.selection is None
                &&& !events.body_clicked ==> after.kind->Terminal_0.selection == t.selection
            }
        }),
{
}

/// A card that is grabbed by its title bar or by its corner stays grabbed until
/// it is let go; whatever touches a card selects it; and the canvas stays as it
/// is otherwise.
pub proof fn grabbed_cards_stay_grabbed(canvas: Canvas, i: int, events: CardEvents, nodes: Vec<Node>)
    requires
        0 <= i < canvas.nodes@.len(),
    ensures
        ({
            let id = canvas.nodes@[i].id;
            let after = canvas_after(canvas, i, events, nodes);
            let touched = events.move_started || events.title_clicked || events.resize_started
                || events.body_clicked;
            &&& events.move_stopped ==> after.moving is None
            &&& events.move_started && !events.move_stopped ==> after.moving == Some(id)
            &&& !events.move_started && !events.move_stopped ==> after.moving == canvas.moving
            &&& events.resize_stopped ==> after.resizing is None
            &&& events.resize_started && !events.resize_stopped ==> after.resizing == Some(id)
            &&& !events.resize_started && !events.resize_stopped ==> after.resizing
                == canvas.resizing
            &&& touched ==> after.focused == Some(id) && events.raises()
            &&& !touched ==> after.focused == canvas.focused && !events.raises()
            &&& after.nodes == nodes
            &&& (after.name, after.workspace) == (canvas.name, canvas.workspace)
            &&& (after.offset, after.zoom) == (canvas.offset, canvas.zoom)
            &&& after.menu_world == canvas.menu_world
        }),
{
}

/// A maximized card is where and as large as it was told to be, and remembers
/// where and how large it was; nothing else of it changes.
pub proof fn maximized_cards_remember(node: Node, pos: Point, size: Extent)
    ensures
        ({
            let after = toggled(node, pos, size);
            &&& node.restore is None ==> after.pos == pos && after.size == size && after.restore
                == Some((node.pos, node.size))
            &&& node.restore matches Some(was) ==> after.pos == was.0 && after.size == was.1
                && after.restore is None
            &&& (after.id, after.title, after.label) == (node.id, node.title, node.label)
            &&& after.kind == node.kind
            &&& after.glow_start == node.glow_start
        }),
{
}

/// A tab is labelled by the name of its canvas; where no folder was opened yet,
/// a sign and a blank stand before it.
pub proof fn tabs_are_labelled_by_name(app: RsTermApp, idx: int)
    ensures
        app.canvases@[idx].workspace is Some ==> app.tab_text(idx) == app.canvases@[idx].name@,
        app.canvases@[idx].workspace is None ==> {
            let label = app.tab_text(idx);
            let name = app.canvases@[idx].name@;
            &&& label.len() == name.len() + 2
            &&& label.take(2) == seq!['▦', ' ']
            &&& label.skip(2) == name
        },
{
    reveal_strlit("▦ ");
    let name = app.canvases@[idx].name@;
    assert(("▦ "@ + name).take(2) =~= seq!['▦', ' ']);
    assert(("▦ "@ + name).skip(2) =~= name);
}

/// The question before a canvas is closed names it, in quotation marks.
pub proof fn questions_name_the_canvas(app: RsTermApp, idx: int)
    ensures
        ({
            let name = app.canvases@[idx].name@;
            let question = app.prompt_text(idx);
            &&& question.subrange(7, 7int + name.len()) == name
            &&& question[6] == '\u{201c}'
            &&& question[7int + name.len()] == '\u{201d}'
            &&& question.take(6) == "Close "@
            &&& question.skip(8int + name.len()) == " and kill its terminal sessions?"@
        }),
{
    reveal_strlit("Close “");
    reveal_strlit("Close ");
    reveal_strlit("” and kill its terminal sessions?");
    reveal_strlit(" and kill its terminal sessions?");
    let name = app.canvases@[idx].name@;
    let question = app.prompt_text(idx);
    assert(question.subrange(7, 7int + name.len()) =~= name);
    assert(question.take(6) =~= "Close "@);
    assert(question.skip(8int + name.len()) =~= " and kill its terminal sessions?"@);
}

/// A terminal lies under a place if the rectangle of its card covers it; a note
/// does not count.
pub proof fn notes_are_no_terminals(app: RsTermApp, areas: Seq<Area>, at: Point, i: int)
    ensures
        app.current().nodes@[i].kind is Note ==> !app.terminal_under(areas, at, i),
        app.current().nodes@[i].kind is Terminal ==> (app.terminal_under(areas, at, i)
            <==> areas[i].covers(at)),
{
}

} // verus!
