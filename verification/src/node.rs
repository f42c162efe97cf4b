//! The cards of a canvas, and what is kept of them across restarts.
use crate::color::{rgb, Rgb};
use crate::geometry::{Extent, Point, Scalar};
use crate::terminal::{opt_bytes, session_text, PtyTerminal};
use crate::text::{
    bytes_of, decimal, encoded_text_reads_back, first_line, first_line_of,
    from_utf8_lossy, lossy_text, opt_text, push_decimal, trim, trimmed,
};
use vstd::prelude::*;
use vstd::utf8::encode_utf8;

verus! {

/// A card on a canvas.
pub struct Node {
    pub id: u64,
    pub title: String,
    /// A label that the user entered. If it is not empty, it is shown in the
    /// title bar in place of the automatic title.
    pub label: Option<String>,
    /// The top left corner on the canvas.
    pub pos: Point,
    pub size: Extent,
    pub kind: NodeKind,
    /// When the glow of an attention bell started, in milliseconds since the
    /// program did. Not kept.
    pub glow_start: Option<u64>,
    /// The place and the size to go back to from maximized. Not kept.
    pub restore: Option<(Point, Extent)>,
}

pub enum NodeKind {
    Terminal(TerminalNode),
    Note(NoteNode),
}

pub struct TerminalNode {
    /// The directory that the terminal starts in, as the bytes of a path.
    pub cwd: Option<Vec<u8>>,
    /// The terminal runs a coding agent.
    pub agent: bool,
    /// The terminal, once it was shown for the first time.
    pub term: Option<PtyTerminal>,
    /// The text selected with the mouse, which is highlighted and copied with
    /// ⌘C. A drag sets it; a click and new keystrokes clear it. Not kept.
    pub selection: Option<Selection>,
}

/// Selected text of a terminal, in reading order.
#[derive(Clone, Copy, Debug)]
pub struct Selection {
    /// The row and the column of the cell where the selection began.
    pub anchor: (u16, u16),
    /// The row and the column of the cell under the pointer.
    pub head: (u16, u16),
}

pub struct NoteNode {
    pub text: String,
}

/// The whole layout: the canvases and the counter that numbers the nodes.
pub struct SavedApp {
    pub active: usize,
    pub next_id: u64,
    pub canvases: Vec<SavedCanvas>,
    pub show_minimap: bool,
}

/// Whether the minimap is shown where a layout does not say: it is.
pub fn default_true() -> (shown: bool)
    ensures
        shown,
{
    true
}

pub struct SavedCanvas {
    pub name: String,
    pub workspace: Option<String>,
    pub offset: Extent,
    pub zoom: Scalar,
    pub nodes: Vec<SavedNode>,
}

pub struct SavedNode {
    pub id: u64,
    pub title: String,
    pub label: Option<String>,
    pub pos: Point,
    pub size: Extent,
    pub kind: SavedKind,
}

pub enum SavedKind {
    Terminal { cwd: Option<String>, agent: bool },
    Note { text: String },
}

pub enum SavedKindView {
    Terminal { cwd: Option<Seq<char>>, agent: bool },
    Note { text: Seq<char> },
}

impl View for SavedKind {
    type V = SavedKindView;

    open spec fn view(&self) -> SavedKindView {
        match self {
            SavedKind::Terminal { cwd, agent } => SavedKindView::Terminal {
                cwd: opt_text(*cwd),
                agent: *agent,
            },
            SavedKind::Note { text } => SavedKindView::Note { text: text@ },
        }
    }
}

pub struct SavedNodeView {
    pub id: u64,
    pub title: Seq<char>,
    pub label: Option<Seq<char>>,
    pub pos: Point,
    pub size: Extent,
    pub kind: SavedKindView,
}

impl View for SavedNode {
    type V = SavedNodeView;

    open spec fn view(&self) -> SavedNodeView {
        SavedNodeView {
            id: self.id,
            title: self.title@,
            label: opt_text(self.label),
            pos: self.pos,
            size: self.size,
            kind: self.kind@,
        }
    }
}

/// A path as text.
pub open spec fn path_text(path: Option<Vec<u8>>) -> Option<Seq<char>> {
    match path {
        Some(path) => Some(lossy_text(path@)),
        None => None,
    }
}

/// A path from text.
pub open spec fn text_path(text: Option<Seq<char>>) -> Option<Seq<u8>> {
    match text {
        Some(text) => Some(encode_utf8(text)),
        None => None,
    }
}

/// A path as text.
pub(crate) fn path_to_text(path: &Option<Vec<u8>>) -> (text: Option<String>)
    ensures
        opt_text(text) == path_text(*path),
{
    match path {
        Some(path) => Some(from_utf8_lossy(path.as_slice())),
        None => None,
    }
}

/// A path from text.
pub(crate) fn text_to_path(text: &Option<String>) -> (path: Option<Vec<u8>>)
    ensures
        opt_bytes(path) == text_path(opt_text(*text)),
{
    match text {
        Some(text) => Some(bytes_of(text.as_str())),
        None => None,
    }
}

/// What a layout keeps of a node.
pub open spec fn kept_of(node: Node) -> SavedNodeView {
    SavedNodeView {
        id: node.id,
        title: node.title@,
        label: opt_text(node.label),
        pos: node.pos,
        size: node.size,
        kind: match node.kind {
            NodeKind::Terminal(t) => SavedKindView::Terminal {
                cwd: path_text(t.cwd),
                agent: t.agent,
            },
            NodeKind::Note(n) => SavedKindView::Note { text: n.text@ },
        },
    }
}

/// The node is the one that a layout keeps, at rest: its terminal is not
/// attached yet, nothing is selected, it does not glow and is not maximized.
pub open spec fn is_restored(node: Node, kept: SavedNodeView) -> bool {
    &&& node.id == kept.id
    &&& node.title@ == kept.title
    &&& opt_text(node.label) == kept.label
    &&& node.pos == kept.pos
    &&& node.size == kept.size
    &&& node.glow_start is None
    &&& node.restore is None
    &&& match kept.kind {
        SavedKindView::Terminal { cwd, agent } => {
            &&& node.kind is Terminal
            &&& opt_bytes(node.kind->Terminal_0.cwd) == text_path(cwd)
            &&& node.kind->Terminal_0.agent == agent
            &&& node.kind->Terminal_0.term is None
            &&& node.kind->Terminal_0.selection is None
        },
        SavedKindView::Note { text } => node.kind is Note && node.kind->Note_0.text@ == text,
    }
}

/// What was kept of a node is kept again of the node restored from it.
pub proof fn restored_node_keeps_all(node: Node, kept: SavedNodeView)
    requires
        is_restored(node, kept),
    ensures
        kept_of(node) == kept,
{
    match kept.kind {
        SavedKindView::Terminal { cwd: Some(cwd), .. } => encoded_text_reads_back(cwd),
        _ => {},
    }
}

/// The node restored from what was kept of a node has its number, its title,
/// its label, its place and its size, is a note with its text if that was one
/// and otherwise a terminal of its sort, in its directory if the path of that
/// is UTF-8, and attaches to its session.
pub proof fn restored_node_resumes(old_node: Node, node: Node)
    requires
        is_restored(node, kept_of(old_node)),
    ensures
        node.id == old_node.id,
        session_text(node.id) == session_text(old_node.id),
        node.title@ == old_node.title@,
        opt_text(node.label) == opt_text(old_node.label),
        node.pos == old_node.pos,
        node.size == old_node.size,
        node.kind is Note <==> old_node.kind is Note,
        node.kind is Note ==> node.kind->Note_0.text@ == old_node.kind->Note_0.text@,
        node.kind is Terminal ==> node.kind->Terminal_0.agent == old_node.kind->Terminal_0.agent,
        node.kind is Terminal ==> (node.kind->Terminal_0.cwd is Some
            <==> old_node.kind->Terminal_0.cwd is Some),
        node.kind is Terminal && old_node.kind->Terminal_0.cwd is Some
            && vstd::utf8::valid_utf8(old_node.kind->Terminal_0.cwd->0@) ==> opt_bytes(
            node.kind->Terminal_0.cwd,
        ) == opt_bytes(old_node.kind->Terminal_0.cwd),
{
    match old_node.kind {
        NodeKind::Terminal(t) => {
            if t.cwd is Some && vstd::utf8::valid_utf8(t.cwd->0@) {
                vstd::utf8::decode_utf8_encode_utf8(t.cwd->0@);
            }
        },
        NodeKind::Note(_) => {},
    }
}

impl Node {
    /// Its terminal, if it has one, is sound and runs the node's session.
    pub open spec fn wf(self) -> bool {
        match self.kind {
            NodeKind::Terminal(t) => match t.term {
                Some(term) => term.wf() && term.session@ == session_text(self.id),
                None => true,
            },
            NodeKind::Note(_) => true,
        }
    }

    /// What a layout keeps of the node.
    pub fn to_saved(&self) -> (saved: SavedNode)
        ensures
            saved@ == kept_of(*self),
    {
        let kind = match &self.kind {
            NodeKind::Terminal(t) => SavedKind::Terminal {
                cwd: path_to_text(&t.cwd),
                agent: t.agent,
            },
            NodeKind::Note(n) => SavedKind::Note { text: n.text.clone() },
        };
        SavedNode {
            id: self.id,
            title: self.title.clone(),
            label: self.label.clone(),
            pos: self.pos,
            size: self.size,
            kind,
        }
    }

    /// The node that a layout keeps, at rest.
    pub fn from_saved(s: SavedNode) -> (node: Node)
        ensures
            is_restored(node, s@),
            node.wf(),
    {
        let kind = match s.kind {
            SavedKind::Terminal { cwd, agent } => NodeKind::Terminal(
                TerminalNode { cwd: text_to_path(&cwd), agent, term: None, selection: None },
            ),
            SavedKind::Note { text } => NodeKind::Note(NoteNode { text }),
        };
        Node {
            id: s.id,
            title: s.title,
            label: s.label,
            pos: s.pos,
            size: s.size,
            kind,
            glow_start: None,
            restore: None,
        }
    }

    /// The automatic title: what the terminal is doing, or the first line of
    /// the note.
    pub open spec fn live_title(self) -> Seq<char> {
        match self.kind {
            NodeKind::Terminal(t) => if t.term is Some && trimmed(t.term->0.summary@).len() > 0 {
                t.term->0.summary@
            } else {
                "terminal "@ + decimal(self.id as nat)
            },
            NodeKind::Note(n) => note_title(n.text@),
        }
    }

    /// The text in the title bar: the label, if it is not empty, and otherwise
    /// the automatic title.
    pub open spec fn bar_title(self) -> Seq<char> {
        match self.label {
            Some(label) => if label@.len() > 0 {
                label@
            } else {
                self.live_title()
            },
            None => self.live_title(),
        }
    }

    /// The automatic title.
    pub fn display_title(&self) -> (title: String)
        ensures
            title@ == self.live_title(),
    {
        match &self.kind {
            NodeKind::Terminal(t) => {
                if let Some(term) = &t.term {
                    if !trim(term.summary.as_str()).as_str().is_empty() {
                        return term.summary.clone();
                    }
                }
                numbered("terminal ", self.id)
            },
            NodeKind::Note(n) => {
                let line = first_line(n.text.as_str());
                if line.as_str().is_empty() {
                    "note".to_owned()
                } else if line.as_str().unicode_len() > 30 {
                    let mut title = line.as_str().substring_char(0, 30).to_owned();
                    title.push('\u{2026}');
                    title
                } else {
                    line
                }
            },
        }
    }

    /// The text in the title bar.
    pub fn title_text(&self) -> (title: String)
        ensures
            title@ == self.bar_title(),
    {
        if let Some(label) = &self.label {
            if !label.as_str().is_empty() {
                return label.clone();
            }
        }
        self.display_title()
    }

    /// Whether the node is a terminal.
    pub fn is_terminal(&self) -> (r: bool)
        ensures
            r == (self.kind is Terminal),
    {
        match &self.kind {
            NodeKind::Terminal(_) => true,
            NodeKind::Note(_) => false,
        }
    }

    /// The node is a terminal that runs a coding agent.
    pub open spec fn runs_agent(self) -> bool {
        self.kind is Terminal && self.kind->Terminal_0.agent
    }

    /// Whether the node is a terminal that runs a coding agent.
    pub fn is_agent(&self) -> (r: bool)
        ensures
            r == self.runs_agent(),
    {
        match &self.kind {
            NodeKind::Terminal(t) => t.agent,
            NodeKind::Note(_) => false,
        }
    }
}

/// The title of a note: its first line that is not blank, cut after thirty
/// characters.
pub open spec fn note_title(text: Seq<char>) -> Seq<char> {
    let line = first_line_of(text);
    if line.len() == 0 {
        "note"@
    } else if line.len() > 30 {
        line.take(30).push('\u{2026}')
    } else {
        line
    }
}

/// A word and a number.
pub(crate) fn numbered(word: &str, id: u64) -> (s: String)
    ensures
        s@ == word@ + decimal(id as nat),
{
    let mut s = word.to_owned();
    push_decimal(&mut s, id);
    s
}

/// The color of terminals that run a coding agent.
pub open spec fn orange() -> Rgb {
    rgb(0xd0, 0x86, 0x4a)
}

/// The color of what is selected.
pub open spec fn accent() -> Rgb {
    rgb(0x4c, 0x8b, 0xf5)
}

/// The border of a card: it stands out only if the card is selected.
pub fn border_color(focused: bool, agent: bool) -> (c: Rgb)
    ensures
        c == if !focused {
            rgb(0x3a, 0x3d, 0x44)
        } else if agent {
            orange()
        } else {
            accent()
        },
{
    if !focused {
        Rgb { r: 0x3a, g: 0x3d, b: 0x44 }
    } else if agent {
        Rgb { r: 0xd0, g: 0x86, b: 0x4a }
    } else {
        Rgb { r: 0x4c, g: 0x8b, b: 0xf5 }
    }
}

/// The title bar of a card.
pub fn title_fill(focused: bool, agent: bool) -> (c: Rgb)
    ensures
        c == if !focused {
            rgb(0x26, 0x28, 0x2e)
        } else if agent {
            rgb(0x40, 0x2c, 0x18)
        } else {
            rgb(0x2b, 0x3a, 0x55)
        },
{
    if agent && focused {
        Rgb { r: 0x40, g: 0x2c, b: 0x18 }
    } else if focused {
        Rgb { r: 0x2b, g: 0x3a, b: 0x55 }
    } else {
        Rgb { r: 0x26, g: 0x28, b: 0x2e }
    }
}

/// The dot in the title bar, which tells the sort of the node.
pub fn status_dot(node: &Node) -> (c: Rgb)
    ensures
        c == if node.runs_agent() {
            orange()
        } else if node.kind is Terminal {
            rgb(0x35, 0xc0, 0x7a)
        } else {
            rgb(0xe0, 0xc0, 0x50)
        },
{
    if node.is_agent() {
        Rgb { r: 0xd0, g: 0x86, b: 0x4a }
    } else if node.is_terminal() {
        Rgb { r: 0x35, g: 0xc0, b: 0x7a }
    } else {
        Rgb { r: 0xe0, g: 0xc0, b: 0x50 }
    }
}

/// A node on the minimap.
pub fn minimap_color(node: &Node) -> (c: Rgb)
    ensures
        c == if node.runs_agent() {
            orange()
        } else if node.kind is Terminal {
            rgb(0x35, 0x6a, 0x9a)
        } else {
            rgb(0x9a, 0x86, 0x40)
        },
{
    if node.is_agent() {
        Rgb { r: 0xd0, g: 0x86, b: 0x4a }
    } else if node.is_terminal() {
        Rgb { r: 0x35, g: 0x6a, b: 0x9a }
    } else {
        Rgb { r: 0x9a, g: 0x86, b: 0x40 }
    }
}

/// The title bar shows the user's label, if it is not empty, and what the card
/// is about otherwise: what the terminal is doing, or its number while that is
/// not known, and the first line of a note.
pub proof fn title_bars_show(node: Node)
    ensures
        node.label matches Some(label) ==> (label@.len() > 0 ==> node.bar_title() == label@),
        node.label is None ==> node.bar_title() == node.live_title(),
        node.label matches Some(label) ==> (label@.len() == 0 ==> node.bar_title()
            == node.live_title()),
        node.kind matches NodeKind::Terminal(t) ==> match t.term {
            Some(term) => if trimmed(term.summary@).len() > 0 {
                node.live_title() == term.summary@
            } else {
                node.live_title() == "terminal "@ + decimal(node.id as nat)
            },
            None => node.live_title() == "terminal "@ + decimal(node.id as nat),
        },
        node.kind matches NodeKind::Note(n) ==> node.live_title() == note_title(n.text@),
{
}

/// The title of a note is its first line that is not blank, whole if it has at
/// most thirty characters, and otherwise the first thirty of them and an
/// ellipsis. A blank note is called a note.
pub proof fn notes_are_called_by_their_first_line(text: Seq<char>)
    ensures
        ({
            let line = first_line_of(text);
            let title = note_title(text);
            &&& line.len() == 0 ==> title == "note"@
            &&& 0 < line.len() <= 30 ==> title == line
            &&& line.len() > 30 ==> title.len() == 31 && title.last() == '\u{2026}'
                && title.drop_last() == line.take(30)
        }),
{
    let line = first_line_of(text);
    if line.len() > 30 {
        assert(note_title(text).drop_last() =~= line.take(30));
    }
}

} // verus!
