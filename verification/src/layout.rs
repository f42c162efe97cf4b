//! What is kept of the layout across restarts, and how it is taken up again.
use crate::app::{ids_unmoved, is_untitled, Canvas, RsTermApp};
use crate::geometry::{clamp_stays_in_range, point, point_of, Extent, Scalar};
use crate::node::{
    is_restored, kept_of, path_text, path_to_text, restored_node_keeps_all, text_path,
    text_to_path, Node, NodeKind, SavedApp, SavedCanvas, SavedNode, SavedNodeView,
};
use crate::terminal::{launch_of, opt_bytes, session_text};
use crate::text::{encoded, encoded_text_reads_back, opt_text};
use crate::tmux::TmuxEnv;
use vstd::prelude::*;

verus! {

pub struct SavedCanvasView {
    pub name: Seq<char>,
    pub workspace: Option<Seq<char>>,
    pub offset: Extent,
    pub zoom: Scalar,
    pub nodes: Seq<SavedNodeView>,
}

pub open spec fn saved_nodes(nodes: Seq<SavedNode>) -> Seq<SavedNodeView> {
    nodes.map_values(|n: SavedNode| n@)
}

impl View for SavedCanvas {
    type V = SavedCanvasView;

    open spec fn view(&self) -> SavedCanvasView {
        SavedCanvasView {
            name: self.name@,
            workspace: opt_text(self.workspace),
            offset: self.offset,
            zoom: self.zoom,
            nodes: saved_nodes(self.nodes@),
        }
    }
}

pub struct SavedAppView {
    pub active: usize,
    pub next_id: u64,
    pub canvases: Seq<SavedCanvasView>,
    pub show_minimap: bool,
}

pub open spec fn saved_canvases(canvases: Seq<SavedCanvas>) -> Seq<SavedCanvasView> {
    canvases.map_values(|c: SavedCanvas| c@)
}

impl View for SavedApp {
    type V = SavedAppView;

    open spec fn view(&self) -> SavedAppView {
        SavedAppView {
            active: self.active,
            next_id: self.next_id,
            canvases: saved_canvases(self.canvases@),
            show_minimap: self.show_minimap,
        }
    }
}

/// What a layout keeps of a canvas.
pub open spec fn kept_canvas(canvas: Canvas) -> SavedCanvasView {
    SavedCanvasView {
        name: canvas.name@,
        workspace: path_text(canvas.workspace),
        offset: canvas.offset,
        zoom: canvas.zoom,
        nodes: canvas.nodes@.map_values(|n: Node| kept_of(n)),
    }
}

/// What a layout keeps of everything.
pub open spec fn kept_app(app: RsTermApp) -> SavedAppView {
    SavedAppView {
        active: app.active,
        next_id: app.next_id,
        canvases: app.canvases@.map_values(|c: Canvas| kept_canvas(c)),
        show_minimap: app.show_minimap,
    }
}

/// The least zoom, 0.2.
pub open spec fn zoom_min() -> Scalar {
    Scalar { bits: 0x3e4c_cccd }
}

/// The greatest zoom, 3.
pub open spec fn zoom_max() -> Scalar {
    Scalar { bits: 0x4040_0000 }
}

/// The zoom lies in range, or is no number.
pub open spec fn zoom_in_range(zoom: Scalar) -> bool {
    zoom.nan() || zoom_min().le_spec(zoom) && zoom.le_spec(zoom_max())
}

/// Brings a zoom into range.
pub fn clamp_zoom(zoom: Scalar) -> (r: Scalar)
    ensures
        r == zoom.clamp_spec(zoom_min(), zoom_max()),
        zoom_in_range(r),
{
    zoom.clamp(Scalar { bits: 0x3e4c_cccd }, Scalar { bits: 0x4040_0000 })
}

/// The canvas is the one that a layout keeps, with its zoom brought into
/// range. Nothing is selected, moved or resized.
pub open spec fn is_restored_canvas(canvas: Canvas, kept: SavedCanvasView) -> bool {
    &&& canvas.name@ == kept.name
    &&& opt_bytes(canvas.workspace) == text_path(kept.workspace)
    &&& canvas.offset == kept.offset
    &&& canvas.zoom == kept.zoom.clamp_spec(zoom_min(), zoom_max())
    &&& canvas.nodes@.len() == kept.nodes.len()
    &&& forall|i: int|
        0 <= i < kept.nodes.len() ==> is_restored(#[trigger] canvas.nodes@[i], kept.nodes[i])
    &&& canvas.focused is None
    &&& canvas.moving is None
    &&& canvas.resizing is None
    &&& canvas.menu_world == point(0, 0)
}

/// The lesser of a number and the last index.
pub open spec fn into_range(active: usize, len: nat) -> usize {
    if active < len {
        active
    } else if len == 0 {
        0
    } else {
        (len - 1) as usize
    }
}

/// The canvases are those that a layout keeps. The active one is the kept one,
/// or the last if there is no such canvas, and the counter is the kept one, or
/// one if that is zero.
pub open spec fn is_loaded(app: RsTermApp, kept: SavedAppView) -> bool {
    &&& app.next_id == if kept.next_id == 0 {
        1
    } else {
        kept.next_id
    }
    &&& app.canvases@.len() == kept.canvases.len()
    &&& forall|c: int|
        0 <= c < kept.canvases.len() ==> is_restored_canvas(
            #[trigger] app.canvases@[c],
            kept.canvases[c],
        )
    &&& app.active == into_range(kept.active, kept.canvases.len())
    &&& app.show_minimap == kept.show_minimap
}

fn restored_canvas(saved: SavedCanvas) -> (canvas: Canvas)
    ensures
        is_restored_canvas(canvas, saved@),
        canvas.wf(),
{
    let mut nodes: Vec<Node> = Vec::new();
    let ghost all = saved.nodes@;
    for n in it: saved.nodes
        invariant
            it.seq() == all,
            nodes@.len() == it.index(),
            forall|i: int|
                0 <= i < nodes@.len() ==> is_restored(#[trigger] nodes@[i], all[i]@)
                    && nodes@[i].wf(),
    {
        nodes.push(Node::from_saved(n));
    }
    Canvas {
        name: saved.name,
        workspace: text_to_path(&saved.workspace),
        nodes,
        offset: saved.offset,
        zoom: clamp_zoom(saved.zoom),
        focused: None,
        moving: None,
        resizing: None,
        menu_world: point_of(0, 0),
    }
}

fn saved_canvas(canvas: &Canvas) -> (saved: SavedCanvas)
    ensures
        saved@ == kept_canvas(*canvas),
        saved.offset == canvas.offset,
        saved.zoom == canvas.zoom,
{
    let mut nodes: Vec<SavedNode> = Vec::new();
    let ghost want = canvas.nodes@.map_values(|n: Node| kept_of(n));
    let mut i: usize = 0;
    while i < canvas.nodes.len()
        invariant
            i <= canvas.nodes@.len(),
            want == canvas.nodes@.map_values(|n: Node| kept_of(n)),
            saved_nodes(nodes@) =~= want.take(i as int),
        decreases canvas.nodes.len() - i,
    {
        let ghost before = nodes@;
        nodes.push(canvas.nodes[i].to_saved());
        assert(saved_nodes(nodes@) =~= saved_nodes(before).push(want[i as int]));
        i += 1;
    }
    assert(want.take(want.len() as int) =~= want);
    SavedCanvas {
        name: canvas.name.clone(),
        workspace: path_to_text(&canvas.workspace),
        offset: canvas.offset,
        zoom: canvas.zoom,
        nodes,
    }
}

impl RsTermApp {
    /// The layout that was kept, or a fresh one: an empty canvas that is bound
    /// to no folder.
    pub fn new(saved: Option<SavedApp>) -> (app: RsTermApp)
        ensures
            app.wf(),
            saved is None ==> app.ids_sound(),
            !app.dirty,
            app.confirm_close is None,
            match saved {
                Some(saved) => if saved.canvases@.len() > 0 {
                    is_loaded(app, saved@)
                } else {
                    &&& app.canvases@.len() == 1
                    &&& is_untitled(app.canvases@[0])
                    &&& app.next_id == if saved.next_id == 0 {
                        1
                    } else {
                        saved.next_id
                    }
                    &&& app.show_minimap == saved.show_minimap
                },
                None => {
                    &&& app.canvases@.len() == 1
                    &&& is_untitled(app.canvases@[0])
                    &&& app.next_id == 1
                    &&& app.show_minimap
                },
            },
    {
        let mut app = RsTermApp {
            canvases: Vec::new(),
            active: 0,
            next_id: 1,
            confirm_close: None,
            dirty: false,
            show_minimap: true,
        };
        if let Some(saved) = saved {
            app.load_layout(saved);
        }
        if app.canvases.len() == 0 {
            app.canvases.push(Canvas::new("untitled".to_owned()));
            app.active = 0;
        }
        app
    }

    /// Takes up a layout that was kept.
    pub fn load_layout(&mut self, saved: SavedApp)
        ensures
            is_loaded(*final(self), saved@),
            forall|c: int|
                0 <= c < final(self).canvases@.len() ==> (#[trigger] final(self).canvases@[c]).wf(),
            *final(self) == (RsTermApp {
                canvases: final(self).canvases,
                active: final(self).active,
                next_id: final(self).next_id,
                show_minimap: final(self).show_minimap,
                ..*old(self)
            }),
    {
        self.next_id = if saved.next_id == 0 {
            1
        } else {
            saved.next_id
        };
        let mut canvases: Vec<Canvas> = Vec::new();
        let ghost all = saved.canvases@;
        for c in it: saved.canvases
            invariant
                it.seq() == all,
                canvases@.len() == it.index(),
                forall|i: int|
                    0 <= i < canvases@.len() ==> is_restored_canvas(
                        #[trigger] canvases@[i],
                        all[i]@,
                    ) && canvases@[i].wf(),
        {
            canvases.push(restored_canvas(c));
        }
        let n: usize = canvases.len();
        self.canvases = canvases;
        self.active = if saved.active < n {
            saved.active
        } else if n == 0 {
            0
        } else {
            n - 1
        };
        self.show_minimap = saved.show_minimap;
    }

    /// What is kept of the layout.
    pub fn save_layout(&self) -> (saved: SavedApp)
        ensures
            saved@ == kept_app(*self),
            saved.canvases@.len() == self.canvases@.len(),
            forall|c: int|
                0 <= c < self.canvases@.len() ==> {
                    let kept = #[trigger] saved.canvases@[c];
                    let canvas = self.canvases@[c];
                    &&& kept.name@ == canvas.name@
                    &&& kept.offset == canvas.offset
                    &&& kept.zoom == canvas.zoom
                    &&& kept.nodes@.len() == canvas.nodes@.len()
                },
    {
        let mut canvases: Vec<SavedCanvas> = Vec::new();
        let ghost want = self.canvases@.map_values(|c: Canvas| kept_canvas(c));
        let mut i: usize = 0;
        while i < self.canvases.len()
            invariant
                i <= self.canvases@.len(),
                want == self.canvases@.map_values(|c: Canvas| kept_canvas(c)),
                saved_canvases(canvases@) =~= want.take(i as int),
                canvases@.len() == i,
                forall|c: int|
                    0 <= c < i ==> {
                        let kept = #[trigger] canvases@[c];
                        let canvas = self.canvases@[c];
                        &&& kept.name@ == canvas.name@
                        &&& kept.offset == canvas.offset
                        &&& kept.zoom == canvas.zoom
                        &&& kept.nodes@.len() == canvas.nodes@.len()
                    },
            decreases self.canvases.len() - i,
        {
            let ghost before = canvases@;
            let kept = saved_canvas(&self.canvases[i]);
            assert(kept@.name == self.canvases@[i as int].name@);
            assert(kept@.nodes.len() == self.canvases@[i as int].nodes@.len());
            canvases.push(kept);
            assert(saved_canvases(canvases@) =~= saved_canvases(before).push(want[i as int]));
            i += 1;
        }
        assert(want.take(want.len() as int) =~= want);
        SavedApp {
            active: self.active,
            next_id: self.next_id,
            canvases,
            show_minimap: self.show_minimap,
        }
    }

    /// Gives what is to be written of the layout. It counts as written then.
    pub fn flush_layout(&mut self) -> (saved: SavedApp)
        ensures
            saved@ == kept_app(*old(self)),
            *final(self) == (RsTermApp { dirty: false, ..*old(self) }),
    {
        let saved = self.save_layout();
        self.dirty = false;
        saved
    }

    /// Whether the layout is to be written now: if it changed, at once when
    /// the window is closing, and otherwise ten seconds after it was last
    /// written.
    pub fn should_flush(&self, closing: bool, secs_since_save: u64) -> (r: bool)
        ensures
            r == (self.dirty && (closing || secs_since_save >= 10)),
    {
        self.dirty && (closing || secs_since_save >= 10)
    }
}

/// Taking up a layout that was kept brings everything back that it keeps. The
/// layout is as the program keeps it: some canvas is active, the counter is
/// not zero and no zoom is out of range.
pub proof fn kept_layout_comes_back(before: RsTermApp, after: RsTermApp)
    requires
        before.wf(),
        before.next_id > 0,
        forall|c: int|
            0 <= c < before.canvases@.len() ==> zoom_in_range(
                (#[trigger] before.canvases@[c]).zoom,
            ),
        is_loaded(after, kept_app(before)),
    ensures
        kept_app(after) == kept_app(before),
{
    let kept = kept_app(before);
    assert forall|c: int| 0 <= c < kept.canvases.len() implies kept_canvas(
        #[trigger] after.canvases@[c],
    ) == kept.canvases[c] by {
        let x = after.canvases@[c];
        let k = kept.canvases[c];
        assert(zoom_in_range(before.canvases@[c].zoom));
        assert forall|i: int| 0 <= i < k.nodes.len() implies kept_of(#[trigger] x.nodes@[i])
            == k.nodes[i] by {
            restored_node_keeps_all(x.nodes@[i], k.nodes[i]);
        }
        assert(kept_canvas(x).nodes =~= k.nodes);
        match k.workspace {
            Some(text) => encoded_text_reads_back(text),
            None => {},
        }
    }
    assert(kept_app(after).canvases =~= kept.canvases);
}

/// Whatever a layout says, the zooms are in range once it was taken up.
pub proof fn loaded_zooms_in_range(app: RsTermApp, kept: SavedAppView)
    requires
        is_loaded(app, kept),
    ensures
        forall|c: int|
            0 <= c < app.canvases@.len() ==> zoom_in_range((#[trigger] app.canvases@[c]).zoom),
{
    assert forall|c: int| 0 <= c < app.canvases@.len() implies zoom_in_range(
        (#[trigger] app.canvases@[c]).zoom,
    ) by {
        clamp_stays_in_range(kept.canvases[c].zoom, zoom_min(), zoom_max());
    }
}

/// Sessions survive a restart: once a layout that was kept is taken up again,
/// each terminal is where it was, and what is started for it attaches to the
/// session that it had.
pub proof fn sessions_survive(
    before: RsTermApp,
    after: RsTermApp,
    c: int,
    i: int,
    rows: u16,
    cols: u16,
    startup: Option<Seq<char>>,
    shell: Option<Seq<char>>,
    home: Option<Seq<char>>,
    tmux: TmuxEnv,
)
    requires
        is_loaded(after, kept_app(before)),
        before.has(c, i),
        before.canvases@[c].nodes@[i].kind is Terminal,
    ensures
        after.has(c, i),
        ({
            let node = after.canvases@[c].nodes@[i];
            let cwd = opt_bytes(node.kind->Terminal_0.cwd);
            let launch = launch_of(
                rows,
                cols,
                cwd,
                node.id,
                startup,
                shell,
                home,
                Some(tmux),
            );
            &&& node.kind is Terminal
            &&& node.kind->Terminal_0.agent
                == before.canvases@[c].nodes@[i].kind->Terminal_0.agent
            &&& launch.program == tmux.bin@
            &&& launch.args.take(8) == encoded(
                seq![
                    "-L"@,
                    tmux.socket@,
                    "-f"@,
                    tmux.conf@,
                    "new-session"@,
                    "-A"@,
                    "-s"@,
                    session_text(before.id_at(c, i)),
                ],
            )
        }),
{
    let kept = kept_app(before);
    assert(is_restored_canvas(after.canvases@[c], kept.canvases[c]));
    let node = after.canvases@[c].nodes@[i];
    assert(is_restored(node, kept.canvases[c].nodes[i]));
    let cwd = opt_bytes(node.kind->Terminal_0.cwd);
    let launch = launch_of(rows, cols, cwd, node.id, startup, shell, home, Some(tmux));
    assert(launch.args.take(8) =~= encoded(
        seq![
            "-L"@,
            tmux.socket@,
            "-f"@,
            tmux.conf@,
            "new-session"@,
            "-A"@,
            "-s"@,
            session_text(before.id_at(c, i)),
        ],
    ));
}

/// Sound numbers stay sound when a layout is kept and taken up again.
pub proof fn kept_ids_stay_sound(before: RsTermApp, after: RsTermApp)
    requires
        before.ids_sound(),
        is_loaded(after, kept_app(before)),
    ensures
        after.ids_sound(),
{
    assert forall|c: int, i: int| after.has(c, i) implies before.has(c, i) && #[trigger] after.id_at(
        c,
        i,
    ) == before.id_at(c, i) by {
        let kept = kept_app(before);
        assert(is_restored_canvas(after.canvases@[c], kept.canvases[c]));
        assert(is_restored(after.canvases@[c].nodes@[i], kept.canvases[c].nodes[i]));
    }
    ids_unmoved(before, after);
}

/// Taking up a layout that was kept brings back the canvases themselves: as many
/// and in the same order, each with its name, where it was moved to, how far it
/// was zoomed, its folder if the path of that is UTF-8, and its cards, of the
/// same numbers and in the same order. The active one is active again.
pub proof fn canvases_come_back(before: RsTermApp, after: RsTermApp, c: int)
    requires
        before.wf(),
        is_loaded(after, kept_app(before)),
        0 <= c < before.canvases@.len(),
    ensures
        after.canvases@.len() == before.canvases@.len(),
        after.active == before.active,
        after.show_minimap == before.show_minimap,
        before.next_id > 0 ==> after.next_id == before.next_id,
        ({
            let old_canvas = before.canvases@[c];
            let canvas = after.canvases@[c];
            let low = Scalar { bits: 0x3e4c_cccd };
            let high = Scalar { bits: 0x4040_0000 };
            &&& canvas.name@ == old_canvas.name@
            &&& canvas.offset == old_canvas.offset
            &&& low.le_spec(old_canvas.zoom) && old_canvas.zoom.le_spec(high) ==> canvas.zoom
                == old_canvas.zoom
            &&& canvas.workspace is Some <==> old_canvas.workspace is Some
            &&& old_canvas.workspace is Some && vstd::utf8::valid_utf8(old_canvas.workspace->0@)
                ==> canvas.workspace->0@ == old_canvas.workspace->0@
            &&& canvas.nodes@.len() == old_canvas.nodes@.len()
            &&& forall|i: int|
                0 <= i < old_canvas.nodes@.len() ==> (#[trigger] canvas.nodes@[i]).id
                    == old_canvas.nodes@[i].id
            &&& canvas.focused is None && canvas.moving is None && canvas.resizing is None
        }),
{
    let kept = kept_app(before);
    let old_canvas = before.canvases@[c];
    let canvas = after.canvases@[c];
    assert(is_restored_canvas(canvas, kept.canvases[c]));
    assert forall|i: int| 0 <= i < old_canvas.nodes@.len() implies (#[trigger] canvas.nodes@[i]).id
        == old_canvas.nodes@[i].id by {
        assert(is_restored(canvas.nodes@[i], kept.canvases[c].nodes[i]));
    }
    if old_canvas.workspace is Some && vstd::utf8::valid_utf8(old_canvas.workspace->0@) {
        vstd::utf8::decode_utf8_encode_utf8(old_canvas.workspace->0@);
    }
}

/// Taking up a layout that was kept brings back the cards themselves: each with
/// its number, title, label, place and size, a note with its text, a terminal
/// of the same sort and in its directory, if the path of that is UTF-8.
pub proof fn cards_come_back(before: RsTermApp, after: RsTermApp, c: int, i: int)
    requires
        is_loaded(after, kept_app(before)),
        before.has(c, i),
    ensures
        after.has(c, i),
        ({
            let old_node = before.canvases@[c].nodes@[i];
            let node = after.canvases@[c].nodes@[i];
            &&& node.id == old_node.id
            &&& node.title@ == old_node.title@
            &&& opt_text(node.label) == opt_text(old_node.label)
            &&& node.pos == old_node.pos
            &&& node.size == old_node.size
            &&& old_node.kind matches NodeKind::Note(n) ==> {
                node.kind matches NodeKind::Note(m) && m.text@ == n.text@
            }
            &&& old_node.kind matches NodeKind::Terminal(t) ==> {
                &&& node.kind is Terminal
                &&& node.kind->Terminal_0.agent == t.agent
                &&& node.kind->Terminal_0.term is None
                &&& node.kind->Terminal_0.cwd is Some <==> t.cwd is Some
                &&& t.cwd is Some && vstd::utf8::valid_utf8(t.cwd->0@)
                    ==> node.kind->Terminal_0.cwd->0@ == t.cwd->0@
            }
        }),
{
    let kept = kept_app(before);
    assert(is_restored_canvas(after.canvases@[c], kept.canvases[c]));
    assert(is_restored(after.canvases@[c].nodes@[i], kept.canvases[c].nodes[i]));
    match before.canvases@[c].nodes@[i].kind {
        NodeKind::Terminal(t) => {
            if t.cwd is Some && vstd::utf8::valid_utf8(t.cwd->0@) {
                vstd::utf8::decode_utf8_encode_utf8(t.cwd->0@);
            }
        },
        NodeKind::Note(_) => {},
    }
}

/// Whatever a layout says, the canvas that is active after it was taken up is
/// the one that it names, if there is such a one, and the last one otherwise.
pub proof fn active_canvas_is_the_kept_one(app: RsTermApp, kept: SavedAppView)
    requires
        is_loaded(app, kept),
        kept.canvases.len() <= usize::MAX,
    ensures
        kept.active < kept.canvases.len() ==> app.active == kept.active,
        kept.active >= kept.canvases.len() > 0 ==> app.active == kept.canvases.len() - 1,
        app.next_id >= 1,
        app.next_id >= kept.next_id,
        kept.next_id >= 1 ==> app.next_id == kept.next_id,
{
}


} // verus!
