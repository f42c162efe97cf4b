//! The screen of a terminal: the emulator that keeps it, and how its cells are
//! grouped for painting.
//!
//! The emulator is a `vt100::Parser`. What it shows is a function of what was
//! done to it, so it is modelled by the list of those deeds, and what it
//! answers by names over that list.
use crate::color::{rgb, shown_color, to_color, Rgb, TermColor};
use crate::text::{trim, trimmed};
use vstd::prelude::*;

verus! {

/// The emulator.
#[verifier::external_type_specification]
#[verifier::external_body]
pub struct ExParser(vt100::Parser);

/// Something that was done to an emulator.
pub enum ScreenOp {
    /// It was made, with a size and a number of rows of history to keep.
    New { rows: u16, cols: u16, history: usize },
    /// It was given one byte of program output.
    Byte(u8),
    /// It was resized.
    Size { rows: u16, cols: u16 },
    /// Its view was moved back into the history, by so many rows if there are
    /// as many.
    Back(usize),
}

/// A cell of the screen: its text, its colors, whether they are swapped, and
/// whether it is the second half of a wide character.
pub struct CellView {
    pub text: Seq<char>,
    pub fg: TermColor,
    pub bg: TermColor,
    pub inverse: bool,
    pub wide_tail: bool,
}

/// All that was done to an emulator so far.
pub uninterp spec fn parser_ops(parser: vt100::Parser) -> Seq<ScreenOp>;

/// The cell that `vt100::Screen::cell` finds, after all that was done.
pub uninterp spec fn shown_cell(ops: Seq<ScreenOp>, row: u16, col: u16) -> Option<CellView>;

/// How many rows into the history the view stands
/// (`vt100::Screen::scrollback`).
pub uninterp spec fn view_offset(ops: Seq<ScreenOp>) -> nat;

/// How many rows of history there are, which is how far back
/// `vt100::Parser::set_scrollback` can move the view.
pub uninterp spec fn history_rows(ops: Seq<ScreenOp>) -> nat;

/// The row and the column of the cursor (`vt100::Screen::cursor_position`).
pub uninterp spec fn cursor_at(ops: Seq<ScreenOp>) -> (u16, u16);

/// Whether the program hid the cursor (`vt100::Screen::hide_cursor`).
pub uninterp spec fn cursor_hidden(ops: Seq<ScreenOp>) -> bool;

/// The text on the screen (`vt100::Screen::contents`).
pub uninterp spec fn screen_text(ops: Seq<ScreenOp>) -> Seq<char>;

/// The lesser of two numbers.
pub open spec fn lesser(a: nat, b: nat) -> nat {
    if a < b {
        a
    } else {
        b
    }
}

/// The rows and the columns of the screen.
pub open spec fn grid_size(ops: Seq<ScreenOp>) -> (u16, u16)
    decreases ops.len(),
{
    if ops.len() == 0 {
        (0, 0)
    } else {
        match ops.last() {
            ScreenOp::New { rows, cols, .. } => (rows, cols),
            ScreenOp::Size { rows, cols } => (rows, cols),
            _ => grid_size(ops.drop_last()),
        }
    }
}

/// The rows of history that are kept.
pub open spec fn history_limit(ops: Seq<ScreenOp>) -> nat
    decreases ops.len(),
{
    if ops.len() == 0 {
        0
    } else {
        match ops.last() {
            ScreenOp::New { history, .. } => history as nat,
            _ => history_limit(ops.drop_last()),
        }
    }
}

/// The screen always had room for a line to wrap, for the widest character
/// and for a tab stop past the last column, and it never got smaller. Only
/// then does every sequence of bytes find its place on it: the emulator keeps
/// a saved cursor and both halves of a wide character where they are when the
/// screen shrinks, be it off the screen.
pub open spec fn steady(ops: Seq<ScreenOp>) -> bool
    decreases ops.len(),
{
    if ops.len() == 0 {
        false
    } else {
        match ops.last() {
            ScreenOp::New { rows, cols, .. } => 2 <= rows && 3 <= cols <= 65527,
            ScreenOp::Size { rows, cols } => {
                let before = grid_size(ops.drop_last());
                steady(ops.drop_last()) && before.0 <= rows && before.1 <= cols <= 65527
            },
            _ => steady(ops.drop_last()),
        }
    }
}

/// The deeds of handing over bytes, one by one.
pub open spec fn byte_ops(bytes: Seq<u8>) -> Seq<ScreenOp> {
    bytes.map_values(|b: u8| ScreenOp::Byte(b))
}

/// Bytes change neither the size of the screen, nor how much history is kept,
/// nor whether it is steady.
pub proof fn bytes_keep_frame(ops: Seq<ScreenOp>, bytes: Seq<u8>)
    ensures
        grid_size(ops + byte_ops(bytes)) == grid_size(ops),
        history_limit(ops + byte_ops(bytes)) == history_limit(ops),
        steady(ops + byte_ops(bytes)) == steady(ops),
    decreases bytes.len(),
{
    if bytes.len() == 0 {
        assert(ops + byte_ops(bytes) =~= ops);
    } else {
        bytes_keep_frame(ops, bytes.drop_last());
        assert((ops + byte_ops(bytes)).drop_last() =~= ops + byte_ops(bytes.drop_last()));
    }
}

/// `vt100::Parser::new` makes an emulator of the given size that keeps the
/// given number of rows of history. There is none yet, so its view stands on
/// the live screen. A screen without rows would make it panic.
#[verifier::external_body]
pub(crate) fn new_parser(rows: u16, cols: u16, history: usize) -> (parser: vt100::Parser)
    requires
        rows >= 1,
        cols >= 1,
    ensures
        parser_ops(parser) == seq![ScreenOp::New { rows, cols, history }],
        view_offset(parser_ops(parser)) == 0,
        history_rows(parser_ops(parser)) == 0,
{
    vt100::Parser::new(rows, cols, history)
}

/// `vt100::Parser::process` takes in bytes of program output, one by one. A
/// view that stands on the live screen stays there, and none stands further
/// back than there is history. On a screen that is not steady it may panic.
#[verifier::external_body]
pub(crate) fn process(parser: &mut vt100::Parser, bytes: &[u8])
    requires
        steady(parser_ops(*old(parser))),
    ensures
        parser_ops(*final(parser)) == parser_ops(*old(parser)) + byte_ops(bytes@),
        view_offset(parser_ops(*old(parser))) == 0 ==> view_offset(parser_ops(*final(parser)))
            == 0,
        view_offset(parser_ops(*final(parser))) <= history_rows(parser_ops(*final(parser))),
{
    parser.process(bytes)
}

/// `vt100::Parser::set_size` resizes the screen and leaves the history, and
/// where the view stands in it, as they are. A screen without rows or columns
/// would make it panic.
#[verifier::external_body]
pub(crate) fn set_size(parser: &mut vt100::Parser, rows: u16, cols: u16)
    requires
        rows >= 1,
        cols >= 1,
    ensures
        parser_ops(*final(parser)) == parser_ops(*old(parser)).push(ScreenOp::Size { rows, cols }),
        view_offset(parser_ops(*final(parser))) == view_offset(parser_ops(*old(parser))),
        history_rows(parser_ops(*final(parser))) == history_rows(parser_ops(*old(parser))),
{
    parser.set_size(rows, cols)
}

/// `vt100::Parser::set_scrollback` moves the view back into the history by
/// the given number of rows, or by as many as there are.
#[verifier::external_body]
pub(crate) fn set_scrollback(parser: &mut vt100::Parser, rows: usize)
    ensures
        parser_ops(*final(parser)) == parser_ops(*old(parser)).push(ScreenOp::Back(rows)),
        view_offset(parser_ops(*final(parser))) == lesser(
            rows as nat,
            history_rows(parser_ops(*old(parser))),
        ),
        history_rows(parser_ops(*final(parser))) == history_rows(parser_ops(*old(parser))),
{
    parser.set_scrollback(rows)
}

/// `vt100::Screen::scrollback` tells how far back the view stands, which is
/// never further than history is kept.
#[verifier::external_body]
pub(crate) fn scrollback(parser: &vt100::Parser) -> (offset: usize)
    ensures
        offset == view_offset(parser_ops(*parser)),
        offset <= history_limit(parser_ops(*parser)),
{
    parser.screen().scrollback()
}

/// `vt100::Screen::cell` finds the cell in view at a row and a column, if
/// there is one; `contents`, `fgcolor`, `bgcolor`, `inverse` and
/// `is_wide_continuation` of `vt100::Cell` tell what it holds. With more
/// history in view than the screen has rows it may panic.
#[verifier::external_body]
pub(crate) fn cell(parser: &vt100::Parser, row: u16, col: u16) -> (found: Option<ScreenCell>)
    requires
        view_offset(parser_ops(*parser)) <= grid_size(parser_ops(*parser)).0,
    ensures
        cell_view(found) == shown_cell(parser_ops(*parser), row, col),
{
    let color = |c: vt100::Color| match c {
        vt100::Color::Default => TermColor::Default,
        vt100::Color::Idx(i) => TermColor::Idx(i),
        vt100::Color::Rgb(r, g, b) => TermColor::Rgb(r, g, b),
    };
    parser.screen().cell(row, col).map(|c| ScreenCell {
        text: c.contents(),
        fg: color(c.fgcolor()),
        bg: color(c.bgcolor()),
        inverse: c.inverse(),
        wide_tail: c.is_wide_continuation(),
    })
}

/// `vt100::Screen::cursor_position` tells the row and the column of the
/// cursor.
#[verifier::external_body]
pub(crate) fn cursor_position(parser: &vt100::Parser) -> (pos: (u16, u16))
    ensures
        pos == cursor_at(parser_ops(*parser)),
{
    parser.screen().cursor_position()
}

/// `vt100::Screen::hide_cursor` tells whether the program hid the cursor.
#[verifier::external_body]
pub(crate) fn hide_cursor(parser: &vt100::Parser) -> (hidden: bool)
    ensures
        hidden == cursor_hidden(parser_ops(*parser)),
{
    parser.screen().hide_cursor()
}

/// `vt100::Screen::contents` gives the text in view. With more history in
/// view than the screen has rows, or on a screen that is not steady, it may
/// panic.
#[verifier::external_body]
pub(crate) fn contents(parser: &vt100::Parser) -> (text: String)
    requires
        steady(parser_ops(*parser)),
        view_offset(parser_ops(*parser)) <= grid_size(parser_ops(*parser)).0,
    ensures
        text@ == screen_text(parser_ops(*parser)),
{
    parser.screen().contents()
}

/// A cell of the screen.
pub struct ScreenCell {
    pub text: String,
    pub fg: TermColor,
    pub bg: TermColor,
    pub inverse: bool,
    pub wide_tail: bool,
}

impl View for ScreenCell {
    type V = CellView;

    open spec fn view(&self) -> CellView {
        CellView {
            text: self.text@,
            fg: self.fg,
            bg: self.bg,
            inverse: self.inverse,
            wide_tail: self.wide_tail,
        }
    }
}

/// The view of a cell that may be missing.
pub open spec fn cell_view(cell: Option<ScreenCell>) -> Option<CellView> {
    match cell {
        Some(cell) => Some(cell@),
        None => None,
    }
}

/// The views of a row of cells.
pub open spec fn cell_views(cells: Seq<Option<ScreenCell>>) -> Seq<Option<CellView>> {
    cells.map_values(|cell: Option<ScreenCell>| cell_view(cell))
}

/// How a cell is drawn.
#[derive(Clone, Copy, Debug, PartialEq, Eq, Structural)]
pub struct CellStyle {
    pub fg: TermColor,
    pub bg: TermColor,
    pub inverse: bool,
}

/// The style of a cell. A missing cell has the default colors.
pub open spec fn style_of(cell: Option<CellView>) -> CellStyle {
    match cell {
        Some(cell) => CellStyle { fg: cell.fg, bg: cell.bg, inverse: cell.inverse },
        None => CellStyle { fg: TermColor::Default, bg: TermColor::Default, inverse: false },
    }
}

/// The text of a cell. A missing or empty cell shows as a space.
pub open spec fn text_of(cell: Option<CellView>) -> Seq<char> {
    match cell {
        Some(cell) => if cell.text.len() > 0 {
            cell.text
        } else {
            seq![' ']
        },
        None => seq![' '],
    }
}

/// The style of a cell.
pub fn cell_style(cell: &Option<ScreenCell>) -> (style: CellStyle)
    ensures
        style == style_of(cell_view(*cell)),
{
    match cell {
        Some(cell) => CellStyle { fg: cell.fg, bg: cell.bg, inverse: cell.inverse },
        None => CellStyle { fg: TermColor::Default, bg: TermColor::Default, inverse: false },
    }
}

/// A run of neighbouring cells of one style.
pub struct RunView {
    pub start: int,
    pub end: int,
    pub text: Seq<char>,
    pub style: CellStyle,
}

/// A run of neighbouring cells of one style: the columns `start..end`.
pub struct Run {
    pub start: usize,
    pub end: usize,
    pub text: String,
    pub style: CellStyle,
}

impl View for Run {
    type V = RunView;

    open spec fn view(&self) -> RunView {
        RunView {
            start: self.start as int,
            end: self.end as int,
            text: self.text@,
            style: self.style,
        }
    }
}

pub open spec fn run_views(runs: Seq<Run>) -> Seq<RunView> {
    runs.map_values(|run: Run| run@)
}

/// A row of cells cut into runs, as few as possible.
pub open spec fn runs_of(cells: Seq<Option<CellView>>) -> Seq<RunView>
    decreases cells.len(),
{
    if cells.len() == 0 {
        Seq::empty()
    } else {
        let before = runs_of(cells.drop_last());
        let col = cells.len() - 1;
        let style = style_of(cells.last());
        let text = text_of(cells.last());
        if before.len() > 0 && before.last().style == style {
            before.drop_last().push(
                RunView { end: col + 1, text: before.last().text + text, ..before.last() },
            )
        } else {
            before.push(RunView { start: col, end: col + 1, text, style })
        }
    }
}

/// How one more cell changes the runs of a row: it joins the last run if it is
/// of its style, and otherwise begins one.
proof fn runs_grow(cells: Seq<Option<CellView>>)
    requires
        cells.len() > 0,
    ensures
        ({
            let before = runs_of(cells.drop_last());
            let runs = runs_of(cells);
            let last = runs.last();
            let col = cells.len() - 1;
            &&& runs.len() > 0
            &&& last.style == style_of(cells.last())
            &&& last.end == col + 1
            &&& if before.len() > 0 && before.last().style == last.style {
                &&& runs.drop_last() == before.drop_last()
                &&& last.start == before.last().start
            } else {
                &&& runs.drop_last() == before
                &&& last.start == col
            }
        }),
{
    let before = runs_of(cells.drop_last());
    let runs = runs_of(cells);
    if before.len() > 0 && before.last().style == style_of(cells.last()) {
        assert(runs.drop_last() =~= before.drop_last());
    } else {
        assert(runs.drop_last() =~= before);
    }
}

/// The runs lie in the row, the first at its start and the last at its end.
proof fn runs_lie_in_row(cells: Seq<Option<CellView>>)
    ensures
        ({
            let runs = runs_of(cells);
            &&& cells.len() == 0 <==> runs.len() == 0
            &&& runs.len() > 0 ==> runs.first().start == 0 && runs.last().end == cells.len()
            &&& forall|i: int|
                0 <= i < runs.len() ==> 0 <= (#[trigger] runs[i]).start < runs[i].end
                    <= cells.len()
        }),
    decreases cells.len(),
{
    if cells.len() > 0 {
        let before = runs_of(cells.drop_last());
        let runs = runs_of(cells);
        runs_lie_in_row(cells.drop_last());
        runs_grow(cells);
        assert forall|i: int| 0 <= i < runs.len() - 1 implies #[trigger] runs[i] == before[i] by {
            assert(runs.drop_last()[i] == runs[i]);
        }
    }
}

/// A run begins where the one before it ends, and is of another style.
proof fn run_follows(cells: Seq<Option<CellView>>, i: int)
    requires
        0 < i < runs_of(cells).len(),
    ensures
        runs_of(cells)[i].start == runs_of(cells)[i - 1].end,
        runs_of(cells)[i].style != runs_of(cells)[i - 1].style,
    decreases cells.len(),
{
    if cells.len() > 0 {
        let before = runs_of(cells.drop_last());
        let runs = runs_of(cells);
        runs_grow(cells);
        runs_lie_in_row(cells.drop_last());
        assert(runs.drop_last()[i - 1] == runs[i - 1]);
        assert(runs[i - 1] == before[i - 1]);
        if i < runs.len() - 1 {
            assert(runs.drop_last()[i] == runs[i]);
        }
        if i < before.len() {
            run_follows(cells.drop_last(), i);
        }
    }
}

/// The cells of a run are of its style.
proof fn runs_are_of_one_style(cells: Seq<Option<CellView>>, i: int, k: int)
    requires
        0 <= i < runs_of(cells).len(),
        runs_of(cells)[i].start <= k < runs_of(cells)[i].end,
    ensures
        style_of(cells[k]) == runs_of(cells)[i].style,
    decreases cells.len(),
{
    if cells.len() > 0 {
        let init = cells.drop_last();
        let before = runs_of(init);
        let runs = runs_of(cells);
        let col = cells.len() - 1;
        runs_grow(cells);
        runs_lie_in_row(cells);
        runs_lie_in_row(init);
        if k < col {
            assert(init[k] == cells[k]);
            if i < runs.len() - 1 {
                assert(runs.drop_last()[i] == runs[i]);
                assert(runs[i] == before[i]);
            } else {
                assert(i == before.len() - 1);
            }
            runs_are_of_one_style(init, i, k);
        } else if i < runs.len() - 1 {
            assert(runs.drop_last()[i] == runs[i]);
            assert(before[i].end <= col);
        }
    }
}

/// The runs cover the row from end to end without a gap or an overlap, the
/// cells of a run are of its style, and neighbouring runs differ in style.
#[verifier::spinoff_prover]
pub proof fn runs_partition_row(cells: Seq<Option<CellView>>)
    ensures
        ({
            let runs = runs_of(cells);
            &&& cells.len() > 0 ==> runs.len() > 0 && runs.first().start == 0 && runs.last().end
                == cells.len()
            &&& forall|i: int|
                0 <= i < runs.len() ==> 0 <= (#[trigger] runs[i]).start < runs[i].end
                    <= cells.len()
            &&& forall|i: int|
                0 < i < runs.len() ==> (#[trigger] runs[i]).start == runs[i - 1].end
                    && runs[i].style != runs[i - 1].style
            &&& forall|i: int, k: int|
                0 <= i < runs.len() && runs[i].start <= k < runs[i].end ==> style_of(
                    #[trigger] cells[k],
                ) == (#[trigger] runs[i]).style
        }),
{
    let runs = runs_of(cells);
    runs_lie_in_row(cells);
    assert forall|i: int, k: int|
        0 <= i < runs.len() && runs[i].start <= k < runs[i].end implies style_of(
        #[trigger] cells[k],
    ) == (#[trigger] runs[i]).style by {
        runs_are_of_one_style(cells, i, k);
    }
    assert forall|i: int| 0 < i < runs.len() implies (#[trigger] runs[i]).start == runs[i - 1].end
        && runs[i].style != runs[i - 1].style by {
        run_follows(cells, i);
    }
}

/// Appends what a cell shows.
pub(crate) fn push_cell_text(out: &mut String, cell: &Option<ScreenCell>)
    ensures
        final(out)@ == old(out)@ + text_of(cell_view(*cell)),
{
    match cell {
        Some(cell) => {
            if !cell.text.as_str().is_empty() {
                out.append(cell.text.as_str());
                return;
            }
        },
        None => {},
    }
    out.push(' ');
    assert(out@ =~= old(out)@ + seq![' ']);
}

/// Cuts a row of cells into runs of one style.
pub fn row_runs(cells: &Vec<Option<ScreenCell>>) -> (runs: Vec<Run>)
    ensures
        run_views(runs@) == runs_of(cell_views(cells@)),
{
    let mut runs: Vec<Run> = Vec::new();
    let mut col: usize = 0;
    let ghost views = cell_views(cells@);
    assert(run_views(runs@) =~= runs_of(views.take(0)));
    while col < cells.len()
        invariant
            col <= cells@.len(),
            views == cell_views(cells@),
            run_views(runs@) =~= runs_of(views.take(col as int)),
        decreases cells.len() - col,
    {
        assert(views.take(col + 1).drop_last() =~= views.take(col as int));
        let ghost before = runs@;
        let style = cell_style(&cells[col]);
        let mut extended = false;
        if let Some(mut run) = runs.pop() {
            assert(run_views(runs@) =~= run_views(before).drop_last());
            if run.style == style {
                run.end = col + 1;
                push_cell_text(&mut run.text, &cells[col]);
                extended = true;
            }
            let ghost shorter = runs@;
            runs.push(run);
            assert(run_views(runs@) =~= run_views(shorter).push(run@));
        }
        if !extended {
            assert(run_views(runs@) =~= run_views(before));
            let mut text = String::new();
            push_cell_text(&mut text, &cells[col]);
            assert(text@ =~= text_of(views[col as int]));
            let run = Run { start: col, end: col + 1, text, style };
            runs.push(run);
            assert(run_views(runs@) =~= run_views(before).push(run@));
        }
        col += 1;
    }
    assert(views.take(views.len() as int) =~= views);
    runs
}

/// The cells of a row of the screen.
pub open spec fn shown_row(ops: Seq<ScreenOp>, row: u16, cols: nat) -> Seq<Option<CellView>> {
    Seq::new(cols, |col: int| shown_cell(ops, row, col as u16))
}

/// Reads the first `cols` cells of a row.
pub(crate) fn read_row(parser: &vt100::Parser, row: u16, cols: u16) -> (cells: Vec<Option<ScreenCell>>)
    requires
        view_offset(parser_ops(*parser)) <= grid_size(parser_ops(*parser)).0,
    ensures
        cell_views(cells@) == shown_row(parser_ops(*parser), row, cols as nat),
{
    let mut cells: Vec<Option<ScreenCell>> = Vec::new();
    let mut col: u16 = 0;
    let ghost ops = parser_ops(*parser);
    while col < cols
        invariant
            col <= cols,
            ops == parser_ops(*parser),
            view_offset(ops) <= grid_size(ops).0,
            cell_views(cells@) =~= shown_row(ops, row, col as nat),
        decreases cols - col,
    {
        let found = cell(parser, row, col);
        let ghost before = cells@;
        cells.push(found);
        assert(cell_views(cells@) =~= cell_views(before).push(shown_cell(ops, row, col)));
        col += 1;
    }
    cells
}

/// The background of a terminal where the program chose none.
pub fn term_bg() -> (c: Rgb)
    ensures
        c == rgb(0x1a, 0x1b, 0x1f),
{
    Rgb { r: 0x1a, g: 0x1b, b: 0x1f }
}

/// The foreground of a terminal where the program chose none.
pub fn term_fg() -> (c: Rgb)
    ensures
        c == rgb(0xd4, 0xd4, 0xd4),
{
    Rgb { r: 0xd4, g: 0xd4, b: 0xd4 }
}

/// How a run is painted: the columns `start..end` are filled, if at all, and
/// the text is drawn over them, if it is not blank.
pub struct PaintView {
    pub start: int,
    pub end: int,
    pub fill: Option<Rgb>,
    pub text: Option<Seq<char>>,
    pub fg: Rgb,
}

pub struct Paint {
    pub start: usize,
    pub end: usize,
    pub fill: Option<Rgb>,
    pub text: Option<String>,
    pub fg: Rgb,
}

impl View for Paint {
    type V = PaintView;

    open spec fn view(&self) -> PaintView {
        PaintView {
            start: self.start as int,
            end: self.end as int,
            fill: self.fill,
            text: crate::text::opt_text(self.text),
            fg: self.fg,
        }
    }
}

pub open spec fn paint_views(paints: Seq<Paint>) -> Seq<PaintView> {
    paints.map_values(|paint: Paint| paint@)
}

/// How a run is painted: swapped colors if its style is inverse, a fill only
/// if the background is not the terminal's own.
pub open spec fn painted(run: RunView) -> PaintView {
    let fg = shown_color(run.style.fg, rgb(0xd4, 0xd4, 0xd4));
    let bg = shown_color(run.style.bg, rgb(0x1a, 0x1b, 0x1f));
    PaintView {
        start: run.start,
        end: run.end,
        fill: if run.style.inverse {
            Some(fg)
        } else if run.style.bg != TermColor::Default {
            Some(bg)
        } else {
            None
        },
        text: if trimmed(run.text).len() > 0 {
            Some(run.text)
        } else {
            None
        },
        fg: if run.style.inverse {
            bg
        } else {
            fg
        },
    }
}

/// How a run is painted.
pub fn paint_run(run: Run) -> (paint: Paint)
    ensures
        paint@ == painted(run@),
{
    let raw_fg = to_color(run.style.fg, term_fg());
    let raw_bg = to_color(run.style.bg, term_bg());
    let inverse = run.style.inverse;
    let plain = match run.style.bg {
        TermColor::Default => true,
        _ => false,
    };
    let (fg, bg) = if inverse {
        (raw_bg, raw_fg)
    } else {
        (raw_fg, raw_bg)
    };
    let fill = if inverse || !plain {
        Some(bg)
    } else {
        None
    };
    let visible = !trim(run.text.as_str()).as_str().is_empty();
    let text = if visible {
        Some(run.text)
    } else {
        None
    };
    Paint { start: run.start, end: run.end, fill, text, fg }
}

/// How a row of cells is painted.
pub open spec fn painted_row(cells: Seq<Option<CellView>>) -> Seq<PaintView> {
    runs_of(cells).map_values(|run: RunView| painted(run))
}

/// How a row of cells is painted.
pub fn paint_row(cells: &Vec<Option<ScreenCell>>) -> (paints: Vec<Paint>)
    ensures
        paint_views(paints@) == painted_row(cell_views(cells@)),
{
    let runs = row_runs(cells);
    let ghost all = run_views(runs@);
    let ghost want = painted_row(cell_views(cells@));
    let mut paints: Vec<Paint> = Vec::new();
    for run in it: runs
        invariant
            run_views(it.seq()) == all,
            paint_views(paints@) =~= want.take(it.index()),
            want == all.map_values(|run: RunView| painted(run)),
    {
        let ghost before = paints@;
        let paint = paint_run(run);
        paints.push(paint);
        assert(paint_views(paints@) =~= paint_views(before).push(paint@));
    }
    assert(want.take(want.len() as int) =~= want);
    paints
}

/// A cell shows its text, and a blank where it has none or is missing.
pub proof fn cells_show_their_text(cell: CellView)
    ensures
        cell.text.len() > 0 ==> text_of(Some(cell)) == cell.text,
        cell.text.len() == 0 ==> text_of(Some(cell)) == seq![' '],
        text_of(None) == seq![' '],
        style_of(Some(cell)) == (CellStyle { fg: cell.fg, bg: cell.bg, inverse: cell.inverse }),
        style_of(None) == (CellStyle {
            fg: TermColor::Default,
            bg: TermColor::Default,
            inverse: false,
        }),
{
}

/// A row of the screen holds the cells of that row, column by column.
pub proof fn rows_hold_their_cells(ops: Seq<ScreenOp>, row: u16, cols: nat, col: u16)
    requires
        col < cols,
    ensures
        shown_row(ops, row, cols).len() == cols,
        shown_row(ops, row, cols)[col as int] == shown_cell(ops, row, col),
{
}

/// What neighbouring cells show.
pub open spec fn row_text(cells: Seq<Option<CellView>>) -> Seq<char>
    decreases cells.len(),
{
    if cells.len() == 0 {
        Seq::empty()
    } else {
        row_text(cells.drop_last()) + text_of(cells.last())
    }
}

/// No text is lost, added or moved by cutting a row into runs: the text of a
/// run is what its cells show, in order.
pub proof fn runs_hold_the_text(cells: Seq<Option<CellView>>, i: int)
    requires
        0 <= i < runs_of(cells).len(),
    ensures
        ({
            let run = runs_of(cells)[i];
            &&& 0 <= run.start < run.end <= cells.len()
            &&& run.text == row_text(cells.subrange(run.start, run.end))
        }),
    decreases cells.len(),
{
    if cells.len() > 0 {
        let init = cells.drop_last();
        let before = runs_of(init);
        let runs = runs_of(cells);
        let run = runs[i];
        runs_grow(cells);
        runs_lie_in_row(cells);
        runs_lie_in_row(init);
        let mine = cells.subrange(run.start, run.end);
        if i < runs.len() - 1 {
            assert(runs.drop_last()[i] == runs[i]);
            assert(runs[i] == before[i]);
            runs_hold_the_text(init, i);
            assert(init.subrange(run.start, run.end) =~= mine);
        } else {
            assert(mine.last() == cells.last());
            if before.len() > 0 && before.last().style == run.style {
                runs_hold_the_text(init, i);
                assert(mine.drop_last() =~= init.subrange(before[i].start, before[i].end));
            } else {
                assert(mine.len() == 1);
                assert(mine.drop_last() =~= Seq::<Option<CellView>>::empty());
                assert(row_text(mine.drop_last()) =~= Seq::<char>::empty());
                assert(row_text(mine) == row_text(mine.drop_last()) + text_of(mine.last()));
                assert(row_text(mine) =~= text_of(cells.last()));
            }
        }
    }
}

/// Every cell of a row is painted as it is: by a paint over its column, whose
/// text is what the cells under it show, unless that is blank. The foreground
/// and the background are those that the cell asks for, or the terminal's own;
/// they change places if the cell is inverse; and the background is filled
/// only if it is not the terminal's own.
pub proof fn cells_are_painted_as_they_are(cells: Seq<Option<CellView>>, k: int)
    requires
        0 <= k < cells.len(),
    ensures
        ({
            let style = style_of(cells[k]);
            let fg = shown_color(style.fg, Rgb { r: 0xd4, g: 0xd4, b: 0xd4 });
            let bg = shown_color(style.bg, Rgb { r: 0x1a, g: 0x1b, b: 0x1f });
            exists|i: int|
                {
                    let paint = #[trigger] painted_row(cells)[i];
                    &&& 0 <= i < painted_row(cells).len()
                    &&& 0 <= paint.start <= k < paint.end <= cells.len()
                    &&& style.inverse ==> paint.fill == Some(fg) && paint.fg == bg
                    &&& !style.inverse ==> paint.fg == fg
                    &&& !style.inverse && style.bg == TermColor::Default ==> paint.fill is None
                    &&& !style.inverse && style.bg != TermColor::Default ==> paint.fill == Some(bg)
                    &&& ({
                        let text = row_text(cells.subrange(paint.start, paint.end));
                        if trimmed(text).len() > 0 {
                            paint.text == Some(text)
                        } else {
                            paint.text is None
                        }
                    })
                }
        }),
{
    let runs = runs_of(cells);
    let i = run_over(cells, k);
    runs_are_of_one_style(cells, i, k);
    runs_hold_the_text(cells, i);
    assert(painted_row(cells)[i] == painted(runs[i]));
}

/// Finds the run over a column.
proof fn run_over(cells: Seq<Option<CellView>>, k: int) -> (i: int)
    requires
        0 <= k < cells.len(),
    ensures
        0 <= i < runs_of(cells).len(),
        runs_of(cells)[i].start <= k < runs_of(cells)[i].end,
    decreases cells.len(),
{
    let init = cells.drop_last();
    let before = runs_of(init);
    let runs = runs_of(cells);
    runs_grow(cells);
    runs_lie_in_row(cells);
    runs_lie_in_row(init);
    if k == cells.len() - 1 {
        runs.len() - 1
    } else {
        let i = run_over(init, k);
        if i < runs.len() - 1 {
            assert(runs.drop_last()[i] == runs[i]);
            assert(runs[i] == before[i]);
        } else {
            assert(i == before.len() - 1);
        }
        i
    }
}

} // verus!
