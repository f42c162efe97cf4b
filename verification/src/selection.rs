//! Text of a terminal that is selected with the mouse: which cells it covers,
//! and the text in them.
use crate::app::{ids_unmoved, RsTermApp};
use crate::node::{Node, NodeKind, Selection, TerminalNode};
use crate::screen::{
    cell_view, cell_views, push_cell_text, read_row, scrollback, shown_row, text_of, CellView,
    ScreenCell,
};
use crate::terminal::PtyTerminal;
use crate::text::{only_the_end_is_taken_off, trim_end_matches, without_end};
use vstd::prelude::*;

verus! {

/// The cell `a` is `b` or is read before it.
pub open spec fn read_by(a: (u16, u16), b: (u16, u16)) -> bool {
    a.0 < b.0 || (a.0 == b.0 && a.1 <= b.1)
}

impl Selection {
    /// The first cell in reading order.
    pub open spec fn first(self) -> (u16, u16) {
        if read_by(self.anchor, self.head) {
            self.anchor
        } else {
            self.head
        }
    }

    /// The last cell in reading order.
    pub open spec fn last(self) -> (u16, u16) {
        if read_by(self.anchor, self.head) {
            self.head
        } else {
            self.anchor
        }
    }

    /// The cell is selected: it is read from the first to the last one, both
    /// included.
    pub open spec fn covers(self, row: u16, col: u16) -> bool {
        read_by(self.first(), (row, col)) && read_by((row, col), self.last())
    }

    /// The first and the last cell in reading order.
    fn ends(self) -> (ends: ((u16, u16), (u16, u16)))
        ensures
            ends.0 == self.first(),
            ends.1 == self.last(),
    {
        let (ar, ac) = self.anchor;
        let (hr, hc) = self.head;
        if ar < hr || (ar == hr && ac <= hc) {
            (self.anchor, self.head)
        } else {
            (self.head, self.anchor)
        }
    }

    /// Where the selected columns of a row begin.
    pub open spec fn from_col(self, row: u16) -> u16 {
        if row == self.first().0 {
            self.first().1
        } else {
            0
        }
    }

    /// Where the selected columns of a row of `cols` cells end.
    pub open spec fn to_col(self, row: u16, cols: u16) -> u16 {
        if row == self.last().0 && self.last().1 < cols {
            (self.last().1 + 1) as u16
        } else {
            cols
        }
    }

    /// The selected columns of a row of `cols` cells, from the first up to but
    /// not including the second, if any are.
    pub fn columns(self, row: u16, cols: u16) -> (range: Option<(u16, u16)>)
        ensures
            match range {
                Some((from, to)) => {
                    &&& from == self.from_col(row)
                    &&& to == self.to_col(row, cols)
                    &&& from < to <= cols
                    &&& forall|col: u16| col < cols ==> (from <= col < to <==> self.covers(row, col))
                },
                None => {
                    &&& row < self.first().0 || row > self.last().0 || self.from_col(row)
                        >= self.to_col(row, cols)
                    &&& forall|col: u16| col < cols ==> !self.covers(row, col)
                },
            },
    {
        let (first, last) = self.ends();
        if row < first.0 || row > last.0 {
            return None;
        }
        let from: u16 = if row == first.0 {
            first.1
        } else {
            0
        };
        let to: u16 = if row == last.0 && last.1 < cols {
            last.1 + 1
        } else {
            cols
        };
        if from < to {
            Some((from, to))
        } else {
            None
        }
    }
}

/// A selection is the same whichever way it was drawn.
pub proof fn selections_have_no_direction(s: Selection, row: u16, col: u16)
    ensures
        ({
            let back = Selection { anchor: s.head, head: s.anchor };
            &&& back.first() == s.first()
            &&& back.last() == s.last()
            &&& back.covers(row, col) == s.covers(row, col)
        }),
{
}

/// The anchor and the head are selected, and so is every cell that is read
/// between two selected ones.
pub proof fn selections_hold_together(s: Selection, a: (u16, u16), b: (u16, u16), c: (u16, u16))
    requires
        s.covers(a.0, a.1),
        s.covers(c.0, c.1),
        read_by(a, b),
        read_by(b, c),
    ensures
        s.covers(s.anchor.0, s.anchor.1),
        s.covers(s.head.0, s.head.1),
        s.covers(b.0, b.1),
{
}

/// The text that a cell adds to a copy: what it shows, and nothing for the
/// second half of a wide character.
pub open spec fn copied_text_of(cell: Option<CellView>) -> Seq<char> {
    if cell is Some && cell->0.wide_tail {
        Seq::empty()
    } else {
        text_of(cell)
    }
}

/// The text of neighbouring cells.
pub open spec fn cells_text(cells: Seq<Option<CellView>>) -> Seq<char>
    decreases cells.len(),
{
    if cells.len() == 0 {
        Seq::empty()
    } else {
        cells_text(cells.drop_last()) + copied_text_of(cells.last())
    }
}

/// The selected text of a row, without blanks at its end.
pub open spec fn row_copy(s: Selection, row: u16, cells: Seq<Option<CellView>>) -> Seq<char> {
    let from = s.from_col(row) as int;
    let to = s.to_col(row, cells.len() as u16) as int;
    if from < to {
        without_end(cells_text(cells.subrange(from, to)), ' ')
    } else {
        Seq::empty()
    }
}

/// The selected text of the first `n` rows from `row` on, a line feed between
/// the rows.
pub open spec fn rows_copy(term: PtyTerminal, s: Selection, row: int, n: nat) -> Seq<char>
    decreases n,
{
    if n == 0 {
        Seq::empty()
    } else {
        let here = (row + n - 1) as u16;
        let text = row_copy(s, here, shown_row(term.ops(), here, term.cols as nat));
        if n == 1 {
            text
        } else {
            rows_copy(term, s, row, (n - 1) as nat).push('\n') + text
        }
    }
}

/// How many rows of the screen are selected.
pub open spec fn selected_rows(term: PtyTerminal, s: Selection) -> nat {
    if s.first().0 >= term.rows {
        0
    } else if s.last().0 >= term.rows {
        (term.rows - s.first().0) as nat
    } else {
        (s.last().0 - s.first().0 + 1) as nat
    }
}

/// The selected text of a terminal, in reading order.
pub open spec fn copy_of(term: PtyTerminal, s: Selection) -> Seq<char> {
    rows_copy(term, s, s.first().0 as int, selected_rows(term, s))
}

/// The selected text of a row of cells.
fn copy_row(s: Selection, row: u16, cells: &Vec<Option<ScreenCell>>) -> (text: String)
    requires
        cells@.len() <= u16::MAX,
        s.first().0 <= row <= s.last().0,
    ensures
        text@ == row_copy(s, row, cell_views(cells@)),
{
    let ghost views = cell_views(cells@);
    let (from, to): (u16, u16) = match s.columns(row, cells.len() as u16) {
        Some(range) => range,
        None => return String::new(),
    };
    let mut text = String::new();
    let mut col: u16 = from;
    assert(views.subrange(from as int, from as int) =~= Seq::empty());
    while col < to
        invariant
            from <= col <= to <= cells@.len(),
            views == cell_views(cells@),
            text@ =~= cells_text(views.subrange(from as int, col as int)),
        decreases to - col,
    {
        let ghost seen = views.subrange(from as int, col as int);
        let ghost more = views.subrange(from as int, col + 1);
        assert(more.drop_last() =~= seen);
        assert(more.last() == cell_view(cells@[col as int]));
        let tail = match &cells[col as usize] {
            Some(cell) => cell.wide_tail,
            None => false,
        };
        if !tail {
            push_cell_text(&mut text, &cells[col as usize]);
        }
        col += 1;
    }
    trim_end_matches(text.as_str(), ' ')
}

impl PtyTerminal {
    /// The selected text, in reading order, unless more history is in view
    /// than the emulator can show.
    pub fn selected_text(&self, s: Selection) -> (text: Option<String>)
        requires
            self.wf(),
        ensures
            text is Some <==> self.view_fits(),
            text matches Some(text) ==> text@ == copy_of(*self, s),
    {
        if scrollback(&self.parser) > self.rows as usize {
            return None;
        }
        let (first, last) = s.ends();
        let mut text = String::new();
        if first.0 >= self.rows {
            return Some(text);
        }
        let end: u16 = if last.0 >= self.rows {
            self.rows - 1
        } else {
            last.0
        };
        let mut row: u16 = first.0;
        while row <= end
            invariant
                self.wf(),
                self.view_fits(),
                first == s.first(),
                last == s.last(),
                first.0 <= row <= end + 1,
                end < self.rows,
                end <= last.0,
                text@ == rows_copy(*self, s, first.0 as int, (row - first.0) as nat),
            decreases end + 1 - row,
        {
            let cells = read_row(&self.parser, row, self.cols);
            assert(cells@.len() == cell_views(cells@).len());
            let line = copy_row(s, row, &cells);
            if row > first.0 {
                text.push('\n');
            }
            text.append(line.as_str());
            assert(text@ =~= rows_copy(*self, s, first.0 as int, (row - first.0 + 1) as nat));
            row += 1;
        }
        Some(text)
    }
}

/// The cell of a terminal's screen that is nearest to a row and a column.
pub open spec fn nearest_cell(term: PtyTerminal, at: (u16, u16)) -> (u16, u16) {
    (
        if at.0 < term.rows {
            at.0
        } else {
            (term.rows - 1) as u16
        },
        if at.1 < term.cols {
            at.1
        } else {
            (term.cols - 1) as u16
        },
    )
}

/// What is selected after the pointer was pressed (`begins`), or dragged, to a
/// cell.
pub open spec fn selection_after(
    before: Option<Selection>,
    begins: bool,
    cell: (u16, u16),
) -> Option<Selection> {
    if begins {
        Some(Selection { anchor: cell, head: cell })
    } else {
        match before {
            Some(s) => Some(Selection { anchor: s.anchor, head: cell }),
            None => None,
        }
    }
}

/// A terminal card with another selection.
pub open spec fn with_selection(node: Node, selection: Option<Selection>) -> Node {
    let holder = TerminalNode { selection, ..node.kind->Terminal_0 };
    Node { kind: NodeKind::Terminal(holder), ..node }
}

impl RsTermApp {
    /// What is selected in the terminal of a card of the active canvas.
    pub open spec fn selection_at(self, i: int) -> Option<Selection> {
        match self.current().nodes@[i].kind {
            NodeKind::Terminal(t) => t.selection,
            NodeKind::Note(_) => None,
        }
    }

    /// Starts to select text in the terminal of a card of the active canvas
    /// (`begins`), or extends what is selected, to the cell under the pointer.
    pub fn select(&mut self, i: usize, begins: bool, at: (u16, u16))
        requires
            old(self).wf(),
            i < old(self).current().nodes@.len(),
        ensures
            final(self).wf(),
            old(self).ids_sound() ==> final(self).ids_sound(),
            match old(self).term_at(i as int) {
                None => *final(self) == *old(self),
                Some(term) => final(self).has_new_node(
                    *old(self),
                    i as int,
                    with_selection(
                        old(self).current().nodes@[i as int],
                        selection_after(
                            old(self).selection_at(i as int),
                            begins,
                            nearest_cell(term, at),
                        ),
                    ),
                ),
            },
    {
        if !self.has_terminal(i) {
            return;
        }
        let a = self.active;
        if let NodeKind::Terminal(t) = &mut self.canvases[a].nodes[i].kind {
            let (rows, cols): (u16, u16) = match &t.term {
                Some(term) => (term.rows, term.cols),
                None => (1, 1),
            };
            let row: u16 = if at.0 < rows {
                at.0
            } else {
                rows - 1
            };
            let col: u16 = if at.1 < cols {
                at.1
            } else {
                cols - 1
            };
            if begins {
                t.selection = Some(Selection { anchor: (row, col), head: (row, col) });
            } else if let Some(s) = t.selection {
                t.selection = Some(Selection { anchor: s.anchor, head: (row, col) });
            }
        }
        proof {
            ids_unmoved(*old(self), *self);
        }
    }

    /// The text to copy from a card of the active canvas: what is selected in
    /// its terminal. There is none if nothing is, or if more history is in
    /// view than the emulator can show.
    pub fn copied_text(&self, i: usize) -> (text: Option<String>)
        requires
            self.wf(),
            i < self.current().nodes@.len(),
        ensures
            match (self.term_at(i as int), self.selection_at(i as int)) {
                (Some(term), Some(s)) => {
                    &&& text is Some <==> term.view_fits()
                    &&& text matches Some(text) ==> text@ == copy_of(term, s)
                },
                _ => text is None,
            },
    {
        match &self.canvases[self.active].nodes[i].kind {
            NodeKind::Terminal(t) => match (&t.term, t.selection) {
                (Some(term), Some(s)) => term.selected_text(s),
                _ => None,
            },
            NodeKind::Note(_) => None,
        }
    }
}

/// Within the selected rows, the selected cells of a row are those of its
/// columns: from the first selected cell in the first row and from the left in
/// the others, up to the last selected cell in the last row and to the right
/// in the others.
pub proof fn columns_are_what_is_covered(s: Selection, row: u16, col: u16, cols: u16)
    requires
        s.first().0 <= row <= s.last().0,
        col < cols,
    ensures
        s.covers(row, col) <==> s.from_col(row) <= col < s.to_col(row, cols),
        s.first() == s.anchor || s.first() == s.head,
        s.last() == s.anchor || s.last() == s.head,
        row > s.first().0 ==> s.from_col(row) == 0,
        row < s.last().0 ==> s.to_col(row, cols) == cols,
{
}

/// The text of cells side by side is the text of the left ones and then that of
/// the right ones; one cell adds what it shows, and the second half of a wide
/// character adds nothing.
pub proof fn cells_add_their_text(
    a: Seq<Option<CellView>>,
    b: Seq<Option<CellView>>,
    cell: Option<CellView>,
)
    ensures
        cells_text(a + b) == cells_text(a) + cells_text(b),
        cells_text(seq![cell]) == match cell {
            Some(c) => if c.wide_tail {
                Seq::<char>::empty()
            } else if c.text.len() > 0 {
                c.text
            } else {
                seq![' ']
            },
            None => seq![' '],
        },
    decreases b.len(),
{
    let one = seq![cell];
    assert(one.drop_last() =~= Seq::<Option<CellView>>::empty());
    assert(cells_text(one.drop_last()) =~= Seq::<char>::empty());
    assert(cells_text(one) =~= copied_text_of(cell));
    if b.len() == 0 {
        assert(a + b =~= a);
        assert(cells_text(a) + cells_text(b) =~= cells_text(a));
    } else {
        cells_add_their_text(a, b.drop_last(), cell);
        assert((a + b).drop_last() =~= a + b.drop_last());
        assert(cells_text(a + b) =~= cells_text(a) + cells_text(b));
    }
}

/// The copy of a selected row is the text of its selected cells, but for blanks
/// at its end.
pub proof fn rows_are_copied_whole(s: Selection, row: u16, cells: Seq<Option<CellView>>)
    requires
        cells.len() <= u16::MAX,
        s.from_col(row) < s.to_col(row, cells.len() as u16),
    ensures
        ({
            let text = cells_text(
                cells.subrange(s.from_col(row) as int, s.to_col(row, cells.len() as u16) as int),
            );
            let copy = row_copy(s, row, cells);
            &&& copy.len() <= text.len()
            &&& copy == text.take(copy.len() as int)
            &&& forall|k: int| copy.len() <= k < text.len() ==> #[trigger] text[k] == ' '
            &&& copy.len() > 0 ==> copy.last() != ' '
        }),
{
    only_the_end_is_taken_off(
        cells_text(
            cells.subrange(s.from_col(row) as int, s.to_col(row, cells.len() as u16) as int),
        ),
        ' ',
    );
}

/// The copy of a selection is that of its rows on the screen, from the first to
/// the last, with a line feed between each two.
pub proof fn copies_go_row_by_row(term: PtyTerminal, s: Selection, n: nat)
    requires
        s.first().0 < term.rows,
        s.first().0 + n < u16::MAX,
    ensures
        ({
            let top = s.first().0;
            let row = (top + n) as u16;
            let line = row_copy(s, row, shown_row(term.ops(), row, term.cols as nat));
            &&& n > 0 ==> rows_copy(term, s, top as int, n + 1) == rows_copy(
                term,
                s,
                top as int,
                n,
            ).push('\n') + line
            &&& n == 0 ==> rows_copy(term, s, top as int, n + 1) == line
        }),
        s.last().0 < term.rows ==> copy_of(term, s) == rows_copy(
            term,
            s,
            s.first().0 as int,
            (s.last().0 - s.first().0 + 1) as nat,
        ),
        s.last().0 >= term.rows ==> copy_of(term, s) == rows_copy(
            term,
            s,
            s.first().0 as int,
            (term.rows - s.first().0) as nat,
        ),
{
}

/// The pointer selects the cell under it, or the nearest one on the screen. A
/// press selects that cell alone; a drag moves the head there and leaves the
/// anchor, if anything is selected.
pub proof fn the_head_follows_the_pointer(
    term: PtyTerminal,
    before: Option<Selection>,
    at: (u16, u16),
)
    requires
        term.wf(),
    ensures
        ({
            let cell = nearest_cell(term, at);
            &&& cell.0 < term.rows && cell.1 < term.cols
            &&& at.0 < term.rows ==> cell.0 == at.0
            &&& at.1 < term.cols ==> cell.1 == at.1
            &&& at.0 >= term.rows ==> cell.0 == term.rows - 1
            &&& at.1 >= term.cols ==> cell.1 == term.cols - 1
            &&& selection_after(before, true, cell) == Some(
                Selection { anchor: cell, head: cell },
            )
            &&& before is None ==> selection_after(before, false, cell) is None
            &&& before matches Some(s) ==> selection_after(before, false, cell) == Some(
                Selection { anchor: s.anchor, head: cell },
            )
        }),
{
}

/// Selecting changes nothing of a card but its selection.
pub proof fn selecting_keeps_the_rest(node: Node, selection: Option<Selection>)
    requires
        node.kind is Terminal,
    ensures
        ({
            let after = with_selection(node, selection);
            let t = node.kind->Terminal_0;
            &&& after.kind == NodeKind::Terminal(TerminalNode { selection, ..t })
            &&& (after.id, after.pos, after.size) == (node.id, node.pos, node.size)
            &&& (after.title, after.label) == (node.title, node.label)
            &&& (after.glow_start, after.restore) == (node.glow_start, node.restore)
        }),
{
}

/// Rows are read from the top, and each from the left.
pub proof fn reading_goes_down_and_right(row: u16, col: u16, lower: u16, right: u16, any: u16)
    requires
        row < lower,
        col < right,
    ensures
        read_by((row, any), (lower, col)) && !read_by((lower, col), (row, any)),
        read_by((row, col), (row, right)) && !read_by((row, right), (row, col)),
        read_by((row, col), (row, col)),
{
}

/// Nothing is copied where nothing is selected: of a row without selected
/// columns, and of a selection below the screen.
pub proof fn nothing_is_copied_of_nothing(
    term: PtyTerminal,
    s: Selection,
    row: u16,
    cells: Seq<Option<CellView>>,
)
    ensures
        s.from_col(row) >= s.to_col(row, cells.len() as u16) ==> row_copy(s, row, cells).len() == 0,
        s.first().0 >= term.rows ==> copy_of(term, s).len() == 0,
{
}

} // verus!
