//! Flowing cells of one width across lines of a given width. A cell goes on
//! the current line while it fits there; when it does not, a line break
//! comes first and the cell starts the next line.

use vstd::prelude::*;

verus! {

/// Where the next cell would start on the current line.
#[derive(Clone, Copy, Debug, PartialEq, Eq, Structural)]
pub struct Cursor {
    /// The columns already taken on the line.
    pub offset: usize,
}

/// Where a cell went.
#[derive(Clone, Copy, Debug, PartialEq, Eq, Structural)]
pub struct Placement {
    /// A line break comes before the cell.
    pub wrapped: bool,
    /// The column in which the cell starts.
    pub column: usize,
    /// The cursor behind the cell.
    pub next: Cursor,
}

/// The text of a line break.
pub open spec fn newline() -> Seq<char> {
    seq!['\n']
}

/// A cell of `step` columns does not fit behind `offset` on a line of
/// `width` columns: less than `step` columns are left.
pub open spec fn wraps(offset: int, width: int, step: int) -> bool {
    width - offset < step
}

/// The column in which a cell starts that is placed at `offset`.
pub open spec fn column(offset: int, width: int, step: int) -> int {
    if wraps(offset, width, step) {
        0
    } else {
        offset
    }
}

/// The offset behind a cell that is placed at `offset`.
pub open spec fn advance(offset: int, width: int, step: int) -> int {
    column(offset, width, step) + step
}

/// The offset at which cell `n` is placed, the first one at `start`.
pub open spec fn offset_at(n: nat, start: int, width: int, step: int) -> int
    decreases n,
{
    if n == 0 {
        start
    } else {
        advance(offset_at((n - 1) as nat, start, width, step), width, step)
    }
}

/// How many of the first `n` cells have a line break before them.
pub open spec fn breaks(n: nat, start: int, width: int, step: int) -> nat
    decreases n,
{
    if n == 0 {
        0
    } else {
        breaks((n - 1) as nat, start, width, step) + if wraps(
            offset_at((n - 1) as nat, start, width, step),
            width,
            step,
        ) {
            1nat
        } else {
            0nat
        }
    }
}

/// What is written for one cell that is placed at `offset`: the cell, with a
/// line break before it where it does not fit.
pub open spec fn placed(cell: Seq<char>, offset: int, width: int, step: int) -> Seq<Seq<char>> {
    if wraps(offset, width, step) {
        seq![newline(), cell]
    } else {
        seq![cell]
    }
}

/// What is written for a run of cells, the first placed at `start`: each
/// cell as one piece, in order, with line breaks as pieces between them.
pub open spec fn flow(cells: Seq<Seq<char>>, start: int, width: int, step: int) -> Seq<Seq<char>>
    decreases cells.len(),
{
    if cells.len() == 0 {
        Seq::empty()
    } else {
        flow(cells.drop_last(), start, width, step) + placed(
            cells.last(),
            offset_at((cells.len() - 1) as nat, start, width, step),
            width,
            step,
        )
    }
}

/// The place of cell `i` among the pieces written for a run of cells.
pub open spec fn piece_of(i: nat, start: int, width: int, step: int) -> int {
    i as int + breaks(i + 1, start, width, step) as int
}

/// Placing one run of cells after another is placing them all in one go.
pub proof fn lemma_flow_append(
    a: Seq<Seq<char>>,
    b: Seq<Seq<char>>,
    start: int,
    width: int,
    step: int,
)
    ensures
        flow(a + b, start, width, step) == flow(a, start, width, step) + flow(
            b,
            offset_at(a.len(), start, width, step),
            width,
            step,
        ),
        offset_at((a + b).len(), start, width, step) == offset_at(
            b.len(),
            offset_at(a.len(), start, width, step),
            width,
            step,
        ),
    decreases b.len(),
{
    let mid = offset_at(a.len(), start, width, step);
    if b.len() == 0 {
        assert(a + b =~= a);
        assert(flow(a, start, width, step) + flow(b, mid, width, step) =~= flow(
            a,
            start,
            width,
            step,
        ));
    } else {
        let c = b.drop_last();
        lemma_flow_append(a, c, start, width, step);
        assert((a + b).drop_last() =~= a + c);
        assert((a + b).last() == b.last());
        let at = offset_at(c.len(), mid, width, step);
        assert(offset_at((a + c).len(), start, width, step) == at);
        assert(flow(a + b, start, width, step) == flow(a + c, start, width, step) + placed(
            b.last(),
            at,
            width,
            step,
        ));
        assert(flow(a + b, start, width, step) =~= flow(a, start, width, step) + flow(
            b,
            mid,
            width,
            step,
        ));
    }
}

/// What is written for a single cell is what is written for a run of one.
pub proof fn lemma_flow_one(cell: Seq<char>, start: int, width: int, step: int)
    ensures
        flow(seq![cell], start, width, step) == placed(cell, start, width, step),
        offset_at(1, start, width, step) == advance(start, width, step),
{
    let one = seq![cell];
    assert(one.drop_last() =~= Seq::empty());
    assert(flow(one.drop_last(), start, width, step) =~= Seq::empty());
    assert(offset_at(0, start, width, step) == start);
    assert(flow(one, start, width, step) =~= placed(cell, start, width, step));
}

/// Once a cell is placed, the line holds no more than the terminal is wide,
/// unless that cell alone is wider.
pub proof fn lemma_offset_bound(n: nat, start: int, width: int, step: int)
    requires
        0 <= start,
        0 <= step,
        n > 0,
    ensures
        step <= offset_at(n, start, width, step),
        offset_at(n, start, width, step) <= width || offset_at(n, start, width, step) == step,
    decreases n,
{
    if n > 1 {
        lemma_offset_bound((n - 1) as nat, start, width, step);
    } else {
        assert(offset_at(0, start, width, step) == start);
    }
}

/// The flow of cells across lines. For every cell `i` of a run:
/// it is written whole, as one piece; a line break is the piece before it
/// when less than a cell's width was left on the line; when enough was left,
/// the piece before it is the cell before it, or it is the first piece; and
/// the cell ends within the width of the terminal or starts its line.
pub proof fn lemma_flow_keeps_cells_whole(
    cells: Seq<Seq<char>>,
    start: int,
    width: int,
    step: int,
    i: int,
)
    requires
        0 <= i < cells.len(),
        0 <= start,
        0 <= step,
    ensures
        flow(cells, start, width, step).len() == cells.len() + breaks(
            cells.len(),
            start,
            width,
            step,
        ),
        0 <= piece_of(i as nat, start, width, step) < flow(cells, start, width, step).len(),
        flow(cells, start, width, step)[piece_of(i as nat, start, width, step)] == cells[i],
        wraps(offset_at(i as nat, start, width, step), width, step) ==> piece_of(
            i as nat,
            start,
            width,
            step,
        ) >= 1 && flow(cells, start, width, step)[piece_of(i as nat, start, width, step) - 1]
            == newline(),
        !wraps(offset_at(i as nat, start, width, step), width, step) && i > 0 ==> piece_of(
            i as nat,
            start,
            width,
            step,
        ) >= 1 && flow(cells, start, width, step)[piece_of(i as nat, start, width, step) - 1]
            == cells[i - 1],
        !wraps(offset_at(i as nat, start, width, step), width, step) && i == 0 ==> piece_of(
            i as nat,
            start,
            width,
            step,
        ) == 0,
        column(offset_at(i as nat, start, width, step), width, step) + step <= width || column(
            offset_at(i as nat, start, width, step),
            width,
            step,
        ) == 0,
    decreases cells.len(),
{
    let rest = cells.drop_last();
    let last = (cells.len() - 1) as nat;
    let at = offset_at(last, start, width, step);
    let whole = flow(cells, start, width, step);
    let head = flow(rest, start, width, step);
    lemma_flow_len(rest, start, width, step);
    lemma_flow_len(cells, start, width, step);
    assert(whole == head + placed(cells.last(), at, width, step));
    if i < last {
        lemma_flow_keeps_cells_whole(rest, start, width, step, i);
        assert(rest[i] == cells[i]);
        if i > 0 {
            assert(rest[i - 1] == cells[i - 1]);
        }
        let p = piece_of(i as nat, start, width, step);
        assert(whole[p] == head[p]);
        if p >= 1 {
            assert(whole[p - 1] == head[p - 1]);
        }
    } else {
        assert(piece_of(i as nat, start, width, step) == whole.len() - 1);
        if !wraps(at, width, step) && i > 0 {
            lemma_flow_keeps_cells_whole(rest, start, width, step, i - 1);
            assert(rest[i - 1] == cells[i - 1]);
            let q = piece_of((i - 1) as nat, start, width, step);
            assert(q == head.len() - 1);
            assert(whole[q] == head[q]);
        }
    }
}

/// As many pieces are written as there are cells and line breaks.
pub proof fn lemma_flow_len(cells: Seq<Seq<char>>, start: int, width: int, step: int)
    ensures
        flow(cells, start, width, step).len() == cells.len() + breaks(
            cells.len(),
            start,
            width,
            step,
        ),
    decreases cells.len(),
{
    if cells.len() > 0 {
        lemma_flow_len(cells.drop_last(), start, width, step);
    }
}

impl Cursor {
    /// The cursor at the start of a line.
    pub fn start() -> (cursor: Cursor)
        ensures
            cursor.offset == 0,
    {
        Cursor { offset: 0 }
    }

    /// Places a cell of `step` columns on a line of `width` columns: behind
    /// the cursor where at least `step` columns are left, else at the start
    /// of the next line.
    pub fn place(self, width: usize, step: usize) -> (p: Placement)
        ensures
            p.wrapped == wraps(self.offset as int, width as int, step as int),
            p.column == column(self.offset as int, width as int, step as int),
            p.next.offset == advance(self.offset as int, width as int, step as int),
            p.column + step <= width || p.column == 0,
    {
        if self.offset > width || width - self.offset < step {
            Placement { wrapped: true, column: 0, next: Cursor { offset: step } }
        } else {
            Placement {
                wrapped: false,
                column: self.offset,
                next: Cursor { offset: self.offset + step },
            }
        }
    }
}

/// Cells are written in their order: a later cell is a later piece.
pub proof fn lemma_pieces_in_order(i: nat, j: nat, start: int, width: int, step: int)
    requires
        i < j,
    ensures
        piece_of(i, start, width, step) < piece_of(j, start, width, step),
    decreases j,
{
    if i + 1 < j {
        lemma_pieces_in_order(i, (j - 1) as nat, start, width, step);
    }
}

} // verus!
