use vstd::prelude::*;

use crate::snapshot::names;

verus! {

/// The pane that a tab is shown in.
#[derive(Clone, Copy, Debug, PartialEq, Eq, Structural)]
pub enum Status {
    /// The focused directory, in the left half of the terminal.
    Primary,
    /// The preview of the directory under the cursor, in the right half.
    Secondary,
    /// A cached parent directory; its pane is not drawn.
    Parent,
}

/// How printed text looks.
#[derive(Clone, Copy, Debug, PartialEq, Eq, Structural)]
pub enum Style {
    /// The terminal's default colors.
    Plain,
    /// An entry of a listing: white text.
    Listing,
    /// The entry under the cursor: black text on blue.
    Highlight,
}

/// One command to the terminal.
#[derive(Debug, PartialEq, Eq)]
pub enum TermOp {
    /// Blank the whole screen; the cursor stays.
    ClearAll,
    /// Put the cursor at a column and a row, both counted from 0.
    MoveTo { col: u16, row: u16 },
    /// Print text at the cursor, which moves past it.
    Print { text: String, style: Style },
}

/// A terminal command as a value of the screen model.
pub enum Op {
    ClearAll,
    MoveTo(int, int),
    Print(Seq<char>, Style),
}

impl TermOp {
    pub open spec fn view(&self) -> Op {
        match self {
            TermOp::ClearAll => Op::ClearAll,
            TermOp::MoveTo { col, row } => Op::MoveTo(*col as int, *row as int),
            TermOp::Print { text, style } => Op::Print(text@, *style),
        }
    }
}

pub open spec fn ops_view(ops: Seq<TermOp>) -> Seq<Op> {
    ops.map_values(|o: TermOp| o.view())
}

/// The terminal's size and the cursor position that every rendering returns to.
#[derive(Clone, Copy, Debug, PartialEq, Eq, Structural)]
pub struct Viewport {
    pub width: u16,
    pub height: u16,
    pub home_col: u16,
    pub home_row: u16,
}

/// What the terminal shows: the character and style of each cell written, and
/// the cursor.
pub struct Screen {
    pub cells: Map<(int, int), (char, Style)>,
    pub cursor: (int, int),
}

/// The cells that text printed at (`col`, `row`) covers.
pub open spec fn text_cells(col: int, row: int, text: Seq<char>, style: Style) -> Map<
    (int, int),
    (char, Style),
> {
    Map::new(
        |p: (int, int)| p.1 == row && col <= p.0 < col + text.len(),
        |p: (int, int)| (text[p.0 - col], style),
    )
}

pub open spec fn apply(s: Screen, op: Op) -> Screen {
    match op {
        Op::ClearAll => Screen { cells: Map::empty(), cursor: s.cursor },
        Op::MoveTo(col, row) => Screen { cells: s.cells, cursor: (col, row) },
        Op::Print(text, style) => Screen {
            cells: s.cells.union_prefer_right(text_cells(s.cursor.0, s.cursor.1, text, style)),
            cursor: (s.cursor.0 + text.len(), s.cursor.1),
        },
    }
}

/// The screen after the commands `ops`, in order.
pub open spec fn run(s: Screen, ops: Seq<Op>) -> Screen
    decreases ops.len(),
{
    if ops.len() == 0 {
        s
    } else {
        run(apply(s, ops[0]), ops.drop_first())
    }
}

/// The column where a pane starts, if it is drawn at all.
pub open spec fn pane_origin(status: Status, vp: Viewport) -> Option<int> {
    match status {
        Status::Primary => Some(0),
        Status::Secondary => Some(vp.width as int / 2),
        Status::Parent => None,
    }
}

/// Every pane is half the terminal wide.
pub open spec fn pane_width(vp: Viewport) -> int {
    vp.width as int / 2
}

pub open spec fn spaces(n: int) -> Seq<char> {
    Seq::new(n as nat, |i: int| ' ')
}

/// A row's text, cut or padded with spaces to `width` characters.
pub open spec fn fit(text: Seq<char>, width: int) -> Seq<char> {
    if text.len() >= width {
        text.take(width)
    } else {
        text + spaces(width - text.len())
    }
}

/// How many of `n` rows, top-aligned at row 0, the terminal shows.
pub open spec fn shown(n: int, vp: Viewport) -> int {
    if n < vp.height {
        n
    } else {
        vp.height as int
    }
}

pub open spec fn listing_rows(entries: Seq<Seq<char>>, vp: Viewport) -> Seq<Seq<char>> {
    Seq::new(shown(entries.len() as int, vp) as nat, |i: int| fit(entries[i], pane_width(vp)))
}

pub open spec fn blank_rows(n: int, vp: Viewport) -> Seq<Seq<char>> {
    Seq::new(shown(n, vp) as nat, |i: int| spaces(pane_width(vp)))
}

/// Commands that print `rows[i]` at column `col` of row `i`, one row after
/// the other.
pub open spec fn rows_ops(rows: Seq<Seq<char>>, col: int, style: Style) -> Seq<Op>
    decreases rows.len(),
{
    if rows.len() == 0 {
        seq![]
    } else {
        rows_ops(rows.drop_last(), col, style) + seq![
            Op::MoveTo(col, rows.len() - 1),
            Op::Print(rows.last(), style),
        ]
    }
}

/// Drawing a listing: one entry per row of the pane, then the cursor goes home.
pub open spec fn draw_view(entries: Seq<Seq<char>>, status: Status, vp: Viewport) -> Seq<Op> {
    match pane_origin(status, vp) {
        Some(col) => rows_ops(listing_rows(entries, vp), col, Style::Listing).push(
            Op::MoveTo(vp.home_col as int, vp.home_row as int),
        ),
        None => seq![],
    }
}

/// Clearing a pane that shows `n` entries: blank each of those rows across the
/// pane, then the cursor goes home.
pub open spec fn clear_view(n: int, status: Status, vp: Viewport) -> Seq<Op> {
    match pane_origin(status, vp) {
        Some(col) => rows_ops(blank_rows(n, vp), col, Style::Plain).push(
            Op::MoveTo(vp.home_col as int, vp.home_row as int),
        ),
        None => seq![],
    }
}

/// Rewriting the row of entry `index` alone, in `style`, then the cursor goes
/// home.
pub open spec fn line_view(
    entries: Seq<Seq<char>>,
    index: int,
    status: Status,
    vp: Viewport,
    style: Style,
) -> Seq<Op> {
    match pane_origin(status, vp) {
        Some(col) => if 0 <= index < shown(entries.len() as int, vp) {
            seq![
                Op::MoveTo(col, index),
                Op::Print(fit(entries[index], pane_width(vp)), style),
                Op::MoveTo(vp.home_col as int, vp.home_row as int),
            ]
        } else {
            seq![]
        },
        None => seq![],
    }
}

/// Pads with spaces to `width` characters, or cuts to it.
fn fit_text(text: &String, width: u16) -> (r: String)
    ensures
        r@ == fit(text@, width as int),
{
    let n = text.as_str().unicode_len();
    if n >= width as usize {
        text.as_str().substring_char(0, width as usize).to_owned()
    } else {
        let mut r = text.clone();
        let mut k: usize = n;
        assert(r@ =~= text@ + spaces(0));
        while k < width as usize
            invariant
                n <= k <= width,
                n == text@.len(),
                r@ == text@ + spaces(k - n),
            decreases width - k,
        {
            r.append(" ");
            proof {
                reveal_strlit(" ");
            }
            assert(" "@ =~= seq![' ']);
            assert(spaces(k - n).push(' ') =~= spaces(k + 1 - n));
            assert(r@ =~= text@ + spaces(k + 1 - n));
            k += 1;
        }
        r
    }
}

fn origin(status: Status, vp: &Viewport) -> (r: Option<u16>)
    ensures
        match r {
            Some(c) => pane_origin(status, *vp) == Some(c as int),
            None => pane_origin(status, *vp) is None,
        },
{
    match status {
        Status::Primary => Some(0),
        Status::Secondary => Some(vp.width / 2),
        Status::Parent => None,
    }
}

/// The commands that draw `entries` in the pane of `status`.
pub fn draw_entries(entries: &Vec<String>, status: Status, vp: &Viewport) -> (r: Vec<TermOp>)
    ensures
        ops_view(r@) == draw_view(names(entries@), status, *vp),
{
    let ghost es = names(entries@);
    let mut ops: Vec<TermOp> = Vec::new();
    let col = match origin(status, vp) {
        Some(c) => c,
        None => {
            assert(ops_view(ops@) =~= seq![]);
            return ops;
        },
    };
    let n: usize = if entries.len() < vp.height as usize {
        entries.len()
    } else {
        vp.height as usize
    };
    let ghost rows = listing_rows(es, *vp);
    let mut i: usize = 0;
    assert(ops_view(ops@) =~= rows_ops(rows.take(0), col as int, Style::Listing));
    while i < n
        invariant
            i <= n,
            n == rows.len(),
            n <= vp.height,
            n <= entries.len(),
            es == names(entries@),
            rows == listing_rows(es, *vp),
            ops_view(ops@) == rows_ops(rows.take(i as int), col as int, Style::Listing),
        decreases n - i,
    {
        let text = fit_text(&entries[i], vp.width / 2);
        let ghost before = ops@;
        ops.push(TermOp::MoveTo { col, row: i as u16 });
        ops.push(TermOp::Print { text, style: Style::Listing });
        assert(rows.take(i + 1).drop_last() =~= rows.take(i as int));
        assert(ops_view(ops@) =~= ops_view(before) + seq![
            Op::MoveTo(col as int, i as int),
            Op::Print(rows[i as int], Style::Listing),
        ]);
        i += 1;
    }
    let ghost before = ops@;
    ops.push(TermOp::MoveTo { col: vp.home_col, row: vp.home_row });
    assert(rows.take(n as int) =~= rows);
    assert(ops_view(ops@) =~= ops_view(before).push(
        Op::MoveTo(vp.home_col as int, vp.home_row as int),
    ));
    ops
}

/// The commands that blank the `count` rows of the pane of `status`.
pub fn clear_entries(count: usize, status: Status, vp: &Viewport) -> (r: Vec<TermOp>)
    ensures
        ops_view(r@) == clear_view(count as int, status, *vp),
{
    let mut ops: Vec<TermOp> = Vec::new();
    let col = match origin(status, vp) {
        Some(c) => c,
        None => {
            assert(ops_view(ops@) =~= seq![]);
            return ops;
        },
    };
    let n: usize = if count < vp.height as usize {
        count
    } else {
        vp.height as usize
    };
    let ghost rows = blank_rows(count as int, *vp);
    let empty = String::new();
    let mut i: usize = 0;
    assert(ops_view(ops@) =~= rows_ops(rows.take(0), col as int, Style::Plain));
    while i < n
        invariant
            i <= n,
            n == rows.len(),
            n <= vp.height,
            empty@ == Seq::<char>::empty(),
            rows == blank_rows(count as int, *vp),
            ops_view(ops@) == rows_ops(rows.take(i as int), col as int, Style::Plain),
        decreases n - i,
    {
        let text = fit_text(&empty, vp.width / 2);
        assert(text@ =~= spaces(pane_width(*vp)));
        let ghost before = ops@;
        ops.push(TermOp::MoveTo { col, row: i as u16 });
        ops.push(TermOp::Print { text, style: Style::Plain });
        assert(rows.take(i + 1).drop_last() =~= rows.take(i as int));
        assert(ops_view(ops@) =~= ops_view(before) + seq![
            Op::MoveTo(col as int, i as int),
            Op::Print(rows[i as int], Style::Plain),
        ]);
        i += 1;
    }
    let ghost before = ops@;
    ops.push(TermOp::MoveTo { col: vp.home_col, row: vp.home_row });
    assert(rows.take(n as int) =~= rows);
    assert(ops_view(ops@) =~= ops_view(before).push(
        Op::MoveTo(vp.home_col as int, vp.home_row as int),
    ));
    ops
}

/// The commands that rewrite the row of entry `index` in `style`.
pub fn line_entry(
    entries: &Vec<String>,
    index: usize,
    status: Status,
    vp: &Viewport,
    style: Style,
) -> (r: Vec<TermOp>)
    ensures
        ops_view(r@) == line_view(names(entries@), index as int, status, *vp, style),
{
    let mut ops: Vec<TermOp> = Vec::new();
    match origin(status, vp) {
        Some(col) => {
            if index < entries.len() && index < vp.height as usize {
                let text = fit_text(&entries[index], vp.width / 2);
                ops.push(TermOp::MoveTo { col, row: index as u16 });
                ops.push(TermOp::Print { text, style });
                ops.push(TermOp::MoveTo { col: vp.home_col, row: vp.home_row });
            }
        },
        None => {},
    }
    assert(ops_view(ops@) =~= line_view(names(entries@), index as int, status, *vp, style));
    ops
}

/// The cells that rows printed by `rows_ops` cover.
pub open spec fn block(rows: Seq<Seq<char>>, col: int, style: Style) -> Map<(int, int), (char, Style)> {
    Map::new(
        |p: (int, int)| 0 <= p.1 < rows.len() && col <= p.0 < col + rows[p.1].len(),
        |p: (int, int)| (rows[p.1][p.0 - col], style),
    )
}

proof fn lemma_run_concat(s: Screen, a: Seq<Op>, b: Seq<Op>)
    ensures
        run(s, a + b) == run(run(s, a), b),
    decreases a.len(),
{
    if a.len() == 0 {
        assert(a + b =~= b);
    } else {
        assert((a + b).drop_first() =~= a.drop_first() + b);
        lemma_run_concat(apply(s, a[0]), a.drop_first(), b);
    }
}

proof fn lemma_run_rows(s: Screen, rows: Seq<Seq<char>>, col: int, style: Style)
    ensures
        run(s, rows_ops(rows, col, style)).cells == s.cells.union_prefer_right(
            block(rows, col, style),
        ),
    decreases rows.len(),
{
    if rows.len() == 0 {
        assert(s.cells.union_prefer_right(block(rows, col, style)) =~= s.cells);
    } else {
        let front = rows.drop_last();
        let n = rows.len() - 1;
        let tail = seq![Op::MoveTo(col, n), Op::Print(rows.last(), style)];
        lemma_run_rows(s, front, col, style);
        lemma_run_concat(s, rows_ops(front, col, style), tail);
        let mid = run(s, rows_ops(front, col, style));
        assert(tail.drop_first().drop_first() =~= seq![]);
        assert(tail.drop_first()[0] == Op::Print(rows.last(), style));
        let m1 = apply(mid, tail[0]);
        let m2 = apply(m1, tail.drop_first()[0]);
        assert(run(mid, tail) == run(m1, tail.drop_first()));
        assert(run(m1, tail.drop_first()) == run(m2, tail.drop_first().drop_first()));
        assert(run(m2, tail.drop_first().drop_first()) == m2);
        let end = run(mid, tail);
        assert(end.cells == mid.cells.union_prefer_right(text_cells(col, n, rows.last(), style)));
        assert(end.cells =~= s.cells.union_prefer_right(block(rows, col, style)));
    }
}

/// Running commands that print `rows` and then send the cursor home.
proof fn lemma_run_pane(s: Screen, rows: Seq<Seq<char>>, col: int, style: Style, home: (int, int))
    ensures
        run(s, rows_ops(rows, col, style).push(Op::MoveTo(home.0, home.1))) == (Screen {
            cells: s.cells.union_prefer_right(block(rows, col, style)),
            cursor: home,
        }),
{
    let ops = rows_ops(rows, col, style);
    lemma_run_rows(s, rows, col, style);
    lemma_run_concat(s, ops, seq![Op::MoveTo(home.0, home.1)]);
    assert(ops.push(Op::MoveTo(home.0, home.1)) =~= ops + seq![Op::MoveTo(home.0, home.1)]);
    let last = seq![Op::MoveTo(home.0, home.1)];
    assert(last.drop_first() =~= seq![]);
    let m = run(s, ops);
    assert(run(m, last) == run(apply(m, last[0]), last.drop_first()));
    assert(run(apply(m, last[0]), last.drop_first()) == apply(m, last[0]));
}

/// Drawing a pane, clearing it and drawing it again leaves the screen exactly
/// as a single drawing does: clearing blanks no more than a drawing covers,
/// and a drawing leaves nothing of what was there before in its rows.
pub proof fn lemma_redraw_idempotent(s: Screen, entries: Seq<Seq<char>>, status: Status, vp: Viewport)
    ensures
        run(
            s,
            draw_view(entries, status, vp) + clear_view(entries.len() as int, status, vp)
                + draw_view(entries, status, vp),
        ) == run(s, draw_view(entries, status, vp)),
{
    let d = draw_view(entries, status, vp);
    let c = clear_view(entries.len() as int, status, vp);
    lemma_run_concat(s, d + c, d);
    lemma_run_concat(s, d, c);
    match pane_origin(status, vp) {
        Some(col) => {
            let home = (vp.home_col as int, vp.home_row as int);
            let a = listing_rows(entries, vp);
            let b = blank_rows(entries.len() as int, vp);
            lemma_run_pane(s, a, col, Style::Listing, home);
            let s1 = run(s, d);
            lemma_run_pane(s1, b, col, Style::Plain, home);
            let s2 = run(s1, c);
            lemma_run_pane(s2, a, col, Style::Listing, home);
            let s3 = run(s2, d);
            assert(s3.cells =~= s1.cells);
        },
        None => {
            assert(d + c + d =~= seq![]);
            assert(d =~= seq![]);
        },
    }
}

} // verus!
