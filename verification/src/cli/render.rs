//! What the terminal board shows: the screen as a list of positioned, styled
//! pieces of text. The program around the library turns each piece into
//! cursor moves, colors and prints.
use vstd::prelude::*;
use vstd::string::StringExecFns;

use crate::cli::session::{Session, SessionModel};
use crate::cli::Pile;
use crate::model::card::{card_color, card_text, Card, Color};
use crate::model::state::{model_is_won, GameModel};
use crate::model::text::{
    decimal_string, decimal_text, padded_left, padded_right, push_char, push_decimal, push_padded,
    push_padded_right, push_signed, signed_text,
};

verus! {

/// Seconds as `mm:ss`: the whole minutes and the remaining seconds, each at
/// least two digits.
pub open spec fn time_text(secs: u64) -> Seq<char> {
    padded_left(decimal_text((secs / 60) as nat), 2, '0') + seq![':'] + padded_left(
        decimal_text((secs % 60) as nat),
        2,
        '0',
    )
}

/// Format seconds as `mm:ss`.
pub fn fmt_time(secs: u64) -> (s: String)
    ensures
        s@ == time_text(secs),
{
    let mut out = String::new();
    push_padded(&mut out, &decimal_string(secs / 60), 2, '0');
    push_char(&mut out, ':');
    push_padded(&mut out, &decimal_string(secs % 60), 2, '0');
    assert(out@ =~= time_text(secs));
    out
}

/// How a piece of the screen is drawn.
#[derive(Debug, Clone, Copy, PartialEq, Eq, Structural)]
pub enum Style {
    Plain,
    /// Bold.
    Title,
    /// Reverse video: the selected pile.
    Selected,
    /// Dark grey: face-down cards, the stock and empty piles.
    Dim,
    /// A red card.
    Red,
    /// A black card (drawn white).
    Black,
    /// Yellow feedback.
    Message,
    /// Bold green: the win line.
    Win,
    /// Dark grey key hints.
    Hint,
}

/// A piece of text at column `x`, row `y`.
pub struct Segment {
    pub x: usize,
    pub y: usize,
    pub style: Style,
    pub text: String,
}

/// A segment as values.
pub type SegmentView = (usize, usize, Style, Seq<char>);

impl View for Segment {
    type V = SegmentView;

    open spec fn view(&self) -> SegmentView {
        (self.x, self.y, self.style, self.text@)
    }
}

/// The segments as values.
pub open spec fn seg_views(v: Seq<Segment>) -> Seq<SegmentView> {
    v.map_values(|s: Segment| s@)
}

/// Width of a board cell in characters.
pub const CELL_W: usize = 5;

/// Column of the stock cell.
pub const STOCK_X: usize = 1;

/// Column of the first waste cell.
pub const WASTE_X: usize = 7;

/// Column of the first foundation cell: past the 4-wide waste region and a
/// 2-column gap.
pub const FOUNDATION_X: usize = 29;

/// `a + b`, or `usize::MAX` when that does not fit.
pub open spec fn sat_add(a: int, b: int) -> usize {
    if a + b > usize::MAX {
        usize::MAX
    } else {
        (a + b) as usize
    }
}

/// How a card is shown in its cell.
pub open spec fn card_cell(c: Card) -> (Style, Seq<char>) {
    if !c.face_up {
        (Style::Dim, padded_right("###"@, 5))
    } else if card_color(c) == Color::Red {
        (Style::Red, padded_right(card_text(c), 5))
    } else {
        (Style::Black, padded_right(card_text(c), 5))
    }
}

/// A card cell at `(x, y)`.
pub open spec fn card_seg(x: usize, y: usize, c: Card) -> SegmentView {
    (x, y, card_cell(c).0, card_cell(c).1)
}

/// An empty pile's cell at `(x, y)`.
pub open spec fn empty_seg(x: usize, y: usize) -> SegmentView {
    (x, y, Style::Dim, padded_right(" · "@, 5))
}

/// A pile label, reverse-highlighted when selected, padded to a cell.
pub open spec fn label_seg(x: usize, y: usize, text: Seq<char>, selected: bool) -> SegmentView {
    (x, y, if selected {
        Style::Selected
    } else {
        Style::Plain
    }, padded_right(text, 5))
}

/// The key of foundation `i`, in display order.
pub open spec fn foundation_key(i: int) -> char {
    if i == 0 {
        '8'
    } else if i == 1 {
        '9'
    } else if i == 2 {
        '0'
    } else {
        '-'
    }
}

/// The title, the status line, the pile headers and the stock cell.
pub open spec fn top_segments(v: SessionModel, score: int, secs: u64) -> Seq<SegmentView> {
    let m = v.state;
    seq![
        (0usize, 0usize, Style::Title, "♠ Klondike Solitaire ♥"@),
        (0usize, 1usize, Style::Plain, "seed "@ + decimal_text(m.seed as nat) + "   moves "@
            + decimal_text(v.move_count as nat) + "   score "@ + signed_text(score)
            + "   time "@ + time_text(secs)),
        (STOCK_X, 3usize, Style::Plain, "Stock"@),
        (WASTE_X, 3usize, Style::Plain, "Waste"@),
    ] + Seq::new(
        4,
        |i: int|
            label_seg(
                (FOUNDATION_X + i * 5) as usize,
                3,
                seq!['[', foundation_key(i), ']'],
                v.selection == Some(Pile::Foundation(i as usize)),
            ),
    ) + seq![
        (STOCK_X, 4usize, if v.selection == Some(Pile::StockWaste) {
            Style::Selected
        } else {
            Style::Dim
        }, padded_right(if m.stock.len() == 0 {
            "( )"@
        } else {
            "###"@
        }, 5)),
    ]
}

/// The waste's last few cards (up to three), or its empty cell.
pub open spec fn waste_segments(m: GameModel) -> Seq<SegmentView> {
    if m.waste.len() == 0 {
        seq![empty_seg(WASTE_X, 4)]
    } else {
        let start = if m.waste.len() > 3 {
            m.waste.len() - 3
        } else {
            0
        };
        Seq::new(
            (m.waste.len() - start) as nat,
            |j: int| card_seg((WASTE_X + j * 5) as usize, 4, m.waste[start + j]),
        )
    }
}

/// Each foundation's top card, or its empty cell.
pub open spec fn foundation_segments(m: GameModel) -> Seq<SegmentView> {
    Seq::new(
        4,
        |i: int|
            if m.foundations[i].len() == 0 {
                empty_seg((FOUNDATION_X + i * 5) as usize, 4)
            } else {
                card_seg((FOUNDATION_X + i * 5) as usize, 4, m.foundations[i].last())
            },
    )
}

/// The digit naming column `c` (`1` to `7`).
pub open spec fn column_key(c: int) -> char {
    (c + 49) as char
}

/// The tableau header: the column keys `[1]` to `[7]`.
pub open spec fn tableau_header(v: SessionModel) -> Seq<SegmentView> {
    seq![(0usize, 6usize, Style::Plain, " "@)] + Seq::new(
        7,
        |c: int|
            label_seg(
                (1 + c * 5) as usize,
                6,
                seq!['[', column_key(c), ']'],
                v.selection == Some(Pile::Tableau(c as usize)),
            ),
    )
}

/// What row `r` of column `c` shows.
pub open spec fn grid_cell(m: GameModel, r: int, c: int) -> SegmentView {
    let col = m.tableau[c];
    let x = (1 + c * 5) as usize;
    let y = sat_add(7, r);
    if r < col.len() {
        card_seg(x, y, col[r])
    } else if r == 0 && col.len() == 0 {
        empty_seg(x, y)
    } else {
        (x, y, Style::Plain, Seq::new(5, |i: int| ' '))
    }
}

/// Row `r` of the tableau grid: a margin, then one cell per column.
pub open spec fn grid_row(m: GameModel, r: int) -> Seq<SegmentView> {
    seq![(0usize, sat_add(7, r), Style::Plain, " "@)] + Seq::new(7, |c: int| grid_cell(m, r, c))
}

/// The first `n` rows of the tableau grid.
pub open spec fn grid_rows(m: GameModel, n: nat) -> Seq<SegmentView>
    decreases n,
{
    if n == 0 {
        Seq::empty()
    } else {
        grid_rows(m, (n - 1) as nat) + grid_row(m, n - 1)
    }
}

/// The longest column's length.
pub open spec fn grid_height(m: GameModel) -> nat {
    max_len(m.tableau, 7)
}

/// The longest of the first `n` columns' lengths.
pub open spec fn max_len(cols: Seq<Seq<Card>>, n: nat) -> nat
    decreases n,
{
    if n == 0 {
        0
    } else {
        let rest = max_len(cols, (n - 1) as nat);
        if cols[n - 1].len() > rest {
            cols[n - 1].len()
        } else {
            rest
        }
    }
}

/// The hint line.
pub open spec fn hint_text() -> Seq<char> {
    "? help   space deal/select   Enter auto   u undo   r redo   n new   q quit"@
}

/// The footer below a grid of `rows` rows: the win line or the feedback
/// message, then the key hints.
pub open spec fn footer_segments(v: SessionModel, rows: nat, final_score: i64, secs: u64) -> Seq<SegmentView> {
    let y = sat_add(8, rows as int);
    let hint = seq![(0usize, sat_add(y as int, 1), Style::Hint, hint_text())];
    if model_is_won(v.state) {
        seq![
            (0usize, y, Style::Win, "🎉 You win!  final score "@ + signed_text(final_score as int)
                + "  in "@ + time_text(secs) + "  —  n: new game   q: quit"@),
        ] + hint
    } else {
        match v.message {
            Some(msg) => seq![(0usize, y, Style::Message, msg)] + hint,
            None => hint,
        }
    }
}

/// The key legend shown by `?`.
pub open spec fn help_lines() -> Seq<Seq<char>> {
    seq![
        "Klondike — key legend"@,
        ""@,
        "  1-7            select a tableau column"@,
        "  8 9 0 -        select a foundation"@,
        "  space          deal from stock (recycle when empty);"@,
        "                 with a waste card, selects it — space again deals"@,
        "  <src><dst>     move: e.g. 2 5  (col2 -> col5),  1 8  (col1 -> foundation)"@,
        "  space <dst>    move the waste's top card"@,
        "  Enter          auto-play a card to its best legal spot"@,
        "  Esc            cancel a pending selection"@,
        ""@,
        "  u undo   r redo   n new game   q quit   ? close help"@,
        ""@,
        "Illegal moves are never applied. Foundations auto-route by suit."@,
    ]
}

/// The help overlay: each legend line at column 2, from row 1.
pub open spec fn help_segments() -> Seq<SegmentView> {
    Seq::new(help_lines().len(), |i: int| (2usize, (1 + i) as usize, Style::Plain, help_lines()[i]))
}

/// The whole screen for session `v`, showing `score` and `secs` on the status
/// line and `final_score` on the win line.
pub open spec fn screen_spec(v: SessionModel, score: int, final_score: i64, secs: u64) -> Seq<SegmentView> {
    if v.help_visible {
        help_segments()
    } else {
        let rows = if grid_height(v.state) == 0 {
            1
        } else {
            grid_height(v.state)
        };
        top_segments(v, score, secs) + waste_segments(v.state) + foundation_segments(v.state)
            + tableau_header(v) + grid_rows(v.state, rows) + footer_segments(v, rows, final_score, secs)
    }
}

/// An owned copy of a string literal.
fn owned(s: &str) -> (r: String)
    ensures
        r@ == s@,
{
    String::from_str(s)
}

/// `text` padded on the right to a cell.
fn cell_text(text: &str) -> (r: String)
    ensures
        r@ == padded_right(text@, 5),
{
    let mut r = String::new();
    push_padded_right(&mut r, text, CELL_W);
    assert(r@ =~= padded_right(text@, 5));
    r
}

/// A card cell at `(x, y)`.
fn card_segment(x: usize, y: usize, c: Card) -> (s: Segment)
    ensures
        s@ == card_seg(x, y, c),
{
    if !c.face_up {
        return Segment { x, y, style: Style::Dim, text: cell_text("###") };
    }
    let shown = c.to_string();
    let style = match c.color() {
        Color::Red => Style::Red,
        Color::Black => Style::Black,
    };
    Segment { x, y, style, text: cell_text(shown.as_str()) }
}

/// An empty pile's cell at `(x, y)`.
fn empty_segment(x: usize, y: usize) -> (s: Segment)
    ensures
        s@ == empty_seg(x, y),
{
    Segment { x, y, style: Style::Dim, text: cell_text(" · ") }
}

/// A pile label `[k]` at `(x, y)`.
fn label_segment(x: usize, y: usize, key: char, selected: bool) -> (s: Segment)
    ensures
        s@ == label_seg(x, y, seq!['[', key, ']'], selected),
{
    let mut t = String::new();
    push_char(&mut t, '[');
    push_char(&mut t, key);
    push_char(&mut t, ']');
    let mut text = String::new();
    push_padded_right(&mut text, t.as_str(), CELL_W);
    assert(t@ =~= seq!['[', key, ']']);
    Segment {
        x,
        y,
        style: if selected {
            Style::Selected
        } else {
            Style::Plain
        },
        text,
    }
}

/// Push a segment, keeping track of the views.
fn put(out: &mut Vec<Segment>, s: Segment)
    ensures
        seg_views(final(out)@) == seg_views(old(out)@).push(s@),
{
    let ghost v = s@;
    out.push(s);
    assert(seg_views(out@) =~= seg_views(old(out)@).push(v));
}

/// The longest column's length.
fn grid_height_of(state: &crate::model::state::GameState) -> (h: usize)
    ensures
        h == grid_height(state@),
{
    let mut h: usize = 0;
    let mut c: usize = 0;
    proof {
        state.lemma_has_all_piles();
    }
    while c < 7
        invariant
            0 <= c <= 7,
            state@.tableau.len() == 7,
            h == max_len(state@.tableau, c as nat),
        decreases 7 - c,
    {
        let n = state.column(c).len();
        assert(n == state@.tableau[c as int].len());
        if n > h {
            h = n;
        }
        c = c + 1;
    }
    h
}

/// The help overlay.
pub fn help_screen() -> (r: Vec<Segment>)
    ensures
        seg_views(r@) == help_segments(),
{
    let lines: [&str; 14] = [
        "Klondike — key legend",
        "",
        "  1-7            select a tableau column",
        "  8 9 0 -        select a foundation",
        "  space          deal from stock (recycle when empty);",
        "                 with a waste card, selects it — space again deals",
        "  <src><dst>     move: e.g. 2 5  (col2 -> col5),  1 8  (col1 -> foundation)",
        "  space <dst>    move the waste's top card",
        "  Enter          auto-play a card to its best legal spot",
        "  Esc            cancel a pending selection",
        "",
        "  u undo   r redo   n new game   q quit   ? close help",
        "",
        "Illegal moves are never applied. Foundations auto-route by suit.",
    ];
    let mut out: Vec<Segment> = Vec::new();
    let mut i: usize = 0;
    while i < 14
        invariant
            0 <= i <= 14,
            lines@.len() == 14,
            forall|k: int| 0 <= k < 14 ==> (#[trigger] lines@[k])@ == help_lines()[k],
            seg_views(out@) == help_segments().take(i as int),
        decreases 14 - i,
    {
        put(&mut out, Segment { x: 2, y: 1 + i, style: Style::Plain, text: owned(lines[i]) });
        i = i + 1;
        assert(seg_views(out@) =~= help_segments().take(i as int));
    }
    assert(help_segments().take(14) =~= help_segments());
    out
}

/// Append the title, the status line, the pile headers and the stock cell.
fn push_top(out: &mut Vec<Segment>, s: &Session, score: i64, secs: u64)
    ensures
        seg_views(final(out)@) == seg_views(old(out)@) + top_segments(s@, score as int, secs),
{
    let ghost start = seg_views(out@);
    let sel = s.selection();
    put(out, Segment { x: 0, y: 0, style: Style::Title, text: owned("♠ Klondike Solitaire ♥") });
    let mut status = owned("seed ");
    push_decimal(&mut status, s.seed());
    status.append("   moves ");
    push_decimal(&mut status, s.move_count() as u64);
    status.append("   score ");
    push_signed(&mut status, score);
    status.append("   time ");
    status.append(fmt_time(secs).as_str());
    put(out, Segment { x: 0, y: 1, style: Style::Plain, text: status });
    put(out, Segment { x: STOCK_X, y: 3, style: Style::Plain, text: owned("Stock") });
    put(out, Segment { x: WASTE_X, y: 3, style: Style::Plain, text: owned("Waste") });
    let ghost mid = seg_views(out@);
    let keys: [char; 4] = ['8', '9', '0', '-'];
    let mut i: usize = 0;
    while i < 4
        invariant
            0 <= i <= 4,
            keys@ == seq!['8', '9', '0', '-'],
            sel == s@.selection,
            seg_views(out@) == mid + Seq::new(
                i as nat,
                |k: int|
                    label_seg(
                        (FOUNDATION_X + k * 5) as usize,
                        3,
                        seq!['[', foundation_key(k), ']'],
                        s@.selection == Some(Pile::Foundation(k as usize)),
                    ),
            ),
        decreases 4 - i,
    {
        let selected = match sel {
            Some(Pile::Foundation(f)) => f == i,
            _ => false,
        };
        put(out, label_segment(FOUNDATION_X + i * CELL_W, 3, keys[i], selected));
        i = i + 1;
        assert(seg_views(out@) =~= mid + Seq::new(
            i as nat,
            |k: int|
                label_seg(
                    (FOUNDATION_X + k * 5) as usize,
                    3,
                    seq!['[', foundation_key(k), ']'],
                    s@.selection == Some(Pile::Foundation(k as usize)),
                ),
        ));
    }
    let stock_selected = match sel {
        Some(Pile::StockWaste) => true,
        _ => false,
    };
    let glyph = if s.state().stock_pile().is_empty() {
        "( )"
    } else {
        "###"
    };
    put(out, Segment {
        x: STOCK_X,
        y: 4,
        style: if stock_selected {
            Style::Selected
        } else {
            Style::Dim
        },
        text: cell_text(glyph),
    });
    assert(seg_views(out@) =~= start + top_segments(s@, score as int, secs));
}

/// Append the waste's last few cards, or its empty cell.
fn push_waste(out: &mut Vec<Segment>, state: &crate::model::state::GameState)
    ensures
        seg_views(final(out)@) == seg_views(old(out)@) + waste_segments(state@),
{
    let ghost start = seg_views(out@);
    let waste = state.waste_pile().cards();
    let n = waste.len();
    if n == 0 {
        put(out, empty_segment(WASTE_X, 4));
        assert(seg_views(out@) =~= start + waste_segments(state@));
        return ;
    }
    let first = if n > 3 {
        n - 3
    } else {
        0
    };
    let mut j: usize = 0;
    while j < n - first
        invariant
            waste@ == state@.waste,
            n == waste@.len(),
            n > 0,
            first == (if n > 3 {
                n - 3
            } else {
                0
            }),
            0 <= j <= n - first,
            seg_views(out@) == start + Seq::new(
                j as nat,
                |k: int| card_seg((WASTE_X + k * 5) as usize, 4, state@.waste[first + k]),
            ),
        decreases n - first - j,
    {
        put(out, card_segment(WASTE_X + j * CELL_W, 4, waste[first + j]));
        j = j + 1;
        assert(seg_views(out@) =~= start + Seq::new(
            j as nat,
            |k: int| card_seg((WASTE_X + k * 5) as usize, 4, state@.waste[first + k]),
        ));
    }
    assert(seg_views(out@) =~= start + waste_segments(state@));
}

/// Append each foundation's top card, or its empty cell.
fn push_foundations(out: &mut Vec<Segment>, state: &crate::model::state::GameState)
    ensures
        seg_views(final(out)@) == seg_views(old(out)@) + foundation_segments(state@),
{
    let ghost start = seg_views(out@);
    let mut i: usize = 0;
    while i < 4
        invariant
            0 <= i <= 4,
            seg_views(out@) == start + foundation_segments(state@).take(i as int),
        decreases 4 - i,
    {
        let f = state.foundation(i);
        let x = FOUNDATION_X + i * CELL_W;
        match f.top() {
            Some(c) => put(out, card_segment(x, 4, c)),
            None => put(out, empty_segment(x, 4)),
        }
        i = i + 1;
        assert(seg_views(out@) =~= start + foundation_segments(state@).take(i as int));
    }
    assert(foundation_segments(state@).take(4) =~= foundation_segments(state@));
}

/// Append the tableau header.
fn push_tableau_header(out: &mut Vec<Segment>, s: &Session)
    ensures
        seg_views(final(out)@) == seg_views(old(out)@) + tableau_header(s@),
{
    let ghost start = seg_views(out@);
    let sel = s.selection();
    put(out, Segment { x: 0, y: 6, style: Style::Plain, text: owned(" ") });
    let mut c: usize = 0;
    while c < 7
        invariant
            0 <= c <= 7,
            sel == s@.selection,
            seg_views(out@) == start + tableau_header(s@).take(c + 1),
        decreases 7 - c,
    {
        let selected = match sel {
            Some(Pile::Tableau(t)) => t == c,
            _ => false,
        };
        let key = (c as u8 + 49) as char;
        assert(key == column_key(c as int));
        put(out, label_segment(1 + c * CELL_W, 6, key, selected));
        c = c + 1;
        assert(seg_views(out@) =~= start + tableau_header(s@).take(c + 1));
    }
    assert(tableau_header(s@).take(8) =~= tableau_header(s@));
}

/// Append rows `0..rows` of the tableau grid.
fn push_grid(out: &mut Vec<Segment>, state: &crate::model::state::GameState, rows: usize)
    ensures
        seg_views(final(out)@) == seg_views(old(out)@) + grid_rows(state@, rows as nat),
{
    let ghost start = seg_views(out@);
    proof {
        state.lemma_has_all_piles();
    }
    let mut r: usize = 0;
    while r < rows
        invariant
            0 <= r <= rows,
            state@.tableau.len() == 7,
            seg_views(out@) == start + grid_rows(state@, r as nat),
        decreases rows - r,
    {
        let y = 7usize.saturating_add(r);
        let ghost row_start = seg_views(out@);
        put(out, Segment { x: 0, y, style: Style::Plain, text: owned(" ") });
        let mut c: usize = 0;
        while c < 7
            invariant
                0 <= c <= 7,
                r < rows,
                y == sat_add(7, r as int),
                state@.tableau.len() == 7,
                seg_views(out@) == row_start + grid_row(state@, r as int).take(c + 1),
            decreases 7 - c,
        {
            let col = state.column(c).cards();
            let x = 1 + c * CELL_W;
            if r < col.len() {
                put(out, card_segment(x, y, col[r]));
            } else if r == 0 && col.len() == 0 {
                put(out, empty_segment(x, y));
            } else {
                put(out, Segment { x, y, style: Style::Plain, text: cell_text("") });
                proof {
                    assert(padded_right(""@, 5) =~= Seq::new(5, |i: int| ' ')) by {
                        reveal_strlit("");
                    }
                }
            }
            c = c + 1;
            assert(seg_views(out@) =~= row_start + grid_row(state@, r as int).take(c + 1));
        }
        assert(grid_row(state@, r as int).take(8) =~= grid_row(state@, r as int));
        r = r + 1;
        assert(seg_views(out@) =~= start + grid_rows(state@, r as nat));
    }
}

/// Append the footer below a grid of `rows` rows.
fn push_footer(out: &mut Vec<Segment>, s: &Session, rows: usize, final_score: i64, secs: u64)
    ensures
        seg_views(final(out)@) == seg_views(old(out)@) + footer_segments(s@, rows as nat, final_score, secs),
{
    let ghost start = seg_views(out@);
    let y = 8usize.saturating_add(rows);
    if s.is_won() {
        let mut t = owned("🎉 You win!  final score ");
        push_signed(&mut t, final_score);
        t.append("  in ");
        t.append(fmt_time(secs).as_str());
        t.append("  —  n: new game   q: quit");
        put(out, Segment { x: 0, y, style: Style::Win, text: t });
    } else {
        match s.message() {
            Some(msg) => put(out, Segment { x: 0, y, style: Style::Message, text: owned(msg) }),
            None => {},
        }
    }
    put(out, Segment {
        x: 0,
        y: y.saturating_add(1),
        style: Style::Hint,
        text: owned("? help   space deal/select   Enter auto   u undo   r redo   n new   q quit"),
    });
    assert(seg_views(out@) =~= start + footer_segments(s@, rows as nat, final_score, secs));
}

/// The whole screen for the session: the help overlay when it is shown, else
/// the board. The status line shows the current score and `secs`, the win
/// line `final_score`.
pub fn screen(s: &Session, secs: u64, final_score: i64) -> (r: Vec<Segment>)
    ensures
        seg_views(r@) == screen_spec(
            s@,
            crate::model::score::current_score(s@.state.points, s@.state.elapsed, s@.state.config.timed),
            final_score,
            secs,
        ),
{
    if s.help_visible() {
        return help_screen();
    }
    let mut out: Vec<Segment> = Vec::new();
    let score = s.state().current_score();
    push_top(&mut out, s, score, secs);
    push_waste(&mut out, s.state());
    push_foundations(&mut out, s.state());
    push_tableau_header(&mut out, s);
    let height = grid_height_of(s.state());
    let rows = if height == 0 {
        1
    } else {
        height
    };
    push_grid(&mut out, s.state(), rows);
    push_footer(&mut out, s, rows, final_score, secs);
    assert(seg_views(out@) =~= screen_spec(s@, score as int, final_score, secs));
    out
}

} // verus!
