//! Where the characters of a line stand on the screen.

use vstd::prelude::*;
use crate::outside::{char_width, is_control, width_of};

verus! {

/// A tab reaches to the next multiple of this many columns.
pub const TAB_WIDTH: usize = 4;

// ── Columns ──────────────────────────────────────────────────────────────

/// The columns that a character other than a tab takes: none for a control
/// character, one for printable ASCII, up to three for any other.
pub open spec fn cells(c: char) -> nat {
    if is_control(c) {
        0
    } else if 0x20 <= c as u32 && (c as u32) < 0x7f {
        1
    } else {
        match char_width(c) {
            Some(n) => if n <= 3 {
                n as nat
            } else {
                3
            },
            None => 0,
        }
    }
}

/// The columns that a character takes when `x` columns precede it in its line.
pub open spec fn span(c: char, x: nat) -> nat {
    if c == '\t' {
        (TAB_WIDTH - x % (TAB_WIDTH as nat)) as nat
    } else {
        cells(c)
    }
}

/// The columns that a line takes.
pub open spec fn columns(line: Seq<char>) -> nat
    decreases line.len(),
{
    if line.len() == 0 {
        0
    } else {
        let before = columns(line.drop_last());
        before + span(line.last(), before)
    }
}

/// A line takes at most four columns for each character.
pub proof fn lemma_columns_bound(line: Seq<char>)
    ensures
        columns(line) <= 4 * line.len(),
    decreases line.len(),
{
    if line.len() > 0 {
        lemma_columns_bound(line.drop_last());
    }
}

/// The columns of a line with one more character.
pub proof fn lemma_columns_next(line: Seq<char>, i: int)
    requires
        0 <= i < line.len(),
    ensures
        columns(line.take(i + 1)) == columns(line.take(i)) + span(line[i], columns(line.take(i))),
{
    assert(line.take(i + 1).drop_last() =~= line.take(i));
}

/// A longer part of a line takes no fewer columns.
pub proof fn lemma_columns_monotonic(line: Seq<char>, i: int, j: int)
    requires
        0 <= i <= j <= line.len(),
    ensures
        columns(line.take(i)) <= columns(line.take(j)),
    decreases j - i,
{
    if i < j {
        lemma_columns_monotonic(line, i, j - 1);
        lemma_columns_next(line, j - 1);
    }
}

/// The columns that a character other than a tab takes.
pub fn cell_count(c: char) -> (n: usize)
    ensures
        n == cells(c),
        n <= 3,
{
    width_of(c).unwrap_or(0)
}

/// The columns that a character takes when `x` columns precede it in its line.
pub fn span_of(c: char, x: usize) -> (n: usize)
    ensures
        n == span(c, x as nat),
        n <= 4,
{
    if c == '\t' {
        TAB_WIDTH - (x % TAB_WIDTH)
    } else {
        cell_count(c)
    }
}

/// The columns of the first `col` characters of a line.
pub fn columns_before(line: &Vec<char>, col: usize) -> (x: usize)
    requires
        col <= line@.len(),
        4 * line@.len() <= usize::MAX,
    ensures
        x == columns(line@.take(col as int)),
{
    let mut x: usize = 0;
    let mut i: usize = 0;
    while i < col
        invariant
            i <= col <= line@.len(),
            4 * line@.len() <= usize::MAX,
            x == columns(line@.take(i as int)),
        decreases col - i,
    {
        proof {
            lemma_columns_next(line@, i as int);
            lemma_columns_bound(line@.take(i + 1));
        }
        x = x + span_of(line[i], x);
        i = i + 1;
    }
    x
}

// ── Character boundaries ─────────────────────────────────────────────────

/// Whether `x` is the column at which some character of the line begins, or
/// at which the line ends.
pub open spec fn is_boundary(line: Seq<char>, x: nat) -> bool {
    exists|k: int| 0 <= k <= line.len() && x == #[trigger] columns(line.take(k))
}

/// Whether `x` is the last boundary at or before a column.
pub open spec fn is_boundary_le(line: Seq<char>, target: nat, x: nat) -> bool {
    &&& is_boundary(line, x)
    &&& x <= target
    &&& forall|y: nat| #[trigger] is_boundary(line, y) && y <= target ==> y <= x
}

/// Whether `x` is the first boundary at or behind a column, or, where the line
/// ends before that column, the end of the line.
pub open spec fn is_boundary_ge(line: Seq<char>, target: nat, x: nat) -> bool {
    &&& is_boundary(line, x)
    &&& target <= x || x == columns(line)
    &&& forall|y: nat| #[trigger] is_boundary(line, y) && target <= y ==> x <= y
}

/// The last boundary at or before a column.
pub fn boundary_le(line: &Vec<char>, target: usize) -> (x: usize)
    requires
        4 * line@.len() <= usize::MAX,
    ensures
        is_boundary_le(line@, target as nat, x as nat),
{
    let mut x: usize = 0;
    let mut i: usize = 0;
    while i < line.len()
        invariant
            i <= line@.len(),
            4 * line@.len() <= usize::MAX,
            x == columns(line@.take(i as int)),
            x <= target,
        decreases line@.len() - i,
    {
        proof {
            lemma_columns_next(line@, i as int);
            lemma_columns_bound(line@.take(i + 1));
        }
        let w = span_of(line[i], x);
        if x + w > target {
            proof {
                assert forall|y: nat| #[trigger] is_boundary(line@, y) && y <= target implies y
                    <= x by {
                    let k = choose|k: int| 0 <= k <= line@.len() && y == columns(line@.take(k));
                    if k > i {
                        lemma_columns_monotonic(line@, i + 1, k);
                    } else {
                        lemma_columns_monotonic(line@, k, i as int);
                    }
                }
            }
            return x;
        }
        x = x + w;
        i = i + 1;
    }
    proof {
        assert forall|y: nat| #[trigger] is_boundary(line@, y) && y <= target implies y <= x by {
            let k = choose|k: int| 0 <= k <= line@.len() && y == columns(line@.take(k));
            lemma_columns_monotonic(line@, k, i as int);
        }
    }
    x
}

/// The first boundary at or behind a column, or the end of the line.
pub fn boundary_ge(line: &Vec<char>, target: usize) -> (x: usize)
    requires
        4 * line@.len() <= usize::MAX,
    ensures
        is_boundary_ge(line@, target as nat, x as nat),
{
    let mut x: usize = 0;
    let mut i: usize = 0;
    while i < line.len()
        invariant
            i <= line@.len(),
            4 * line@.len() <= usize::MAX,
            x == columns(line@.take(i as int)),
            forall|k: int| 0 <= k < i ==> #[trigger] columns(line@.take(k)) < target,
        decreases line@.len() - i,
    {
        proof {
            lemma_columns_next(line@, i as int);
            lemma_columns_bound(line@.take(i + 1));
        }
        let w = span_of(line[i], x);
        if x >= target {
            proof {
                assert forall|y: nat| #[trigger] is_boundary(line@, y) && target <= y implies x
                    <= y by {
                    let k = choose|k: int| 0 <= k <= line@.len() && y == columns(line@.take(k));
                    lemma_columns_monotonic(line@, i as int, k);
                }
            }
            return x;
        }
        x = x + w;
        i = i + 1;
    }
    proof {
        assert(line@.take(i as int) =~= line@);
        assert forall|y: nat| #[trigger] is_boundary(line@, y) && target <= y implies x <= y by {
            let k = choose|k: int| 0 <= k <= line@.len() && y == columns(line@.take(k));
            assert(k == i);
        }
    }
    x
}

// ── Wrapping ─────────────────────────────────────────────────────────────

/// Where writing stands after `w` columns, as a row below the first row of the
/// line and a column, in a terminal of `tw` columns. A character that does not
/// fit into the rest of a row goes to the next row; a tab is cut at the end of
/// the row and goes on in the next.
pub open spec fn wrap_by(tw: nat, col_x: nat, vis_row: nat, w: nat, tab: bool) -> (nat, nat) {
    if !tab && col_x < tw && tw < col_x + w {
        (vis_row + 1, w)
    } else if tw <= col_x + w {
        (vis_row + 1, (col_x + w - tw) as nat)
    } else {
        (vis_row, col_x + w)
    }
}

/// Where writing stands after a character that `logical_x` columns of its line
/// precede.
pub open spec fn wrap_next(
    tw: nat,
    logical_x: nat,
    col_x: nat,
    vis_row: nat,
    ch: char,
) -> (nat, nat) {
    wrap_by(tw, col_x, vis_row, span(ch, logical_x), ch == '\t')
}

/// Where writing stands after a line.
pub open spec fn wrapped(tw: nat, line: Seq<char>) -> (nat, nat)
    decreases line.len(),
{
    if line.len() == 0 {
        (0, 0)
    } else {
        let before = wrapped(tw, line.drop_last());
        wrap_next(tw, columns(line.drop_last()), before.1, before.0, line.last())
    }
}

/// Where the character at `col` stands; at the end of the line, where the next
/// one would.
pub open spec fn wrap_pos(tw: nat, line: Seq<char>, col: nat) -> (nat, nat) {
    if tw == 0 {
        (0, 0)
    } else if col < line.len() {
        let at = wrapped(tw, line.take(col as int));
        let ch = line[col as int];
        if ch != '\t' && at.1 < tw && tw < at.1 + cells(ch) {
            (at.0 + 1, 0)
        } else {
            at
        }
    } else {
        wrapped(tw, line)
    }
}

/// Where writing stands after a line with one more character.
pub proof fn lemma_wrapped_next(tw: nat, line: Seq<char>, i: int)
    requires
        0 <= i < line.len(),
    ensures
        ({
            let before = wrapped(tw, line.take(i));
            wrapped(tw, line.take(i + 1)) == wrap_next(
                tw,
                columns(line.take(i)),
                before.1,
                before.0,
                line[i],
            )
        }),
{
    assert(line.take(i + 1).drop_last() =~= line.take(i));
}

/// A line takes at most one row more than it has characters.
pub proof fn lemma_wrapped_bound(tw: nat, line: Seq<char>)
    ensures
        wrapped(tw, line).0 <= line.len(),
        wrapped(tw, line).1 <= tw + 4 * line.len(),
    decreases line.len(),
{
    if line.len() > 0 {
        lemma_wrapped_bound(tw, line.drop_last());
    }
}

/// Where writing stands after `w` columns.
pub fn wrap_columns(tw: usize, col_x: usize, vis_row: usize, w: usize, tab: bool) -> (next: (
    usize,
    usize,
))
    requires
        col_x + w <= usize::MAX,
        vis_row < usize::MAX,
    ensures
        (next.0 as nat, next.1 as nat) == wrap_by(
            tw as nat,
            col_x as nat,
            vis_row as nat,
            w as nat,
            tab,
        ),
{
    let avail = tw.saturating_sub(col_x);
    if !tab && avail > 0 && avail < w {
        (vis_row + 1, w)
    } else if col_x + w >= tw {
        (vis_row + 1, col_x + w - tw)
    } else {
        (vis_row, col_x + w)
    }
}

/// Where writing stands after a character.
pub fn wrap_step(tw: usize, logical_x: usize, col_x: usize, vis_row: usize, ch: char) -> (next: (
    usize,
    usize,
))
    requires
        col_x + 4 <= usize::MAX,
        vis_row < usize::MAX,
    ensures
        (next.0 as nat, next.1 as nat) == wrap_next(
            tw as nat,
            logical_x as nat,
            col_x as nat,
            vis_row as nat,
            ch,
        ),
{
    wrap_columns(tw, col_x, vis_row, span_of(ch, logical_x), ch == '\t')
}

/// Where writing stands after the first `col` characters of a line.
pub fn wrapped_before(tw: usize, line: &Vec<char>, col: usize) -> (at: (usize, usize))
    requires
        col <= line@.len(),
        tw <= u16::MAX,
        4 * line@.len() <= isize::MAX,
    ensures
        (at.0 as nat, at.1 as nat) == wrapped(tw as nat, line@.take(col as int)),
{
    let mut vis_row: usize = 0;
    let mut col_x: usize = 0;
    let mut logical_x: usize = 0;
    let mut i: usize = 0;
    while i < col
        invariant
            i <= col <= line@.len(),
            tw <= u16::MAX,
            4 * line@.len() <= isize::MAX,
            logical_x == columns(line@.take(i as int)),
            (vis_row as nat, col_x as nat) == wrapped(tw as nat, line@.take(i as int)),
        decreases col - i,
    {
        proof {
            lemma_columns_next(line@, i as int);
            lemma_columns_bound(line@.take(i + 1));
            lemma_wrapped_next(tw as nat, line@, i as int);
            lemma_wrapped_bound(tw as nat, line@.take(i as int));
        }
        let w = span_of(line[i], logical_x);
        let (vr, cx) = wrap_step(tw, logical_x, col_x, vis_row, line[i]);
        logical_x = logical_x + w;
        vis_row = vr;
        col_x = cx;
        i = i + 1;
    }
    (vis_row, col_x)
}

/// Where the character at `col` of a line stands.
pub fn wrap_pos_of(tw: usize, line: &Vec<char>, col: usize) -> (at: (usize, usize))
    requires
        tw <= u16::MAX,
        4 * line@.len() <= isize::MAX,
    ensures
        (at.0 as nat, at.1 as nat) == wrap_pos(tw as nat, line@, col as nat),
{
    if tw == 0 {
        return (0, 0);
    }
    let upto = if col < line.len() {
        col
    } else {
        line.len()
    };
    let (vis_row, col_x) = wrapped_before(tw, line, upto);
    if col < line.len() {
        let ch = line[col];
        if ch != '\t' {
            let w = cell_count(ch);
            let avail = tw.saturating_sub(col_x);
            if avail > 0 && avail < w {
                proof {
                    lemma_wrapped_bound(tw as nat, line@.take(col as int));
                }
                return (vis_row + 1, 0);
            }
        }
    } else {
        assert(line@.take(upto as int) =~= line@);
    }
    (vis_row, col_x)
}

} // verus!
