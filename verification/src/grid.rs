//! The mathematical model of a board: ten columns of sixteen cells, and what
//! placing, clearing and cascading mean on it.
use vstd::prelude::*;
use crate::action::ActionResult;
use crate::score::{bomb_result, chain_result};
use crate::column::{
    blocks, cell_at, count_flags, lemma_blocks_bound, lemma_settle_blocks, lemma_settle_nothing,
    lemma_settle_valid, meets_other, meets_own, packed, pair_mask, settle, shifted, top, valid_cell,
    valid_cells, value_mask,
};

verus! {

/// The model of a board. `cols[x][y]` is the cell of column `x` in row `y`,
/// row 0 at the bottom; `dead` says that a column has overflowed.
pub struct Grid {
    pub cols: Seq<Seq<int>>,
    pub dead: bool,
}

/// The model of a piece: a square of four cells, named by their place
/// (top or bottom row, left or right column). A 0 is a hole in the piece.
pub struct Pack {
    pub tl: int,
    pub tr: int,
    pub bl: int,
    pub br: int,
}

/// One raw cascade: the board it leaves and the number of its rounds.
pub struct Cascade {
    pub grid: Grid,
    pub chains: nat,
}

/// The best of the probes that take one cell out: whether there was any,
/// the rounds of its cascade, and the cell.
pub struct Probe {
    pub found: bool,
    pub chains: nat,
    pub x: int,
    pub y: int,
}

/// The structural measures of a board.
pub struct Shape {
    /// Pairs that add up to ten one column apart and two rows apart.
    pub keima: int,
    /// Pairs that add up to ten one column apart and three rows apart.
    pub keima2: int,
    /// Pairs that add up to ten in one column, two rows apart.
    pub tate: int,
    /// Pairs that add up to ten in one column, three rows apart.
    pub tate2: int,
    /// The sum of the heights of the columns.
    pub num_block: int,
    /// The sum of the squared height differences of neighbouring columns.
    pub var: int,
}

/// What a move leaves: the board and the result of the move.
pub struct Outcome {
    pub grid: Grid,
    pub result: ActionResult,
}

/// The columns that the bits of `changed` name: column `x` for bit `x`.
pub open spec fn changed_columns(changed: usize) -> Seq<bool> {
    Seq::new(10, |x: int| (changed >> (x as usize)) & 1 == 1)
}

/// The number of occupied cells of some columns.
pub open spec fn sum_blocks(cols: Seq<Seq<int>>) -> nat
    decreases cols.len(),
{
    if cols.len() == 0 {
        0
    } else {
        sum_blocks(cols.drop_last()) + blocks(cols.last())
    }
}

/// The sum of the heights of some columns.
pub open spec fn sum_tops(cols: Seq<Seq<int>>) -> int
    decreases cols.len(),
{
    if cols.len() == 0 {
        0
    } else {
        sum_tops(cols.drop_last()) + top(cols.last())
    }
}

/// The number of raised flags of some masks.
pub open spec fn sum_flags(fl: Seq<Seq<bool>>) -> int
    decreases fl.len(),
{
    if fl.len() == 0 {
        0
    } else {
        sum_flags(fl.drop_last()) + count_flags(fl.last())
    }
}

/// A set of flags for a whole board: one mask of sixteen flags per column.
pub open spec fn flags_wf(fl: Seq<Seq<bool>>) -> bool {
    &&& fl.len() == 10
    &&& forall|x: int| 0 <= x < 10 ==> (#[trigger] fl[x]).len() == 16
}

/// Whether any flag is raised.
pub open spec fn any_flag(fl: Seq<Seq<bool>>) -> bool {
    exists|x: int, y: int| 0 <= x < 10 && 0 <= y < 16 && #[trigger] fl[x][y]
}

/// Whether column `x` has a raised flag.
pub open spec fn column_touched(fl: Seq<Seq<bool>>, x: int) -> bool {
    exists|y: int| 0 <= y < 16 && #[trigger] fl[x][y]
}

/// The columns that have a raised flag.
pub open spec fn touched(fl: Seq<Seq<bool>>) -> Seq<bool> {
    Seq::new(10, |x: int| column_touched(fl, x))
}

/// The height of a mask: one more than the row of its topmost raised flag,
/// and 0 where none is raised.
pub open spec fn top_flag(f: Seq<bool>) -> int
    decreases f.len(),
{
    if f.len() == 0 {
        0
    } else if f.last() {
        f.len() as int
    } else {
        top_flag(f.drop_last())
    }
}

/// The greatest mask height among the first `n` columns whose changed mark
/// equals `want`, and 0 where there is no such column.
pub open spec fn max_top_flag(fl: Seq<Seq<bool>>, ch: Seq<bool>, want: bool, n: int) -> int
    decreases n,
{
    if n <= 0 {
        0
    } else {
        let rest = max_top_flag(fl, ch, want, n - 1);
        let here = top_flag(fl[n - 1]);
        if ch[n - 1] == want && here > rest {
            here
        } else {
            rest
        }
    }
}

/// Whether the cells of column `x` are compared with their neighbours in
/// the same column. The last column always is.
pub open spec fn column_examined(ch: Seq<bool>, x: int) -> bool {
    0 <= x < 10 && (x == 9 || ch[x] || ch[x + 1])
}

/// Whether the cells of columns `x` and `x + 1` are compared with each other.
pub open spec fn pair_examined(ch: Seq<bool>, x: int) -> bool {
    0 <= x < 9 && (ch[x] || ch[x + 1])
}

/// The piece turned a quarter to the right.
pub open spec fn turned(p: Pack) -> Pack {
    Pack { tl: p.bl, tr: p.tl, bl: p.br, br: p.tr }
}

/// The piece after `rot` quarter turns.
pub open spec fn rotated(p: Pack, rot: nat) -> Pack
    decreases rot,
{
    if rot == 0 {
        p
    } else {
        rotated(turned(p), (rot - 1) as nat)
    }
}

/// Every cell of the piece is a valid cell.
pub open spec fn valid_pack(p: Pack) -> bool {
    valid_cell(p.tl) && valid_cell(p.tr) && valid_cell(p.bl) && valid_cell(p.br)
}

/// The columns that a piece dropped at `pos` touches: those under a
/// non-empty half of the piece.
pub open spec fn pack_columns(p: Pack, pos: int) -> Seq<bool> {
    Seq::new(
        10,
        |x: int| (x == pos && (p.bl != 0 || p.tl != 0)) || (x == pos + 1 && (p.br != 0 || p.tr != 0)),
    )
}

/// The flags with the one flag at (`x`, `y`) raised.
pub open spec fn one_cell(x: int, y: int) -> Seq<Seq<bool>> {
    Seq::new(10, |i: int| Seq::new(16, |j: int| i == x && j == y))
}

/// The single column `x`.
pub open spec fn one_column(x: int) -> Seq<bool> {
    Seq::new(10, |i: int| i == x)
}

impl Grid {
    /// Ten columns of sixteen valid cells.
    pub open spec fn wf(self) -> bool {
        &&& self.cols.len() == 10
        &&& forall|x: int|
            0 <= x < 10 ==> (#[trigger] self.cols[x]).len() == 16 && valid_cells(self.cols[x])
    }

    /// The board with no block on it.
    pub open spec fn empty() -> Grid {
        Grid { cols: Seq::new(10, |x: int| Seq::new(16, |y: int| 0int)), dead: false }
    }

    /// The cell in column `x`, row `y`; outside the board every cell is empty.
    pub open spec fn cell(self, x: int, y: int) -> int {
        if 0 <= x < 10 {
            cell_at(self.cols[x], y)
        } else {
            0
        }
    }

    /// Whether no cell holds a block.
    pub open spec fn is_empty(self) -> bool {
        forall|x: int, y: int| 0 <= x < 10 && 0 <= y < 16 ==> #[trigger] self.cols[x][y] == 0
    }

    /// The height of column `x`.
    pub open spec fn height(self, x: int) -> int {
        top(self.cols[x])
    }

    /// The number of occupied cells.
    pub open spec fn blocks(self) -> nat {
        sum_blocks(self.cols)
    }

    /// The board after the value `v` has fallen onto column `x`: it lands on
    /// top of the column, and a column that is full already kills the board.
    pub open spec fn fall(self, x: int, v: int) -> Grid {
        let h = self.height(x);
        if h >= 16 {
            Grid { cols: self.cols, dead: true }
        } else {
            Grid { cols: self.cols.update(x, self.cols[x].update(h, v)), dead: self.dead }
        }
    }

    /// As `fall`, but a 0 is no block and does nothing.
    pub open spec fn drop_cell(self, x: int, v: int) -> Grid {
        if v == 0 {
            self
        } else {
            self.fall(x, v)
        }
    }

    /// The board after the piece has been dropped with its left half on
    /// column `pos`: left half first, each half bottom cell first.
    pub open spec fn drop_pack(self, p: Pack, pos: int) -> Grid {
        self.drop_cell(pos, p.bl).drop_cell(pos, p.tl).drop_cell(pos + 1, p.br).drop_cell(
            pos + 1,
            p.tr,
        )
    }

    /// The board after an obstacle has fallen onto each of the first `n` columns.
    pub open spec fn fall_obstacles(self, n: int) -> Grid
        decreases n,
    {
        if n <= 0 {
            self
        } else {
            self.fall_obstacles(n - 1).fall(n - 1, 11)
        }
    }

    /// Whether the cell at (`x`, `y`) adds up to ten with the cell below or
    /// above it.
    pub open spec fn meets_column(self, x: int, y: int) -> bool {
        meets_own(self.cols[x], y)
    }

    /// Whether the cell at (`x`, `y`) adds up to ten with one of the three
    /// cells that touch it in the neighbouring column `x2`.
    pub open spec fn meets_beside(self, x: int, y: int, x2: int) -> bool {
        meets_other(self.cols[x], self.cols[x2], y)
    }

    /// Whether the cell at (`x`, `y`) vanishes in a round that starts from the
    /// changed columns `ch`: it adds up to ten with one of its eight
    /// neighbours, in a pair that the round compares.
    pub open spec fn flagged(self, ch: Seq<bool>, x: int, y: int) -> bool {
        ||| column_examined(ch, x) && self.meets_column(x, y)
        ||| pair_examined(ch, x) && self.meets_beside(x, y, x + 1)
        ||| pair_examined(ch, x - 1) && self.meets_beside(x, y, x - 1)
    }

    /// The part of `flagged` that comes from comparing the columns below
    /// `i` with themselves and with their right neighbours.
    pub open spec fn flagged_upto(self, ch: Seq<bool>, x: int, y: int, i: int) -> bool {
        ||| x < i && column_examined(ch, x) && self.meets_column(x, y)
        ||| x < i && pair_examined(ch, x) && self.meets_beside(x, y, x + 1)
        ||| x - 1 < i && pair_examined(ch, x - 1) && self.meets_beside(x, y, x - 1)
    }

    /// The cells that vanish in a round that starts from the changed columns `ch`.
    pub open spec fn removal(self, ch: Seq<bool>) -> Seq<Seq<bool>> {
        Seq::new(10, |x: int| Seq::new(16, |y: int| self.flagged(ch, x, y)))
    }

    /// The board without the flagged cells, every column settled.
    pub open spec fn erase(self, fl: Seq<Seq<bool>>) -> Grid {
        Grid { cols: Seq::new(10, |x: int| settle(self.cols[x], fl[x])), dead: self.dead }
    }

    /// The cascade that starts from the changed columns `ch`: as long as a
    /// round finds cells to remove, they are removed, the columns settle, and
    /// the next round starts from the columns that lost a cell.
    pub open spec fn chain(self, ch: Seq<bool>) -> Cascade
        decreases self.blocks(),
        when self.wf()
        via Self::chain_decreases
    {
        let fl = self.removal(ch);
        if !any_flag(fl) {
            Cascade { grid: self, chains: 0 }
        } else {
            let rest = self.erase(fl).chain(touched(fl));
            Cascade { grid: rest.grid, chains: rest.chains + 1 }
        }
    }

    #[via_fn]
    proof fn chain_decreases(self, ch: Seq<bool>) {
        let fl = self.removal(ch);
        if any_flag(fl) {
            lemma_erase_blocks(self, ch);
        }
    }

    /// How unevenly the first round of a cascade removes cells: the height
    /// of the topmost removed cell among the columns that had not changed,
    /// minus the same among the changed columns.
    pub open spec fn spread(self, ch: Seq<bool>) -> int {
        let fl = self.removal(ch);
        max_top_flag(fl, ch, false, 10) - max_top_flag(fl, ch, true, 10)
    }

    /// The move that drops the piece `p`, after `rot` quarter turns, with its
    /// left half on column `pos`, and lets the cascade run that it sets off.
    pub open spec fn put(self, p: Pack, pos: int, rot: nat) -> Outcome {
        let q = rotated(p, rot);
        let g = self.drop_pack(q, pos);
        let ch = pack_columns(q, pos);
        let c = g.chain(ch);
        Outcome { grid: c.grid, result: chain_result(c.chains, g.spread(ch)) }
    }

    /// The probe that drops the single value `v` onto column `x` and lets the
    /// cascade run that it sets off.
    pub open spec fn put_one(self, v: int, x: int) -> Outcome {
        let g = self.fall(x, v);
        let c = g.chain(one_column(x));
        Outcome { grid: c.grid, result: chain_result(c.chains, g.spread(one_column(x))) }
    }

    /// The ability use: the fives and the blocks beside them blow up, the
    /// columns settle, and the cascade runs that this sets off.
    pub open spec fn use_skill(self) -> Outcome {
        let fl = self.blast();
        let g = self.erase(fl);
        let ch = touched(fl);
        let c = g.chain(ch);
        Outcome { grid: c.grid, result: bomb_result(sum_flags(fl) as nat, c.chains, g.spread(ch)) }
    }

    /// Among the first `n` columns: the pairs that add up to ten in one
    /// column, `d` rows apart.
    pub open spec fn tate_upto(self, d: int, n: int) -> int
        decreases n,
    {
        if n <= 0 {
            0
        } else {
            self.tate_upto(d, n - 1) + count_flags(
                pair_mask(self.cols[n - 1], shifted(self.cols[n - 1], d)),
            )
        }
    }

    /// Among the first `n` columns and their right neighbours: the pairs
    /// that add up to ten one column and `d` rows apart.
    pub open spec fn keima_upto(self, d: int, n: int) -> int
        decreases n,
    {
        if n <= 0 {
            0
        } else {
            self.keima_upto(d, n - 1) + count_flags(
                pair_mask(self.cols[n - 1], shifted(self.cols[n], d)),
            ) + count_flags(pair_mask(self.cols[n - 1], shifted(self.cols[n], -d)))
        }
    }

    /// Among the first `n` columns and their right neighbours: the sum of
    /// the squared height differences.
    pub open spec fn var_upto(self, n: int) -> int
        decreases n,
    {
        if n <= 0 {
            0
        } else {
            let d = self.height(n - 1) - self.height(n);
            self.var_upto(n - 1) + d * d
        }
    }

    /// The structural measures of the board.
    pub open spec fn shape(self) -> Shape {
        Shape {
            keima: self.keima_upto(2, 9),
            keima2: self.keima_upto(3, 9),
            tate: self.tate_upto(2, 10),
            tate2: self.tate_upto(3, 10),
            num_block: sum_tops(self.cols),
            var: self.var_upto(9),
        }
    }

    /// The greatest height among the first `n` columns.
    pub open spec fn max_height_upto(self, n: int) -> int
        decreases n,
    {
        if n <= 0 {
            0
        } else {
            let rest = self.max_height_upto(n - 1);
            if self.height(n - 1) > rest {
                self.height(n - 1)
            } else {
                rest
            }
        }
    }

    /// The greatest height of a column.
    pub open spec fn max_height(self) -> int {
        self.max_height_upto(10)
    }

    /// The least height among the neighbours of column `x`, and 16 where
    /// there is none.
    pub open spec fn neighbour_min(self, x: int) -> int {
        let a = if x > 0 {
            self.height(x - 1)
        } else {
            16
        };
        let b = if x < 9 {
            self.height(x + 1)
        } else {
            16
        };
        if a < b {
            a
        } else {
            b
        }
    }

    /// The greatest height among the neighbours of column `x`, and 0 where
    /// there is none.
    pub open spec fn neighbour_max(self, x: int) -> int {
        let a = if x > 0 {
            self.height(x - 1)
        } else {
            0
        };
        let b = if x < 9 {
            self.height(x + 1)
        } else {
            0
        };
        if a > b {
            a
        } else {
            b
        }
    }

    /// The number of obstacles in the first `n` columns.
    pub open spec fn obstacles_upto(self, n: int) -> int
        decreases n,
    {
        if n <= 0 {
            0
        } else {
            self.obstacles_upto(n - 1) + count_flags(value_mask(self.cols[n - 1], 11))
        }
    }

    /// The hash of the first `n` columns: each column in turn is added to 31
    /// times the hash so far, in 64-bit arithmetic that wraps.
    pub open spec fn hash_upto(self, n: int) -> u64
        decreases n,
    {
        if n <= 0 {
            0
        } else {
            self.hash_upto(n - 1).wrapping_mul(31).wrapping_add(packed(self.cols[n - 1]) as u64)
        }
    }

    /// The hash of the cells of the board.
    pub open spec fn hash(self) -> u64 {
        self.hash_upto(10)
    }

    /// The row of the topmost obstacle of column `x`, and 0 where it has none.
    pub open spec fn obstacle_row(self, x: int) -> int {
        let t = top_flag(value_mask(self.cols[x], 11));
        if t == 0 {
            0
        } else {
            t - 1
        }
    }

    /// The line that bounds the probes of a neighbouring column: the height
    /// of column `x` (`outer`), or the row of its topmost obstacle.
    pub open spec fn skyline(self, x: int, outer: bool) -> int {
        if outer {
            self.height(x)
        } else {
            self.obstacle_row(x)
        }
    }

    /// The lowest row of column `x` that is probed: one below the lower
    /// skyline of its neighbours.
    pub open spec fn probe_low(self, x: int, outer: bool) -> int {
        let a = if x > 0 {
            self.skyline(x - 1, outer)
        } else {
            16
        };
        let b = if x < 9 {
            self.skyline(x + 1, outer)
        } else {
            16
        };
        let l = if a < b {
            a
        } else {
            b
        };
        if l >= 1 {
            l - 1
        } else {
            0
        }
    }

    /// The row of the topmost block of column `x`, which bounds its probes
    /// from above.
    pub open spec fn probe_high(self, x: int) -> int {
        let h = self.height(x);
        if h >= 1 {
            h - 1
        } else {
            0
        }
    }

    /// Whether the cell at (`x`, `y`) is probed: it lies from the probe line
    /// up to, but not at, the top of its column, and holds no obstacle.
    pub open spec fn probed(self, x: int, y: int, outer: bool) -> bool {
        &&& 0 <= x < 10
        &&& self.probe_low(x, outer) <= y < self.probe_high(x)
        &&& self.cols[x][y] != 11
    }

    /// What taking the cell at (`x`, `y`) out sets off.
    pub open spec fn probe(self, x: int, y: int) -> Cascade {
        self.without_cell(x, y).chain(one_column(x))
    }

    /// The best probe among the first `n` cells, counted column by column
    /// from the bottom: the one with the longest cascade, and of several such
    /// the last.
    pub open spec fn best_probe(self, outer: bool, n: int) -> Probe
        decreases n,
    {
        if n <= 0 {
            Probe { found: false, chains: 0, x: 0, y: 0 }
        } else {
            let prev = self.best_probe(outer, n - 1);
            let x = (n - 1) / 16;
            let y = (n - 1) % 16;
            let c = self.probe(x, y).chains;
            if self.probed(x, y, outer) && (!prev.found || c >= prev.chains) {
                Probe { found: true, chains: c, x, y }
            } else {
                prev
            }
        }
    }

    /// What the best probe leaves: the board after its cascade, or the empty
    /// board where no cell was probed.
    pub open spec fn probe_grid(self, outer: bool) -> Grid {
        let p = self.best_probe(outer, 160);
        if p.found {
            self.probe(p.x, p.y).grid
        } else {
            Grid::empty()
        }
    }

    /// Whether the ability removes the cell at (`x`, `y`): a block that is no
    /// obstacle and that is a five or touches one with a side.
    pub open spec fn bombed(self, x: int, y: int) -> bool {
        let v = self.cell(x, y);
        &&& v != 0
        &&& v != 11
        &&& (v == 5 || self.cell(x, y - 1) == 5 || self.cell(x, y + 1) == 5 || self.cell(x - 1, y)
            == 5 || self.cell(x + 1, y) == 5)
    }

    /// The cells that the ability removes.
    pub open spec fn blast(self) -> Seq<Seq<bool>> {
        Seq::new(10, |x: int| Seq::new(16, |y: int| self.bombed(x, y)))
    }

    /// The board with the one cell at (`x`, `y`) taken out.
    pub open spec fn without_cell(self, x: int, y: int) -> Grid {
        self.erase(one_cell(x, y))
    }
}

// ---------------------------------------------------------------------------
// Facts about the model
// ---------------------------------------------------------------------------

/// A cell that a round removes holds a numbered block.
pub proof fn lemma_flagged_is_block(g: Grid, ch: Seq<bool>, x: int, y: int)
    requires
        g.wf(),
        0 <= x < 10,
        0 <= y < 16,
        g.flagged(ch, x, y),
    ensures
        1 <= g.cols[x][y] <= 9,
{
    lemma_cell_valid(g, x, y);
    lemma_cell_valid(g, x, y - 1);
    lemma_cell_valid(g, x, y + 1);
    lemma_cell_valid(g, x + 1, y - 1);
    lemma_cell_valid(g, x + 1, y);
    lemma_cell_valid(g, x + 1, y + 1);
    lemma_cell_valid(g, x - 1, y - 1);
    lemma_cell_valid(g, x - 1, y);
    lemma_cell_valid(g, x - 1, y + 1);
    if pair_examined(ch, x) {
        assert(g.cell(x + 1, y) == g.cols[x + 1][y]);
        assert(g.cell(x + 1, y - 1) == cell_at(g.cols[x + 1], y - 1));
        assert(g.cell(x + 1, y + 1) == cell_at(g.cols[x + 1], y + 1));
    }
    if pair_examined(ch, x - 1) {
        assert(g.cell(x - 1, y) == g.cols[x - 1][y]);
        assert(g.cell(x - 1, y - 1) == cell_at(g.cols[x - 1], y - 1));
        assert(g.cell(x - 1, y + 1) == cell_at(g.cols[x - 1], y + 1));
    }
}

/// Every cell of a well-formed board, inside or outside, is a valid cell.
pub proof fn lemma_cell_valid(g: Grid, x: int, y: int)
    requires
        g.wf(),
    ensures
        valid_cell(g.cell(x, y)),
{
    if 0 <= x < 10 && 0 <= y < 16 {
        assert(valid_cells(g.cols[x]));
    }
}

/// The height of a mask is the height of a column that has a block exactly
/// where the mask has a raised flag.
pub proof fn lemma_top_flag(s: Seq<int>, f: Seq<bool>)
    requires
        s.len() == f.len(),
        forall|k: int| 0 <= k < s.len() ==> f[k] == (s[k] != 0),
    ensures
        top(s) == top_flag(f),
        0 <= top_flag(f) <= f.len(),
    decreases s.len(),
{
    if s.len() > 0 {
        lemma_top_flag(s.drop_last(), f.drop_last());
    }
}

pub proof fn lemma_max_top_flag(fl: Seq<Seq<bool>>, ch: Seq<bool>, want: bool, n: int)
    requires
        0 <= n <= fl.len(),
        forall|x: int| 0 <= x < fl.len() ==> (#[trigger] fl[x]).len() == 16,
    ensures
        0 <= max_top_flag(fl, ch, want, n) <= 16,
    decreases n,
{
    if n > 0 {
        lemma_max_top_flag(fl, ch, want, n - 1);
        lemma_top_flag(Seq::new(16, |k: int| if fl[n - 1][k] { 1int } else { 0int }), fl[n - 1]);
    }
}

pub proof fn lemma_sum_tops_bound(cols: Seq<Seq<int>>)
    requires
        forall|x: int| 0 <= x < cols.len() ==> (#[trigger] cols[x]).len() == 16,
    ensures
        0 <= sum_tops(cols) <= 16 * cols.len(),
    decreases cols.len(),
{
    if cols.len() > 0 {
        lemma_sum_tops_bound(cols.drop_last());
        crate::column::lemma_top(cols.last());
    }
}

pub proof fn lemma_sum_flags_bound(fl: Seq<Seq<bool>>)
    requires
        forall|x: int| 0 <= x < fl.len() ==> (#[trigger] fl[x]).len() == 16,
    ensures
        0 <= sum_flags(fl) <= 16 * fl.len(),
    decreases fl.len(),
{
    if fl.len() > 0 {
        lemma_sum_flags_bound(fl.drop_last());
        crate::column::lemma_gone_below_prefix(fl.last(), fl.last(), 16);
    }
}

pub proof fn lemma_sum_blocks_bound(cols: Seq<Seq<int>>)
    requires
        forall|x: int| 0 <= x < cols.len() ==> (#[trigger] cols[x]).len() == 16,
    ensures
        sum_blocks(cols) <= 16 * cols.len(),
    decreases cols.len(),
{
    if cols.len() > 0 {
        lemma_sum_blocks_bound(cols.drop_last());
        lemma_blocks_bound(cols.last());
    }
}

/// Column by column no more blocks, and fewer in one column, is fewer in all.
pub proof fn lemma_sum_blocks_less(a: Seq<Seq<int>>, b: Seq<Seq<int>>, x: int)
    requires
        a.len() == b.len(),
        forall|i: int| 0 <= i < a.len() ==> blocks(#[trigger] a[i]) <= blocks(b[i]),
        -1 <= x < a.len(),
        x >= 0 ==> blocks(a[x]) < blocks(b[x]),
    ensures
        sum_blocks(a) <= sum_blocks(b),
        x >= 0 ==> sum_blocks(a) < sum_blocks(b),
    decreases a.len(),
{
    if a.len() > 0 {
        let n = a.len() - 1;
        assert(blocks(a[n]) <= blocks(b[n]));
        if x == n {
            lemma_sum_blocks_less(a.drop_last(), b.drop_last(), -1);
        } else {
            lemma_sum_blocks_less(a.drop_last(), b.drop_last(), x);
        }
    }
}

/// Clearing keeps a board well-formed and never adds a block.
pub proof fn lemma_erase(g: Grid, fl: Seq<Seq<bool>>)
    requires
        g.wf(),
        flags_wf(fl),
    ensures
        g.erase(fl).wf(),
        g.erase(fl).blocks() <= g.blocks(),
        g.erase(fl).dead == g.dead,
        !any_flag(fl) ==> g.erase(fl) == g,
{
    let e = g.erase(fl);
    assert forall|x: int| 0 <= x < 10 implies (#[trigger] e.cols[x]).len() == 16 && valid_cells(
        e.cols[x],
    ) && blocks(e.cols[x]) <= blocks(g.cols[x]) by {
        lemma_settle_valid(g.cols[x], fl[x]);
        lemma_settle_blocks(g.cols[x], fl[x]);
    }
    lemma_sum_blocks_less(e.cols, g.cols, -1);
    if !any_flag(fl) {
        assert forall|x: int| 0 <= x < 10 implies #[trigger] e.cols[x] == g.cols[x] by {
            assert forall|k: int| 0 <= k < 16 implies !fl[x][k] by {}
            lemma_settle_nothing(g.cols[x], fl[x]);
        }
        assert(e.cols =~= g.cols);
    }
}

/// A round that removes anything leaves fewer blocks.
pub proof fn lemma_erase_blocks(g: Grid, ch: Seq<bool>)
    requires
        g.wf(),
        any_flag(g.removal(ch)),
    ensures
        g.erase(g.removal(ch)).blocks() < g.blocks(),
        g.erase(g.removal(ch)).wf(),
{
    let fl = g.removal(ch);
    let e = g.erase(fl);
    lemma_erase(g, fl);
    let (x, y) = choose|x: int, y: int| 0 <= x < 10 && 0 <= y < 16 && #[trigger] fl[x][y];
    lemma_flagged_is_block(g, ch, x, y);
    assert forall|i: int| 0 <= i < 10 implies blocks(#[trigger] e.cols[i]) <= blocks(
        g.cols[i],
    ) by {
        lemma_settle_blocks(g.cols[i], fl[i]);
    }
    lemma_settle_blocks(g.cols[x], fl[x]);
    assert(fl[x][y] && g.cols[x][y] != 0);
    lemma_sum_blocks_less(e.cols, g.cols, x);
}

/// A well-formed board holds at most 160 blocks.
pub proof fn lemma_blocks_bound_grid(g: Grid)
    requires
        g.wf(),
    ensures
        g.blocks() <= 160,
{
    lemma_sum_blocks_bound(g.cols);
}

/// A cascade leaves a well-formed board with no more blocks, keeps the dead
/// mark, and has at most as many rounds as it removes blocks.
pub proof fn lemma_chain(g: Grid, ch: Seq<bool>)
    requires
        g.wf(),
    ensures
        g.chain(ch).grid.wf(),
        g.chain(ch).grid.dead == g.dead,
        g.chain(ch).chains + g.chain(ch).grid.blocks() <= g.blocks(),
        g.chain(ch).chains <= 160,
    decreases g.blocks(),
{
    let fl = g.removal(ch);
    lemma_blocks_bound_grid(g);
    if any_flag(fl) {
        lemma_erase_blocks(g, ch);
        lemma_erase(g, fl);
        lemma_chain(g.erase(fl), touched(fl));
    }
}

/// A cascade has no round exactly when its first round finds no pair that
/// adds up to ten among the cells it compares.
pub proof fn lemma_chain_zero(g: Grid, ch: Seq<bool>)
    requires
        g.wf(),
    ensures
        g.chain(ch).chains == 0 <==> !any_flag(g.removal(ch)),
        !any_flag(g.removal(ch)) ==> g.chain(ch).grid == g,
{
}

/// Dropping a valid value keeps a board well-formed.
pub proof fn lemma_fall(g: Grid, x: int, v: int)
    requires
        g.wf(),
        0 <= x < 10,
        valid_cell(v),
    ensures
        g.fall(x, v).wf(),
        g.dead ==> g.fall(x, v).dead,
        g.drop_cell(x, v).wf(),
        g.dead ==> g.drop_cell(x, v).dead,
{
    let h = g.height(x);
    crate::column::lemma_top(g.cols[x]);
    if h < 16 {
        let f = g.fall(x, v);
        assert forall|i: int| 0 <= i < 10 implies (#[trigger] f.cols[i]).len() == 16 && valid_cells(
            f.cols[i],
        ) by {
            assert(valid_cells(g.cols[i]));
        }
    }
}

pub proof fn lemma_drop_pack(g: Grid, p: Pack, pos: int)
    requires
        g.wf(),
        0 <= pos < 9,
        valid_pack(p),
    ensures
        g.drop_pack(p, pos).wf(),
        g.dead ==> g.drop_pack(p, pos).dead,
{
    lemma_fall(g, pos, p.bl);
    let g1 = g.drop_cell(pos, p.bl);
    lemma_fall(g1, pos, p.tl);
    let g2 = g1.drop_cell(pos, p.tl);
    lemma_fall(g2, pos + 1, p.br);
    let g3 = g2.drop_cell(pos + 1, p.br);
    lemma_fall(g3, pos + 1, p.tr);
}

/// The best probe names a cell of the board.
pub proof fn lemma_best_probe(g: Grid, outer: bool, n: int)
    ensures
        0 <= g.best_probe(outer, n).x < 10,
        0 <= g.best_probe(outer, n).y < 16,
    decreases n,
{
    if n > 0 {
        lemma_best_probe(g, outer, n - 1);
    }
}

/// The flags of the ability cover the board.
pub proof fn lemma_blast(g: Grid)
    ensures
        flags_wf(g.blast()),
        flags_wf(one_cell(0, 0)),
{
}

pub proof fn lemma_rotated_valid(p: Pack, rot: nat)
    requires
        valid_pack(p),
    ensures
        valid_pack(rotated(p, rot)),
    decreases rot,
{
    if rot > 0 {
        lemma_rotated_valid(turned(p), (rot - 1) as nat);
    }
}

pub proof fn lemma_fall_obstacles(g: Grid, n: int)
    requires
        g.wf(),
        n <= 10,
    ensures
        g.fall_obstacles(n).wf(),
        g.dead ==> g.fall_obstacles(n).dead,
    decreases n,
{
    if n > 0 {
        lemma_fall_obstacles(g, n - 1);
        lemma_fall(g.fall_obstacles(n - 1), n - 1, 11);
    }
}

} // verus!
