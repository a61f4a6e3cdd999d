//! The board: ten packed columns and the dead mark, with the moves that
//! change it. Every contract is stated over the board's model, its `Grid`.
use vstd::prelude::*;
use crate::action::ActionResult;
use crate::bits::{
    calc_empty_mask, calc_five_mask, calc_obstacle_mask, calc_remove, count_raised, get_lane, height,
    lemma_packed, one_flag,
    lemma_cells_injective, lemma_mask_zero, lemma_set_lane, lemma_zero_lanes, mask_minus, mask_or,
    own_mask, pair_masks, remove_flagged, shift_down, shift_up,
};
use crate::column::{
    cells, count_flags, flags, is_flag_mask, lane, lemma_gone_below_prefix, lemma_settle_nothing,
    lemma_top, pair_mask, valid_cell, valid_cells, value_mask,
};
use crate::consts::{H, OBSTACLE, W};
use crate::grid::{
    any_flag, changed_columns, column_touched, lemma_blocks_bound_grid, lemma_chain, lemma_drop_pack,
    lemma_erase, lemma_erase_blocks, lemma_fall, lemma_max_top_flag, lemma_rotated_valid,
    lemma_sum_flags_bound, lemma_sum_tops_bound, lemma_top_flag, max_top_flag, one_cell, one_column,
    pack_columns, rotated, sum_flags, sum_tops, top_flag, touched, turned, valid_pack, Grid, Pack,
    Shape,
};
use crate::score::{calc_bomb_result, calc_chain_result, chain_result};

verus! {

/// Number of cells of a board.
pub const CELLS: usize = 160;

/// A board. Its model (`@`) is a `Grid`.
#[derive(Clone, Copy, Debug)]
pub struct Board {
    column: [u64; W],
    dead: bool,
}

impl View for Board {
    type V = Grid;

    closed spec fn view(&self) -> Grid {
        Grid { cols: Seq::new(10, |x: int| cells(self.column[x])), dead: self.dead }
    }
}

/// The structural measures of a board, which a score function may weigh.
#[derive(Clone, Copy, Debug)]
pub struct Feature {
    pub keima: i32,
    pub keima2: i32,
    pub tate: i32,
    pub tate2: i32,
    pub num_block: i32,
    pub var: i32,
}

impl View for Feature {
    type V = Shape;

    open spec fn view(&self) -> Shape {
        Shape {
            keima: self.keima as int,
            keima2: self.keima2 as int,
            tate: self.tate as int,
            tate2: self.tate2 as int,
            num_block: self.num_block as int,
            var: self.var as int,
        }
    }
}

/// The model of a piece given as two rows of two cells, top row first.
pub open spec fn pack_of(p: [[u8; 2]; 2]) -> Pack {
    Pack { tl: p[0][0] as int, tr: p[0][1] as int, bl: p[1][0] as int, br: p[1][1] as int }
}

/// The flags of ten masks.
pub open spec fn mask_flags(mask: [u64; W]) -> Seq<Seq<bool>> {
    Seq::new(10, |x: int| flags(mask[x]))
}

/// Every one of the ten masks is a flag mask.
pub open spec fn flag_masks(mask: [u64; W]) -> bool {
    forall|x: int| 0 <= x < 10 ==> is_flag_mask(#[trigger] mask[x])
}

/// Whether every cell of the piece is a valid cell.
pub fn pack_is_valid(p: &[[u8; 2]; 2]) -> (r: bool)
    ensures
        r == valid_pack(pack_of(*p)),
{
    cell_is_valid(p[0][0]) && cell_is_valid(p[0][1]) && cell_is_valid(p[1][0]) && cell_is_valid(
        p[1][1],
    )
}

/// Whether `v` is a valid cell.
pub fn cell_is_valid(v: u8) -> (r: bool)
    ensures
        r == valid_cell(v as int),
{
    v <= 9 || v == 11
}

/// Whether every entry of a flat board picture is a valid cell.
pub fn picture_is_valid(board: &[u8; CELLS]) -> (r: bool)
    ensures
        r == valid_picture(*board),
{
    let mut i: usize = 0;
    while i < CELLS
        invariant
            i <= 160,
            forall|j: int| 0 <= j < i ==> valid_cell(#[trigger] board[j] as int),
        decreases 160 - i,
    {
        if !cell_is_valid(board[i]) {
            return false;
        }
        i = i + 1;
    }
    true
}

/// Every entry of a flat board picture is a valid cell.
pub open spec fn valid_picture(board: [u8; CELLS]) -> bool {
    forall|i: int| 0 <= i < 160 ==> valid_cell(#[trigger] board[i] as int)
}

impl Board {
    /// Every cell is a valid cell.
    pub open spec fn wf(&self) -> bool {
        self@.wf()
    }

    /// The empty board.
    pub fn new() -> (b: Self)
        ensures
            b@ == Grid::empty(),
            b.wf(),
    {
        let b = Self { column: [0; W], dead: false };
        proof {
            assert forall|x: int| 0 <= x < 10 implies cells(#[trigger] b.column[x]) =~= Seq::new(
                16,
                |y: int| 0int,
            ) by {
                crate::bits::lemma_zero_lanes();
            }
            assert(b@.cols =~= Grid::empty().cols);
        }
        b
    }

    /// The board with the given packed columns.
    pub fn from_columns(column: [u64; W]) -> (b: Self)
        ensures
            !b@.dead,
            b@.cols.len() == 10,
            forall|x: int| 0 <= x < 10 ==> #[trigger] b@.cols[x] == cells(column[x]),
    {
        Self { column, dead: false }
    }

    /// The packed columns of the board.
    pub fn columns(&self) -> (column: [u64; W])
        ensures
            forall|x: int| 0 <= x < 10 ==> cells(#[trigger] column[x]) == self@.cols[x],
    {
        self.column
    }

    /// Whether no cell holds a block.
    pub fn is_empty(&self) -> (r: bool)
        ensures
            r == self@.is_empty(),
    {
        let mut x: usize = 0;
        while x < W
            invariant
                x <= 10,
                forall|i: int, y: int| 0 <= i < x && 0 <= y < 16 ==> #[trigger] self@.cols[i][y] == 0,
            decreases 10 - x,
        {
            if self.column[x] != 0 {
                proof {
                    let c = self.column[x as int];
                    if forall|y: int| 0 <= y < 16 ==> #[trigger] self@.cols[x as int][y] == 0 {
                        crate::bits::lemma_zero_lanes();
                        assert forall|y: int| 0 <= y < 16 implies lane(c, y) == 0 by {
                            assert(self@.cols[x as int][y] == 0);
                        }
                        assert(cells(c) =~= cells(0));
                        lemma_cells_injective(c, 0);
                    }
                }
                return false;
            }
            proof {
                crate::bits::lemma_zero_lanes();
            }
            x = x + 1;
        }
        true
    }

    /// The board of a flat picture that lists the rows from top to bottom,
    /// each row from left to right.
    pub fn from_board(board: [u8; CELLS]) -> (b: Self)
        requires
            valid_picture(board),
        ensures
            b.wf(),
            !b@.dead,
            forall|x: int, y: int|
                0 <= x < 10 && 0 <= y < 16 ==> #[trigger] b@.cols[x][y] == board[(15 - y) * 10 + x],
    {
        let mut b = Board::new();
        let mut x: usize = 0;
        while x < W
            invariant
                x <= 10,
                !b.dead,
                valid_picture(board),
                forall|i: int, y: int|
                    0 <= i < x && 0 <= y < 16 ==> #[trigger] b@.cols[i][y] == board[(15 - y) * 10 + i],
            decreases 10 - x,
        {
            let mut c: u64 = 0;
            let mut y: usize = 0;
            proof {
                crate::bits::lemma_zero_lanes();
            }
            while y < H
                invariant
                    x < 10,
                    y <= 16,
                    forall|j: int| 0 <= j < y ==> lane(c, j) == board[(15 - j) * 10 + x],
                    forall|j: int| y <= j < 16 ==> lane(c, j) == 0,
                    valid_picture(board),
                decreases 16 - y,
            {
                let v = board[(H - 1 - y) * W + x];
                proof {
                    assert(valid_cell(board[(15 - y) * 10 + x] as int));
                    lemma_set_lane(c, y as int, v as u64);
                    let r = c | ((v as u64) << ((4 * y) as u64));
                    assert forall|j: int| 0 <= j < 16 implies lane(r, j) == cells(c).update(
                        y as int,
                        v as int,
                    )[j] by {
                        assert(cells(r)[j] == lane(r, j));
                    }
                }
                c = c | ((v as u64) << (4 * y));
                y = y + 1;
            }
            let ghost prev = b;
            b.column[x] = c;
            proof {
                assert forall|i: int, y: int| 0 <= i < x + 1 && 0 <= y < 16 implies #[trigger] b@.cols[i][y]
                    == board[(15 - y) * 10 + i] by {
                    if i < x {
                        assert(b.column[i] == prev.column[i]);
                        assert(prev@.cols[i][y] == board[(15 - y) * 10 + i]);
                    }
                }
            }
            x = x + 1;
        }
        proof {
            assert forall|x: int| 0 <= x < 10 implies (#[trigger] b@.cols[x]).len() == 16
                && valid_cells(b@.cols[x]) by {
                assert forall|y: int| 0 <= y < 16 implies valid_cell(#[trigger] b@.cols[x][y]) by {
                    assert(valid_cell(board[(15 - y) * 10 + x] as int));
                }
            }
        }
        b
    }

    /// Whether every cell is a valid cell.
    pub fn is_valid(&self) -> (r: bool)
        ensures
            r == self.wf(),
    {
        let mut x: usize = 0;
        while x < W
            invariant
                x <= 10,
                forall|i: int|
                    0 <= i < x ==> (#[trigger] self@.cols[i]).len() == 16 && valid_cells(
                        self@.cols[i],
                    ),
            decreases 10 - x,
        {
            let mut y: usize = 0;
            while y < H
                invariant
                    x < 10,
                    y <= 16,
                    forall|j: int| 0 <= j < y ==> valid_cell(#[trigger] self@.cols[x as int][j]),
                decreases 16 - y,
            {
                let v = get_lane(self.column[x], y);
                if v == 10 || v > 11 {
                    proof {
                        assert(!valid_cell(self@.cols[x as int][y as int]));
                    }
                    return false;
                }
                y = y + 1;
            }
            x = x + 1;
        }
        true
    }

    /// The cell in column `x`, row `y`.
    pub fn get(&self, x: usize, y: usize) -> (v: u8)
        requires
            x < 10,
            y < 16,
        ensures
            v == self@.cols[x as int][y as int],
    {
        get_lane(self.column[x], y)
    }

    /// Whether a column has overflowed.
    pub fn is_dead(&self) -> (r: bool)
        ensures
            r == self@.dead,
    {
        self.dead
    }

    /// The height of column `x`.
    pub fn height(&self, x: usize) -> (h: usize)
        requires
            x < 10,
        ensures
            h == self@.height(x as int),
            h <= 16,
    {
        height(self.column[x])
    }

    /// Lets the value `v` fall onto column `x`.
    pub fn fall(&mut self, x: usize, v: u64)
        requires
            x < 10,
            v < 16,
        ensures
            final(self)@ == old(self)@.fall(x as int, v as int),
    {
        let h = self.height(x);
        if h == 16 {
            self.dead = true;
            proof {
                assert(self@.cols =~= old(self)@.cols);
            }
            return ;
        }
        proof {
            lemma_top(cells(self.column[x as int]));
            assert(cells(self.column[x as int])[h as int] == 0);
            lemma_set_lane(self.column[x as int], h as int, v);
        }
        let c = self.column[x] | (v << (4 * h));
        self.column[x] = c;
        proof {
            let g = old(self)@.fall(x as int, v as int);
            assert forall|i: int| 0 <= i < 10 implies #[trigger] self@.cols[i] == g.cols[i] by {
                if i != x {
                    assert(self.column[i] == old(self).column[i]);
                }
            }
            assert(self@.cols =~= g.cols);
        }
    }

    /// Lets an obstacle fall onto every column.
    pub fn fall_obstacle(&mut self)
        ensures
            final(self)@ == old(self)@.fall_obstacles(10),
    {
        let mut x: usize = 0;
        while x < W
            invariant
                x <= 10,
                self@ == old(self)@.fall_obstacles(x as int),
            decreases 10 - x,
        {
            self.fall(x, OBSTACLE);
            x = x + 1;
        }
    }

    /// The flags of the cells that vanish in a round that starts from the
    /// changed columns `ch`.
    pub fn removal_masks(&self, ch: &[bool; W]) -> (mask: [u64; W])
        requires
            self.wf(),
        ensures
            flag_masks(mask),
            mask_flags(mask) =~= self@.removal(ch@),
    {
        let mut mask: [u64; W] = [0; W];
        proof {
            lemma_zero_lanes();
        }
        let mut i: usize = 0;
        while i < W - 1
            invariant
                i <= 9,
                self.wf(),
                flag_masks(mask),
                forall|x: int, y: int|
                    0 <= x < 10 && 0 <= y < 16 ==> #[trigger] flags(mask[x])[y]
                        == self@.flagged_upto(ch@, x, y, i as int),
            decreases 9 - i,
        {
            if ch[i] || ch[i + 1] {
                let a = self.column[i];
                let b = self.column[i + 1];
                proof {
                    assert(self@.cols[i as int] == cells(a));
                    assert(self@.cols[i + 1] == cells(b));
                }
                let own = own_mask(a);
                let pair = pair_masks(a, b);
                let mi = mask_or(mask[i], mask_or(own, pair.0));
                let mj = mask_or(mask[i + 1], pair.1);
                let ghost prev = mask;
                mask[i] = mi;
                mask[i + 1] = mj;
                proof {
                    assert forall|x: int, y: int| 0 <= x < 10 && 0 <= y < 16 implies #[trigger] flags(
                        mask[x],
                    )[y] == self@.flagged_upto(ch@, x, y, i + 1) by {
                        assert(flags(prev[x])[y] == self@.flagged_upto(ch@, x, y, i as int));
                        if x == i {
                            assert(flags(own)[y] == self@.meets_column(x, y));
                            assert(flags(pair.0)[y] == self@.meets_beside(x, y, x + 1));
                        } else if x == i + 1 {
                            assert(flags(pair.1)[y] == self@.meets_beside(x, y, x - 1));
                        }
                    }
                }
            }
            i = i + 1;
        }
        let a = self.column[W - 1];
        proof {
            assert(self@.cols[9] == cells(a));
        }
        let own = own_mask(a);
        let ghost prev = mask;
        mask[W - 1] = mask_or(mask[W - 1], own);
        proof {
            let g = self@.removal(ch@);
            assert forall|x: int| 0 <= x < 10 implies #[trigger] mask_flags(mask)[x] =~= g[x] by {
                assert forall|y: int| 0 <= y < 16 implies flags(mask[x])[y] == g[x][y] by {
                    assert(flags(prev[x])[y] == self@.flagged_upto(ch@, x, y, 9));
                    if x == 9 {
                        assert(flags(own)[y] == self@.meets_column(x, y));
                    }
                }
            }
        }
        mask
    }

    /// Takes the flagged cells out of every column and lets the cells above
    /// them come down. Returns the columns that lost a cell.
    pub fn fall_by_mask(&mut self, mask: &[u64; W]) -> (changed: [bool; W])
        requires
            flag_masks(*mask),
        ensures
            final(self)@ == old(self)@.erase(mask_flags(*mask)),
            changed@ =~= touched(mask_flags(*mask)),
    {
        let mut changed: [bool; W] = [false; W];
        let ghost fl = mask_flags(*mask);
        let mut i: usize = 0;
        while i < W
            invariant
                i <= 10,
                flag_masks(*mask),
                fl == mask_flags(*mask),
                self.dead == old(self).dead,
                forall|x: int| 0 <= x < i ==> #[trigger] changed[x] == column_touched(fl, x),
                forall|x: int|
                    0 <= x < i ==> cells(#[trigger] self.column[x]) == old(self)@.erase(fl).cols[x],
                forall|x: int| i <= x < 10 ==> #[trigger] self.column[x] == old(self).column[x],
            decreases 10 - i,
        {
            proof {
                lemma_mask_zero(mask[i as int]);
                assert(fl[i as int] == flags(mask[i as int]));
            }
            changed[i] = mask[i] != 0;
            let c = remove_flagged(self.column[i], mask[i]);
            self.column[i] = c;
            i = i + 1;
        }
        proof {
            assert(self@.cols =~= old(self)@.erase(fl).cols);
        }
        changed
    }

    /// How unevenly a round removes cells: the height of the topmost flag
    /// among the unchanged columns, minus the same among the changed ones.
    fn first_spread(mask: &[u64; W], ch: &[bool; W]) -> (r: i8)
        requires
            flag_masks(*mask),
        ensures
            r == max_top_flag(mask_flags(*mask), ch@, false, 10) - max_top_flag(
                mask_flags(*mask),
                ch@,
                true,
                10,
            ),
            -16 <= r <= 16,
    {
        let ghost fl = mask_flags(*mask);
        let mut not_changed_max: usize = 0;
        let mut changed_max: usize = 0;
        let mut x: usize = 0;
        while x < W
            invariant
                x <= 10,
                flag_masks(*mask),
                fl == mask_flags(*mask),
                not_changed_max == max_top_flag(fl, ch@, false, x as int),
                changed_max == max_top_flag(fl, ch@, true, x as int),
                not_changed_max <= 16,
                changed_max <= 16,
            decreases 10 - x,
        {
            let h = height(mask[x]);
            proof {
                let m = mask[x as int];
                assert forall|k: int| 0 <= k < 16 implies flags(m)[k] == (cells(m)[k] != 0) by {
                    assert(lane(m, k) == 0 || lane(m, k) == 1);
                }
                lemma_top_flag(cells(m), flags(m));
                assert(fl[x as int] == flags(m));
            }
            if ch[x] {
                if h > changed_max {
                    changed_max = h;
                }
            } else {
                if h > not_changed_max {
                    not_changed_max = h;
                }
            }
            x = x + 1;
        }
        (not_changed_max as i8) - (changed_max as i8)
    }

    /// Resolves the cascade that starts from the changed columns. Returns
    /// the number of its rounds and the spread of its first round.
    pub fn vanish_from(&mut self, changed: [bool; W]) -> (r: (u8, i8))
        requires
            old(self).wf(),
        ensures
            final(self).wf(),
            final(self)@ == old(self)@.chain(changed@).grid,
            r.0 == old(self)@.chain(changed@).chains,
            r.1 == old(self)@.spread(changed@),
    {
        let ghost start = self@;
        let ghost ch0 = changed@;
        let mut changed = changed;
        let mut rensa: u8 = 0;
        let mut height: i8 = 0;
        let mut first = true;
        proof {
            lemma_blocks_bound_grid(start);
        }
        loop
            invariant_except_break
                self.wf(),
                start.wf(),
                start.blocks() <= 160,
                rensa + self@.blocks() <= start.blocks(),
                start.chain(ch0).grid == self@.chain(changed@).grid,
                start.chain(ch0).chains == self@.chain(changed@).chains + rensa,
                first ==> self@ == start && changed@ == ch0,
                !first ==> height == start.spread(ch0),
            ensures
                self.wf(),
                self@ == start.chain(ch0).grid,
                rensa == start.chain(ch0).chains,
                height == start.spread(ch0),
            decreases self@.blocks(),
        {
            let mask = self.removal_masks(&changed);
            if first {
                height = Self::first_spread(&mask, &changed);
                first = false;
            }
            let ghost before = self@;
            let ghost ch_before = changed@;
            let ghost fl = before.removal(ch_before);
            proof {
                assert(mask_flags(mask) == fl);
                lemma_erase(before, fl);
            }
            changed = self.fall_by_mask(&mask);
            let mut any = false;
            let mut x: usize = 0;
            while x < W
                invariant
                    x <= 10,
                    any == exists|i: int| 0 <= i < x && #[trigger] changed[i],
                decreases 10 - x,
            {
                if changed[x] {
                    any = true;
                }
                x = x + 1;
            }
            proof {
                if any_flag(fl) {
                    let (i, j) = choose|i: int, j: int| 0 <= i < 10 && 0 <= j < 16 && #[trigger] fl[i][j];
                    assert(column_touched(fl, i));
                    assert(changed[i]);
                    lemma_erase_blocks(before, ch_before);
                } else {
                    if any {
                        let i = choose|i: int| 0 <= i < 10 && #[trigger] changed[i];
                        assert(column_touched(fl, i));
                    }
                }
                assert(any == any_flag(fl));
            }
            if !any {
                break ;
            }
            rensa = rensa + 1;
        }
        (rensa, height)
    }

    /// The columns that the bits of `changed` name.
    fn columns_of(changed: usize) -> (ch: [bool; W])
        ensures
            ch@ =~= changed_columns(changed),
    {
        let mut ch: [bool; W] = [false; W];
        let mut x: usize = 0;
        while x < W
            invariant
                x <= 10,
                forall|i: int| 0 <= i < x ==> #[trigger] ch[i] == ((changed >> (i as usize)) & 1 == 1),
            decreases 10 - x,
        {
            ch[x] = (changed >> x) & 1 == 1;
            x = x + 1;
        }
        ch
    }

    /// The chain-resolution loop, from the columns that the bits of
    /// `changed` name. Returns the number of rounds and the spread of the
    /// first round.
    pub fn vanish(&mut self, changed: usize) -> (r: (u8, i8))
        requires
            old(self).wf(),
        ensures
            final(self).wf(),
            final(self)@ == old(self)@.chain(changed_columns(changed)).grid,
            r.0 == old(self)@.chain(changed_columns(changed)).chains,
            r.1 == old(self)@.spread(changed_columns(changed)),
            r.0 == 0 <==> !any_flag(old(self)@.removal(changed_columns(changed))),
    {
        let ch = Self::columns_of(changed);
        self.vanish_from(ch)
    }

    /// Lets the value `v` fall onto column `x` unless it is 0, and marks
    /// the column as changed.
    fn drop_cell(&mut self, x: usize, v: u8, changed: &mut [bool; W])
        requires
            x < 10,
            valid_cell(v as int),
            old(self).wf(),
        ensures
            final(self).wf(),
            final(self)@ == old(self)@.drop_cell(x as int, v as int),
            final(changed)@ == (if v == 0 {
                old(changed)@
            } else {
                old(changed)@.update(x as int, true)
            }),
    {
        if v != 0 {
            proof {
                lemma_fall(self@, x as int, v as int);
            }
            self.fall(x, v as u64);
            changed[x] = true;
        }
    }

    /// Drops the piece, after `rot` quarter turns, with its left half on
    /// column `pos`, and resolves the cascade that this sets off.
    pub fn put(&mut self, pattern: &[[u8; 2]; 2], pos: usize, rot: usize) -> (r: ActionResult)
        requires
            old(self).wf(),
            pos < 9,
            valid_pack(pack_of(*pattern)),
        ensures
            final(self).wf(),
            final(self)@ == old(self)@.put(pack_of(*pattern), pos as int, rot as nat).grid,
            r == old(self)@.put(pack_of(*pattern), pos as int, rot as nat).result,
            old(self)@.dead ==> final(self)@.dead,
    {
        let q = rotate(pattern, rot);
        let ghost p = pack_of(q);
        let mut changed: [bool; W] = [false; W];
        proof {
            lemma_rotated_valid(pack_of(*pattern), rot as nat);
            lemma_drop_pack(self@, p, pos as int);
        }
        self.drop_cell(pos, q[1][0], &mut changed);
        self.drop_cell(pos, q[0][0], &mut changed);
        self.drop_cell(pos + 1, q[1][1], &mut changed);
        self.drop_cell(pos + 1, q[0][1], &mut changed);
        proof {
            assert(changed@ =~= pack_columns(p, pos as int));
            lemma_chain(self@, changed@);
            lemma_max_top_flag(self@.removal(changed@), changed@, false, 10);
            lemma_max_top_flag(self@.removal(changed@), changed@, true, 10);
        }
        let v = self.vanish_from(changed);
        calc_chain_result(v.0, v.1)
    }

    /// Drops the single value `v` onto column `x` and resolves the cascade
    /// that this sets off.
    pub fn put_one(&mut self, v: u8, x: usize) -> (r: ActionResult)
        requires
            old(self).wf(),
            x < 10,
            valid_cell(v as int),
        ensures
            final(self).wf(),
            final(self)@ == old(self)@.put_one(v as int, x as int).grid,
            r == old(self)@.put_one(v as int, x as int).result,
            old(self)@.dead ==> final(self)@.dead,
    {
        proof {
            lemma_fall(self@, x as int, v as int);
        }
        self.fall(x, v as u64);
        let mut changed: [bool; W] = [false; W];
        changed[x] = true;
        proof {
            assert(changed@ =~= one_column(x as int));
            lemma_chain(self@, changed@);
            lemma_max_top_flag(self@.removal(changed@), changed@, false, 10);
            lemma_max_top_flag(self@.removal(changed@), changed@, true, 10);
        }
        let r = self.vanish_from(changed);
        calc_chain_result(r.0, r.1)
    }

    /// The flags of the cells that the ability removes.
    pub fn blast_masks(&self) -> (mask: [u64; W])
        ensures
            flag_masks(mask),
            mask_flags(mask) =~= self@.blast(),
    {
        let mut mask: [u64; W] = [0; W];
        proof {
            lemma_zero_lanes();
        }
        let mut x: usize = 0;
        while x < W
            invariant
                x <= 10,
                flag_masks(mask),
                forall|i: int, y: int|
                    0 <= i < x && 0 <= y < 16 ==> #[trigger] flags(mask[i])[y] == self@.bombed(i, y),
            decreases 10 - x,
        {
            let c = self.column[x];
            let five = calc_five_mask(c);
            let mut m = mask_or(five, mask_or(shift_up(five, 1), shift_down(five, 1)));
            if x > 0 {
                m = mask_or(m, calc_five_mask(self.column[x - 1]));
            }
            if x + 1 < W {
                m = mask_or(m, calc_five_mask(self.column[x + 1]));
            }
            m = mask_minus(m, calc_obstacle_mask(c));
            m = mask_minus(m, calc_empty_mask(c));
            let ghost prev = mask;
            mask[x] = m;
            proof {
                assert forall|i: int, y: int| 0 <= i < x + 1 && 0 <= y < 16 implies #[trigger] flags(
                    mask[i],
                )[y] == self@.bombed(i, y) by {
                    if i < x {
                        assert(flags(prev[i])[y] == self@.bombed(i, y));
                    } else {
                        assert(self@.cols[i] == cells(c));
                        if x > 0 {
                            assert(self@.cols[i - 1] == cells(self.column[x - 1]));
                        }
                        if x + 1 < 10 {
                            assert(self@.cols[i + 1] == cells(self.column[x + 1]));
                        }
                    }
                }
            }
            x = x + 1;
        }
        proof {
            let g = self@.blast();
            assert forall|i: int| 0 <= i < 10 implies #[trigger] mask_flags(mask)[i] =~= g[i] by {
                assert forall|y: int| 0 <= y < 16 implies flags(mask[i])[y] == g[i][y] by {
                    assert(flags(mask[i])[y] == self@.bombed(i, y));
                }
            }
        }
        mask
    }

    /// The number of raised flags of ten masks.
    fn count_masks(mask: &[u64; W]) -> (n: u8)
        ensures
            n == sum_flags(mask_flags(*mask)),
            n <= 160,
    {
        let ghost fl = mask_flags(*mask);
        let mut n: u8 = 0;
        let mut x: usize = 0;
        while x < W
            invariant
                x <= 10,
                fl == mask_flags(*mask),
                n == sum_flags(fl.take(x as int)),
                n <= 16 * x,
            decreases 10 - x,
        {
            proof {
                assert(fl.take(x + 1).drop_last() =~= fl.take(x as int));
                assert(fl.take(x + 1).last() == flags(mask[x as int]));
            }
            n = n + count_raised(mask[x]) as u8;
            x = x + 1;
        }
        proof {
            assert(fl.take(10) =~= fl);
        }
        n
    }

    /// Uses the ability: removes the fives and the blocks beside them, and
    /// resolves the cascade that this sets off.
    pub fn use_skill(&mut self) -> (r: ActionResult)
        requires
            old(self).wf(),
        ensures
            final(self).wf(),
            final(self)@ == old(self)@.use_skill().grid,
            r == old(self)@.use_skill().result,
            old(self)@.dead ==> final(self)@.dead,
    {
        let mask = self.blast_masks();
        let bombed = Self::count_masks(&mask);
        proof {
            lemma_erase(self@, self@.blast());
        }
        let changed = self.fall_by_mask(&mask);
        proof {
            lemma_chain(self@, changed@);
            lemma_max_top_flag(self@.removal(changed@), changed@, false, 10);
            lemma_max_top_flag(self@.removal(changed@), changed@, true, 10);
        }
        let v = self.vanish_from(changed);
        calc_bomb_result(bombed, v.0, v.1)
    }

    /// The number of lanes in which the columns `a` and `b` add up to ten.
    fn count_pairs(a: u64, b: u64) -> (n: i32)
        ensures
            n == count_flags(pair_mask(cells(a), cells(b))),
            0 <= n <= 16,
    {
        let r = calc_remove(a, b);
        proof {
            lemma_gone_below_prefix(flags(r), flags(r), 16);
        }
        count_raised(r) as i32
    }

    /// The structural measures of the board.
    pub fn calc_feature(&self) -> (f: Feature)
        ensures
            f@ == self@.shape(),
    {
        let mut keima: i32 = 0;
        let mut keima2: i32 = 0;
        let mut tate: i32 = 0;
        let mut tate2: i32 = 0;
        let mut var: i32 = 0;
        let mut num_block: i32 = 0;
        let ghost g = self@;
        let mut i: usize = 0;
        while i < W
            invariant
                i <= 10,
                g == self@,
                keima == g.keima_upto(2, if i < 9 { i as int } else { 9 }),
                keima2 == g.keima_upto(3, if i < 9 { i as int } else { 9 }),
                tate == g.tate_upto(2, i as int),
                tate2 == g.tate_upto(3, i as int),
                var == g.var_upto(if i < 9 { i as int } else { 9 }),
                num_block == sum_tops(g.cols.take(i as int)),
                0 <= keima <= 32 * i,
                0 <= keima2 <= 32 * i,
                0 <= tate <= 16 * i,
                0 <= tate2 <= 16 * i,
                0 <= var <= 256 * i,
                0 <= num_block <= 16 * i,
            decreases 10 - i,
        {
            let a = self.column[i];
            proof {
                assert(g.cols[i as int] == cells(a));
                assert(g.cols.take(i + 1).drop_last() =~= g.cols.take(i as int));
                assert(g.cols.take(i + 1).last() == cells(a));
            }
            tate = tate + Self::count_pairs(a, shift_up(a, 2));
            tate2 = tate2 + Self::count_pairs(a, shift_up(a, 3));
            let h: i32 = height(a) as i32;
            num_block = num_block + h;
            if i + 1 < W {
                let b = self.column[i + 1];
                proof {
                    assert(g.cols[i + 1] == cells(b));
                }
                keima = keima + Self::count_pairs(a, shift_up(b, 2)) + Self::count_pairs(
                    a,
                    shift_down(b, 2),
                );
                keima2 = keima2 + Self::count_pairs(a, shift_up(b, 3)) + Self::count_pairs(
                    a,
                    shift_down(b, 3),
                );
                let d: i32 = h - height(b) as i32;
                assert(0 <= d * d <= 256) by (nonlinear_arith)
                    requires
                        -16 <= d <= 16,
                ;
                var = var + d * d;
            }
            i = i + 1;
        }
        proof {
            assert(g.cols.take(10) =~= g.cols);
        }
        Feature { keima, keima2, tate, tate2, num_block, var }
    }

    /// The least height among the neighbours of column `x`.
    pub fn adjust_height_min(&self, x: usize) -> (h: usize)
        requires
            x < 10,
        ensures
            h == self@.neighbour_min(x as int),
            h <= 16,
    {
        let mut h: usize = H;
        if x > 0 {
            let l = self.height(x - 1);
            if l < h {
                h = l;
            }
        }
        if x < W - 1 {
            let r = self.height(x + 1);
            if r < h {
                h = r;
            }
        }
        h
    }

    /// The greatest height among the neighbours of column `x`.
    pub fn adjust_height_max(&self, x: usize) -> (h: usize)
        requires
            x < 10,
        ensures
            h == self@.neighbour_max(x as int),
            h <= 16,
    {
        let mut h: usize = 0;
        if x > 0 {
            let l = self.height(x - 1);
            if l > h {
                h = l;
            }
        }
        if x < W - 1 {
            let r = self.height(x + 1);
            if r > h {
                h = r;
            }
        }
        h
    }

    /// The greatest height of a column.
    pub fn max_height(&self) -> (h: usize)
        ensures
            h == self@.max_height(),
            h <= 16,
    {
        let mut h: usize = 0;
        let mut x: usize = 0;
        while x < W
            invariant
                x <= 10,
                h == self@.max_height_upto(x as int),
                h <= 16,
            decreases 10 - x,
        {
            let c = self.height(x);
            if c > h {
                h = c;
            }
            x = x + 1;
        }
        h
    }

    /// The number of obstacles on the board.
    pub fn num_obstacle(&self) -> (n: u64)
        ensures
            n == self@.obstacles_upto(10),
            n <= 160,
    {
        let mut n: u64 = 0;
        let mut x: usize = 0;
        while x < W
            invariant
                x <= 10,
                n == self@.obstacles_upto(x as int),
                n <= 16 * x,
            decreases 10 - x,
        {
            let m = calc_obstacle_mask(self.column[x]);
            proof {
                assert(self@.cols[x as int] == cells(self.column[x as int]));
            }
            n = n + count_raised(m) as u64;
            x = x + 1;
        }
        n
    }

    /// The hash of the cells of the board.
    pub fn hash(&self) -> (h: u64)
        ensures
            h == self@.hash(),
    {
        let mut h: u64 = 0;
        let mut x: usize = 0;
        while x < W
            invariant
                x <= 10,
                h == self@.hash_upto(x as int),
            decreases 10 - x,
        {
            proof {
                lemma_packed(self.column[x as int]);
                assert(self@.cols[x as int] == cells(self.column[x as int]));
            }
            h = h.wrapping_mul(31).wrapping_add(self.column[x]);
            x = x + 1;
        }
        h
    }

    /// The row of the topmost obstacle of column `x`, and 0 where it has none.
    fn obstacle_row(&self, x: usize) -> (r: usize)
        requires
            x < 10,
        ensures
            r == self@.obstacle_row(x as int),
            r <= 15,
    {
        let m = calc_obstacle_mask(self.column[x]);
        let t = height(m);
        proof {
            assert(self@.cols[x as int] == cells(self.column[x as int]));
            assert forall|k: int| 0 <= k < 16 implies flags(m)[k] == (cells(m)[k] != 0) by {
                assert(lane(m, k) == 0 || lane(m, k) == 1);
            }
            lemma_top_flag(cells(m), flags(m));
        }
        if t == 0 {
            0
        } else {
            t - 1
        }
    }

    /// The line that bounds the probes of a neighbouring column.
    fn skyline(&self, x: usize, outer: bool) -> (r: usize)
        requires
            x < 10,
        ensures
            r == self@.skyline(x as int, outer),
            r <= 16,
    {
        if outer {
            self.height(x)
        } else {
            self.obstacle_row(x)
        }
    }

    /// The lowest row of column `x` that is probed.
    fn probe_low(&self, x: usize, outer: bool) -> (r: usize)
        requires
            x < 10,
        ensures
            r == self@.probe_low(x as int, outer),
    {
        let mut l: usize = H;
        if x > 0 {
            let a = self.skyline(x - 1, outer);
            if a < l {
                l = a;
            }
        }
        if x + 1 < W {
            let b = self.skyline(x + 1, outer);
            if b < l {
                l = b;
            }
        }
        if l >= 1 {
            l - 1
        } else {
            0
        }
    }

    /// The board with the one cell at (`x`, `y`) taken out.
    fn without_cell(&self, x: usize, y: usize) -> (b: Board)
        requires
            self.wf(),
            x < 10,
            y < 16,
        ensures
            b.wf(),
            b@ == self@.without_cell(x as int, y as int),
    {
        let mut b = *self;
        let m = one_flag(y);
        let c = remove_flagged(self.column[x], m);
        b.column[x] = c;
        proof {
            let fl = one_cell(x as int, y as int);
            let g = self@.erase(fl);
            lemma_erase(self@, fl);
            assert forall|i: int| 0 <= i < 10 implies #[trigger] b@.cols[i] == g.cols[i] by {
                if i == x {
                    assert(fl[i] =~= flags(m));
                } else {
                    assert(b.column[i] == self.column[i]);
                    lemma_settle_nothing(self@.cols[i], fl[i]);
                }
            }
            assert(b@.cols =~= g.cols);
        }
        b
    }

    /// Takes each probed cell out in turn, lets the cascade run, and keeps
    /// the longest one.
    fn probe_all(&self, outer: bool) -> (r: (Board, ActionResult, (usize, usize)))
        requires
            self.wf(),
        ensures
            r.0.wf(),
            r.0@ == self@.probe_grid(outer),
            r.1 == chain_result(self@.best_probe(outer, 160).chains, 0),
            r.2.0 == self@.best_probe(outer, 160).x,
            r.2.1 == self@.best_probe(outer, 160).y,
    {
        let mut board = Board::new();
        let mut found = false;
        let mut chains: u8 = 0;
        let mut bx: usize = 0;
        let mut by: usize = 0;
        let ghost g = self@;
        let mut x: usize = 0;
        while x < W
            invariant
                x <= 10,
                self.wf(),
                g == self@,
                board.wf(),
                found == g.best_probe(outer, 16 * x).found,
                chains == g.best_probe(outer, 16 * x).chains,
                bx == g.best_probe(outer, 16 * x).x,
                by == g.best_probe(outer, 16 * x).y,
                found ==> board@ == g.probe(bx as int, by as int).grid,
                !found ==> board@ == Grid::empty(),
            decreases 10 - x,
        {
            let low = self.probe_low(x, outer);
            let h = self.height(x);
            let high: usize = if h >= 1 {
                h - 1
            } else {
                0
            };
            let mut y: usize = 0;
            while y < H
                invariant
                    x < 10,
                    y <= 16,
                    self.wf(),
                    g == self@,
                    board.wf(),
                    low == g.probe_low(x as int, outer),
                    high == g.probe_high(x as int),
                    found == g.best_probe(outer, 16 * x + y).found,
                    chains == g.best_probe(outer, 16 * x + y).chains,
                    bx == g.best_probe(outer, 16 * x + y).x,
                    by == g.best_probe(outer, 16 * x + y).y,
                    found ==> board@ == g.probe(bx as int, by as int).grid,
                    !found ==> board@ == Grid::empty(),
                decreases 16 - y,
            {
                proof {
                    let n = 16 * x + y + 1;
                    assert((n - 1) / 16 == x && (n - 1) % 16 == y);
                    assert(g.cols[x as int] == cells(self.column[x as int]));
                }
                if low <= y && y < high && get_lane(self.column[x], y) != 11 {
                    let mut b = self.without_cell(x, y);
                    let mut changed: [bool; W] = [false; W];
                    changed[x] = true;
                    proof {
                        assert(changed@ =~= one_column(x as int));
                        lemma_chain(b@, changed@);
                    }
                    let v = b.vanish_from(changed);
                    if !found || v.0 >= chains {
                        found = true;
                        chains = v.0;
                        bx = x;
                        by = y;
                        board = b;
                    }
                }
                y = y + 1;
            }
            x = x + 1;
        }
        (board, calc_chain_result(chains, 0), (bx, by))
    }

    /// Probes every cell between the heights of the neighbouring columns and
    /// the top of its own column.
    pub fn calc_max_rensa_by_erase_outer_block(&self) -> (r: (Board, ActionResult, (usize, usize)))
        requires
            self.wf(),
        ensures
            r.0.wf(),
            r.0@ == self@.probe_grid(true),
            r.1 == chain_result(self@.best_probe(true, 160).chains, 0),
            r.2.0 == self@.best_probe(true, 160).x,
            r.2.1 == self@.best_probe(true, 160).y,
    {
        self.probe_all(true)
    }

    /// Probes every cell between the topmost obstacles of the neighbouring
    /// columns and the top of its own column.
    pub fn calc_max_rensa_by_erase_block_over_obstacle(&self) -> (r: (
        Board,
        ActionResult,
        (usize, usize),
    ))
        requires
            self.wf(),
        ensures
            r.0.wf(),
            r.0@ == self@.probe_grid(false),
            r.1 == chain_result(self@.best_probe(false, 160).chains, 0),
            r.2.0 == self@.best_probe(false, 160).x,
            r.2.1 == self@.best_probe(false, 160).y,
    {
        self.probe_all(false)
    }

    /// The longest cascade that taking one block out would set off: a sign
    /// of what the owner of the board may be about to fire.
    pub fn calc_max_rensa_by_erase_block(&self) -> (r: (Board, ActionResult, (usize, usize)))
        requires
            self.wf(),
        ensures
            r.0.wf(),
            r.0@ == self@.probe_grid(false),
            r.1 == chain_result(self@.best_probe(false, 160).chains, 0),
            r.2.0 == self@.best_probe(false, 160).x,
            r.2.1 == self@.best_probe(false, 160).y,
    {
        self.calc_max_rensa_by_erase_block_over_obstacle()
    }
}

/// The model pins the board: two boards with the same model are the same
/// board, bit for bit.
pub proof fn lemma_model_pins_board(a: Board, b: Board)
    requires
        a@ == b@,
    ensures
        a == b,
{
    assert forall|x: int| 0 <= x < 10 implies a.column[x] == b.column[x] by {
        assert(a@.cols[x] == b@.cols[x]);
        lemma_cells_injective(a.column[x], b.column[x]);
    }
    assert(a.column =~= b.column);
}

/// A placement is a function of the board, the piece, the column and the
/// turns: made twice from the same board it leaves the same board, bit for
/// bit, and gives the same result.
pub proof fn lemma_put_deterministic(
    a0: Board,
    a1: Board,
    ra: ActionResult,
    b0: Board,
    b1: Board,
    rb: ActionResult,
    p: Pack,
    pos: int,
    rot: nat,
)
    requires
        a0 == b0,
        a1@ == a0@.put(p, pos, rot).grid,
        ra == a0@.put(p, pos, rot).result,
        b1@ == b0@.put(p, pos, rot).grid,
        rb == b0@.put(p, pos, rot).result,
    ensures
        a1 == b1,
        ra == rb,
{
    lemma_model_pins_board(a1, b1);
}

impl PartialEq for Board {
    /// Two boards are equal when their cells are: the dead mark is not
    /// compared.
    fn eq(&self, other: &Self) -> (r: bool) {
        let mut x: usize = 0;
        while x < W
            invariant
                x <= 10,
                forall|i: int| 0 <= i < x ==> #[trigger] self.column[i] == other.column[i],
            decreases 10 - x,
        {
            if self.column[x] != other.column[x] {
                proof {
                    if self@.cols == other@.cols {
                        assert(self@.cols[x as int] == other@.cols[x as int]);
                        lemma_cells_injective(self.column[x as int], other.column[x as int]);
                    }
                }
                return false;
            }
            x = x + 1;
        }
        proof {
            assert(self@.cols =~= other@.cols);
        }
        true
    }
}

impl vstd::std_specs::cmp::PartialEqSpecImpl for Board {
    open spec fn obeys_eq_spec() -> bool {
        true
    }

    open spec fn eq_spec(&self, other: &Self) -> bool {
        self@.cols == other@.cols
    }
}

impl Eq for Board {

}

impl Default for Board {
    fn default() -> (b: Self)
        ensures
            b@ == Grid::empty(),
            b.wf(),
    {
        Board::new()
    }
}

/// The piece after `rot` quarter turns to the right.
pub fn rotate(pattern: &[[u8; 2]; 2], rot: usize) -> (r: [[u8; 2]; 2])
    ensures
        pack_of(r) == rotated(pack_of(*pattern), rot as nat),
{
    let mut left = rot;
    let mut p = *pattern;
    while left > 0
        invariant
            rotated(pack_of(p), left as nat) == rotated(pack_of(*pattern), rot as nat),
        decreases left,
    {
        let ghost before = pack_of(p);
        p = [[p[1][0], p[0][0]], [p[1][1], p[0][1]]];
        assert(pack_of(p) == turned(before));
        left = left - 1;
    }
    p
}

} // verus!
