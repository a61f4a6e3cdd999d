//! One column of the board, packed into a `u64`: sixteen cells of four bits
//! each, the bottom cell in the lowest bits.
//!
//! The mathematical model of a column is the sequence of its sixteen cell
//! values (`cells`). A flag mask is a packed column whose lanes hold 0 or 1;
//! its model is a sequence of sixteen booleans (`flags`).
use vstd::prelude::*;

verus! {

/// The value held by lane `k` of a packed column (lane 0 is the bottom cell).
pub open spec fn lane(c: u64, k: int) -> int {
    ((c >> ((4 * k) as u64)) & 0xF) as int
}

/// The sixteen cells of a packed column, bottom first.
pub open spec fn cells(c: u64) -> Seq<int> {
    Seq::new(16, |k: int| lane(c, k))
}

/// Whether lane `k` of a flag mask is raised.
pub open spec fn flag(m: u64, k: int) -> bool {
    lane(m, k) == 1
}

/// The sixteen flags of a mask, bottom first.
pub open spec fn flags(m: u64) -> Seq<bool> {
    Seq::new(16, |k: int| flag(m, k))
}

/// A flag mask holds nothing but 0 or 1 in each lane.
pub open spec fn is_flag_mask(m: u64) -> bool {
    forall|k: int| 0 <= k < 16 ==> (#[trigger] lane(m, k) == 0 || lane(m, k) == 1)
}

/// A cell is empty (0), a numbered block (1 to 9) or an obstacle (11).
pub open spec fn valid_cell(v: int) -> bool {
    0 <= v <= 9 || v == 11
}

/// Every cell of the column is a valid cell.
pub open spec fn valid_cells(s: Seq<int>) -> bool {
    forall|k: int| 0 <= k < s.len() ==> valid_cell(#[trigger] s[k])
}

/// Whether two cell values add up to ten.
pub open spec fn sums_to_ten(a: int, b: int) -> bool {
    a + b == 10
}

/// The cell `k` of a column, and 0 (empty) outside of it.
pub open spec fn cell_at(s: Seq<int>, k: int) -> int {
    if 0 <= k < s.len() {
        s[k]
    } else {
        0
    }
}

/// The height of a column: one more than the index of its topmost occupied
/// cell, and 0 for an empty column.
pub open spec fn top(s: Seq<int>) -> int
    decreases s.len(),
{
    if s.len() == 0 {
        0
    } else if s.last() != 0 {
        s.len() as int
    } else {
        top(s.drop_last())
    }
}

/// The number of occupied cells of a column.
pub open spec fn blocks(s: Seq<int>) -> nat
    decreases s.len(),
{
    if s.len() == 0 {
        0
    } else {
        blocks(s.drop_last()) + (if s.last() != 0 { 1nat } else { 0nat })
    }
}

/// The cells that are left, in order, once the flagged ones are taken out.
pub open spec fn kept(s: Seq<int>, gone: Seq<bool>) -> Seq<int>
    decreases s.len(),
{
    if s.len() == 0 {
        Seq::empty()
    } else {
        let rest = kept(s.drop_last(), gone.drop_last());
        if gone.last() {
            rest
        } else {
            rest.push(s.last())
        }
    }
}

/// The column after the flagged cells are taken out and the cells above them
/// have fallen: the kept cells, then empty cells up to the old length.
pub open spec fn settle(s: Seq<int>, gone: Seq<bool>) -> Seq<int> {
    let k = kept(s, gone);
    Seq::new(s.len(), |i: int| if i < k.len() { k[i] } else { 0 })
}

/// The number of flagged cells below cell `k`.
pub open spec fn gone_below(gone: Seq<bool>, k: int) -> int
    decreases k,
{
    if k <= 0 {
        0
    } else {
        gone_below(gone, k - 1) + (if gone[k - 1] { 1int } else { 0int })
    }
}

/// The number that packs the cells from cell `k` upwards, four bits to a
/// cell, cell `k` in the lowest bits.
pub open spec fn packed_from(s: Seq<int>, k: int) -> int
    decreases s.len() - k,
{
    if k < 0 || k >= s.len() {
        0
    } else {
        s[k] + 16 * packed_from(s, k + 1)
    }
}

/// The number that packs the cells of a column.
pub open spec fn packed(s: Seq<int>) -> int {
    packed_from(s, 0)
}

/// The number of raised flags of a mask.
pub open spec fn count_flags(gone: Seq<bool>) -> int {
    gone_below(gone, gone.len() as int)
}

/// Whether cell `y` of a column adds up to ten with the cell below or above it.
pub open spec fn meets_own(s: Seq<int>, y: int) -> bool {
    sums_to_ten(s[y], cell_at(s, y - 1)) || sums_to_ten(s[y], cell_at(s, y + 1))
}

/// Whether cell `y` of the column `s` adds up to ten with one of the three
/// cells of the neighbouring column `t` that touch it.
pub open spec fn meets_other(s: Seq<int>, t: Seq<int>, y: int) -> bool {
    sums_to_ten(s[y], cell_at(t, y - 1)) || sums_to_ten(s[y], t[y]) || sums_to_ten(
        s[y],
        cell_at(t, y + 1),
    )
}

/// The flags of the cells of a column that meet a cell of their own column.
pub open spec fn own_flags(s: Seq<int>) -> Seq<bool> {
    Seq::new(s.len(), |y: int| meets_own(s, y))
}

/// The flags of the cells of the column `s` that meet a cell of the column `t`.
pub open spec fn other_flags(s: Seq<int>, t: Seq<int>) -> Seq<bool> {
    Seq::new(s.len(), |y: int| meets_other(s, t, y))
}

/// The column moved up by `d` rows (down for a negative `d`): cell `k` of the
/// result is cell `k - d` of `s`, and empty where that lies outside.
pub open spec fn shifted(s: Seq<int>, d: int) -> Seq<int> {
    Seq::new(s.len(), |k: int| cell_at(s, k - d))
}

/// The flags of the lanes in which the two columns add up to ten.
pub open spec fn pair_mask(a: Seq<int>, b: Seq<int>) -> Seq<bool> {
    Seq::new(a.len(), |k: int| sums_to_ten(a[k], b[k]))
}

/// The flags of the cells that hold the value `v`.
pub open spec fn value_mask(s: Seq<int>, v: int) -> Seq<bool> {
    Seq::new(s.len(), |k: int| s[k] == v)
}

/// Flag by flag, `a` or `b`.
pub open spec fn either(a: Seq<bool>, b: Seq<bool>) -> Seq<bool> {
    Seq::new(a.len(), |k: int| a[k] || b[k])
}

/// Flag by flag, `a` and not `b`.
pub open spec fn without(a: Seq<bool>, b: Seq<bool>) -> Seq<bool> {
    Seq::new(a.len(), |k: int| a[k] && !b[k])
}

/// The flags moved up by `d` rows (down for a negative `d`).
pub open spec fn shifted_flags(a: Seq<bool>, d: int) -> Seq<bool> {
    Seq::new(a.len(), |k: int| 0 <= k - d < a.len() && a[k - d])
}

// ---------------------------------------------------------------------------
// Facts about the model
// ---------------------------------------------------------------------------

/// `top` is the least height above which every cell is empty.
pub proof fn lemma_top(s: Seq<int>)
    ensures
        0 <= top(s) <= s.len(),
        forall|i: int| top(s) <= i < s.len() ==> s[i] == 0,
        top(s) > 0 ==> s[top(s) - 1] != 0,
    decreases s.len(),
{
    if s.len() > 0 && s.last() == 0 {
        let s0 = s.drop_last();
        lemma_top(s0);
        assert forall|i: int| top(s) <= i < s.len() implies s[i] == 0 by {
            if i < s0.len() {
                assert(s0[i] == 0);
            }
        }
    }
}

/// Any height that bounds the occupied cells and sits on an occupied cell is
/// the top.
pub proof fn lemma_top_unique(s: Seq<int>, h: int)
    requires
        0 <= h <= s.len(),
        forall|i: int| h <= i < s.len() ==> s[i] == 0,
        h > 0 ==> s[h - 1] != 0,
    ensures
        top(s) == h,
{
    lemma_top(s);
}

pub proof fn lemma_kept_len(s: Seq<int>, gone: Seq<bool>)
    requires
        s.len() == gone.len(),
    ensures
        kept(s, gone).len() == s.len() - count_flags(gone),
        0 <= count_flags(gone) <= s.len(),
    decreases s.len(),
{
    if s.len() > 0 {
        lemma_kept_len(s.drop_last(), gone.drop_last());
        lemma_gone_below_prefix(gone, gone.drop_last(), gone.len() - 1);
    }
}

/// `gone_below` reads only the flags below `k`.
pub proof fn lemma_gone_below_prefix(a: Seq<bool>, b: Seq<bool>, k: int)
    requires
        0 <= k <= a.len(),
        k <= b.len(),
        forall|i: int| 0 <= i < k ==> a[i] == b[i],
    ensures
        gone_below(a, k) == gone_below(b, k),
        0 <= gone_below(a, k) <= k,
    decreases k,
{
    if k > 0 {
        lemma_gone_below_prefix(a, b, k - 1);
    }
}

/// Where each surviving cell lands: cell `k` moves down by the number of
/// flagged cells below it.
pub proof fn lemma_kept_index(s: Seq<int>, gone: Seq<bool>, k: int)
    requires
        s.len() == gone.len(),
        0 <= k < s.len(),
        !gone[k],
    ensures
        0 <= k - gone_below(gone, k) < kept(s, gone).len(),
        kept(s, gone)[k - gone_below(gone, k)] == s[k],
    decreases s.len(),
{
    let n = s.len() - 1;
    lemma_kept_len(s.drop_last(), gone.drop_last());
    lemma_gone_below_prefix(gone, gone.drop_last(), n);
    lemma_gone_below_prefix(gone, gone.drop_last(), k);
    if k < n {
        lemma_kept_index(s.drop_last(), gone.drop_last(), k);
    }
}

/// Compaction, cell by cell: a surviving cell moves down by the number of
/// flagged cells below it, and the cells that are freed at the top are empty.
pub proof fn lemma_settle_pointwise(s: Seq<int>, gone: Seq<bool>)
    requires
        s.len() == gone.len(),
    ensures
        settle(s, gone).len() == s.len(),
        0 <= count_flags(gone) <= s.len(),
        forall|k: int|
            #![trigger gone[k]]
            0 <= k < s.len() && !gone[k] ==> (0 <= k - gone_below(gone, k) && k - gone_below(gone, k)
                < s.len() - count_flags(gone)),
        forall|k: int|
            #![trigger gone[k]]
            0 <= k < s.len() && !gone[k] ==> settle(s, gone)[k - gone_below(gone, k)] == s[k],
        forall|i: int|
            s.len() - count_flags(gone) <= i < s.len() ==> #[trigger] settle(s, gone)[i] == 0,
{
    lemma_kept_len(s, gone);
    assert forall|k: int| #![trigger gone[k]] 0 <= k < s.len() && !gone[k] implies (0 <= k
        - gone_below(gone, k) && k - gone_below(gone, k) < s.len() - count_flags(gone) && settle(
        s,
        gone,
    )[k - gone_below(gone, k)] == s[k]) by {
        lemma_kept_index(s, gone, k);
    }
}

/// Every kept cell is a cell of the column.
pub proof fn lemma_kept_from(s: Seq<int>, gone: Seq<bool>, i: int) -> (k: int)
    requires
        s.len() == gone.len(),
        0 <= i < kept(s, gone).len(),
    ensures
        0 <= k < s.len(),
        !gone[k],
        kept(s, gone)[i] == s[k],
    decreases s.len(),
{
    if gone.last() || i < kept(s.drop_last(), gone.drop_last()).len() {
        lemma_kept_from(s.drop_last(), gone.drop_last(), i)
    } else {
        s.len() - 1
    }
}

/// Compaction keeps cells valid.
pub proof fn lemma_settle_valid(s: Seq<int>, gone: Seq<bool>)
    requires
        s.len() == gone.len(),
        valid_cells(s),
    ensures
        valid_cells(settle(s, gone)),
{
    lemma_kept_len(s, gone);
    assert forall|i: int| 0 <= i < settle(s, gone).len() implies valid_cell(
        #[trigger] settle(s, gone)[i],
    ) by {
        if i < kept(s, gone).len() {
            let k = lemma_kept_from(s, gone, i);
        }
    }
}

pub proof fn lemma_blocks_bound(s: Seq<int>)
    ensures
        blocks(s) <= s.len(),
    decreases s.len(),
{
    if s.len() > 0 {
        lemma_blocks_bound(s.drop_last());
    }
}

/// Padding a column with empty cells adds no block.
proof fn lemma_blocks_padded(k: Seq<int>, n: nat)
    requires
        k.len() <= n,
    ensures
        blocks(Seq::new(n, |i: int| if i < k.len() { k[i] } else { 0 })) == blocks(k),
    decreases n,
{
    let p = Seq::new(n, |i: int| if i < k.len() { k[i] } else { 0 });
    if n == k.len() {
        assert(p =~= k);
    } else {
        let q = Seq::new((n - 1) as nat, |i: int| if i < k.len() { k[i] } else { 0 });
        assert(p.drop_last() =~= q);
        lemma_blocks_padded(k, (n - 1) as nat);
    }
}

/// Compaction never adds a block, and takes at least one away when an
/// occupied cell is flagged.
pub proof fn lemma_settle_blocks(s: Seq<int>, gone: Seq<bool>)
    requires
        s.len() == gone.len(),
    ensures
        blocks(settle(s, gone)) <= blocks(s),
        (exists|k: int| 0 <= k < s.len() && gone[k] && s[k] != 0) ==> blocks(settle(s, gone))
            < blocks(s),
{
    lemma_kept_len(s, gone);
    lemma_blocks_padded(kept(s, gone), s.len());
    lemma_kept_blocks(s, gone);
}

proof fn lemma_kept_blocks(s: Seq<int>, gone: Seq<bool>)
    requires
        s.len() == gone.len(),
    ensures
        blocks(kept(s, gone)) <= blocks(s),
        (exists|k: int| 0 <= k < s.len() && gone[k] && s[k] != 0) ==> blocks(kept(s, gone))
            < blocks(s),
    decreases s.len(),
{
    if s.len() > 0 {
        let s0 = s.drop_last();
        let g0 = gone.drop_last();
        lemma_kept_blocks(s0, g0);
        if !gone.last() {
            assert(kept(s, gone).drop_last() =~= kept(s0, g0));
        }
        if exists|k: int| 0 <= k < s.len() && gone[k] && s[k] != 0 {
            let k = choose|k: int| 0 <= k < s.len() && gone[k] && s[k] != 0;
            if k < s.len() - 1 {
                assert(g0[k] && s0[k] != 0);
            }
        }
    }
}

/// With no flag raised, compaction changes nothing.
pub proof fn lemma_settle_nothing(s: Seq<int>, gone: Seq<bool>)
    requires
        s.len() == gone.len(),
        forall|k: int| 0 <= k < s.len() ==> !gone[k],
    ensures
        settle(s, gone) =~= s,
        kept(s, gone) =~= s,
    decreases s.len(),
{
    if s.len() > 0 {
        lemma_settle_nothing(s.drop_last(), gone.drop_last());
        assert(s.drop_last().push(s.last()) =~= s);
    }
}

} // verus!
