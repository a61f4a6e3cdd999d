//! Executable primitives on packed columns and flag masks, each stated over
//! the cell model of `column`.
use vstd::prelude::*;
use crate::column::valid_cell;
use crate::column::{
    cells, count_flags, either, flag, flags, gone_below, is_flag_mask, kept, lane,
    lemma_kept_len, lemma_settle_pointwise, lemma_top_unique,
    other_flags, own_flags, packed, packed_from, pair_mask, settle, shifted, shifted_flags, sums_to_ten, top, valid_cells,
    value_mask, without,
};

verus! {

/// Reads the cell in lane `k` of a packed column.
pub fn get_lane(c: u64, k: usize) -> (v: u8)
    requires
        k < 16,
    ensures
        v as int == lane(c, k as int),
        v < 16,
{
    let s: u64 = (c >> (4 * k)) & 0xF;
    assert(s < 16) by (bit_vector)
        requires
            s == (c >> (4 * (k as u64))) & 0xF,
    ;
    s as u8
}

/// Writing `v` into an empty lane `j` changes that lane and no other.
pub proof fn lemma_set_lane(c: u64, j: int, v: u64)
    requires
        0 <= j < 16,
        v < 16,
        lane(c, j) == 0,
    ensures
        cells(c | (v << ((4 * j) as u64))) =~= cells(c).update(j, v as int),
{
    let r = c | (v << ((4 * j) as u64));
    let ju = j as u64;
    assert forall|i: int| 0 <= i < 16 implies lane(r, i) == (if i == j {
        v as int
    } else {
        lane(c, i)
    }) by {
        let iu = i as u64;
        assert(((c | (v << (4 * ju))) >> (4 * iu)) & 0xF == (if iu == ju {
            v
        } else {
            (c >> (4 * iu)) & 0xF
        })) by (bit_vector)
            requires
                ju < 16,
                iu < 16,
                v < 16,
                (c >> (4 * ju)) & 0xF == 0,
        ;
    }
}

/// Every lane of the number 0 is empty.
pub proof fn lemma_zero_lanes()
    ensures
        forall|i: int| 0 <= i < 16 ==> #[trigger] lane(0u64, i) == 0,
{
    assert forall|i: int| 0 <= i < 16 implies #[trigger] lane(0u64, i) == 0 by {
        let iu = i as u64;
        assert((0u64 >> (4 * iu)) & 0xF == 0) by (bit_vector);
    }
}

/// Two packed columns with the same cells are the same number.
pub proof fn lemma_cells_injective(a: u64, b: u64)
    requires
        cells(a) =~= cells(b),
    ensures
        a == b,
{
    assert forall|k: int| 0 <= k < 16 implies lane(a, k) == lane(b, k) by {
        assert(cells(a)[k] == cells(b)[k]);
    }
    assert(lane(a, 0) == lane(b, 0) && lane(a, 1) == lane(b, 1) && lane(a, 2) == lane(b, 2)
        && lane(a, 3) == lane(b, 3) && lane(a, 4) == lane(b, 4) && lane(a, 5) == lane(b, 5)
        && lane(a, 6) == lane(b, 6) && lane(a, 7) == lane(b, 7) && lane(a, 8) == lane(b, 8)
        && lane(a, 9) == lane(b, 9) && lane(a, 10) == lane(b, 10) && lane(a, 11) == lane(b, 11)
        && lane(a, 12) == lane(b, 12) && lane(a, 13) == lane(b, 13) && lane(a, 14) == lane(b, 14)
        && lane(a, 15) == lane(b, 15));
    assert(a == b) by (bit_vector)
        requires
            (a >> 0) & 0xF == (b >> 0) & 0xF,
            (a >> 4) & 0xF == (b >> 4) & 0xF,
            (a >> 8) & 0xF == (b >> 8) & 0xF,
            (a >> 12) & 0xF == (b >> 12) & 0xF,
            (a >> 16) & 0xF == (b >> 16) & 0xF,
            (a >> 20) & 0xF == (b >> 20) & 0xF,
            (a >> 24) & 0xF == (b >> 24) & 0xF,
            (a >> 28) & 0xF == (b >> 28) & 0xF,
            (a >> 32) & 0xF == (b >> 32) & 0xF,
            (a >> 36) & 0xF == (b >> 36) & 0xF,
            (a >> 40) & 0xF == (b >> 40) & 0xF,
            (a >> 44) & 0xF == (b >> 44) & 0xF,
            (a >> 48) & 0xF == (b >> 48) & 0xF,
            (a >> 52) & 0xF == (b >> 52) & 0xF,
            (a >> 56) & 0xF == (b >> 56) & 0xF,
            (a >> 60) & 0xF == (b >> 60) & 0xF,
    ;
}

/// A packed column is the number that packs its cells.
pub proof fn lemma_packed(c: u64)
    ensures
        packed(cells(c)) == c,
{
    let s = cells(c);
    reveal_with_fuel(packed_from, 17);
    assert(packed(s) == s[0] + 16 * (s[1] + 16 * (s[2] + 16 * (s[3] + 16 * (s[4] + 16 * (s[5] + 16
        * (s[6] + 16 * (s[7] + 16 * (s[8] + 16 * (s[9] + 16 * (s[10] + 16 * (s[11] + 16 * (s[12] + 16
        * (s[13] + 16 * (s[14] + 16 * s[15])))))))))))))));
    let l0 = (c >> 0) & 0xF;
    let l1 = (c >> 4) & 0xF;
    let l2 = (c >> 8) & 0xF;
    let l3 = (c >> 12) & 0xF;
    let l4 = (c >> 16) & 0xF;
    let l5 = (c >> 20) & 0xF;
    let l6 = (c >> 24) & 0xF;
    let l7 = (c >> 28) & 0xF;
    let l8 = (c >> 32) & 0xF;
    let l9 = (c >> 36) & 0xF;
    let l10 = (c >> 40) & 0xF;
    let l11 = (c >> 44) & 0xF;
    let l12 = (c >> 48) & 0xF;
    let l13 = (c >> 52) & 0xF;
    let l14 = (c >> 56) & 0xF;
    let l15 = (c >> 60) & 0xF;
    assert(c == l0 + 0x10 * l1 + 0x100 * l2 + 0x1000 * l3 + 0x10000 * l4 + 0x100000 * l5 + 0x1000000
        * l6 + 0x10000000 * l7 + 0x100000000 * l8 + 0x1000000000 * l9 + 0x10000000000 * l10
        + 0x100000000000 * l11 + 0x1000000000000 * l12 + 0x10000000000000 * l13 + 0x100000000000000
        * l14 + 0x1000000000000000 * l15) by (bit_vector)
        requires
            l0 == (c >> 0) & 0xF,
            l1 == (c >> 4) & 0xF,
            l2 == (c >> 8) & 0xF,
            l3 == (c >> 12) & 0xF,
            l4 == (c >> 16) & 0xF,
            l5 == (c >> 20) & 0xF,
            l6 == (c >> 24) & 0xF,
            l7 == (c >> 28) & 0xF,
            l8 == (c >> 32) & 0xF,
            l9 == (c >> 36) & 0xF,
            l10 == (c >> 40) & 0xF,
            l11 == (c >> 44) & 0xF,
            l12 == (c >> 48) & 0xF,
            l13 == (c >> 52) & 0xF,
            l14 == (c >> 56) & 0xF,
            l15 == (c >> 60) & 0xF,
    ;
    assert(s[0] == l0 && s[1] == l1 && s[2] == l2 && s[3] == l3 && s[4] == l4 && s[5] == l5 && s[6]
        == l6 && s[7] == l7);
    assert(s[8] == l8 && s[9] == l9 && s[10] == l10 && s[11] == l11 && s[12] == l12 && s[13] == l13
        && s[14] == l14 && s[15] == l15);
}

/// The flag mask with the one flag `y` raised.
pub fn one_flag(y: usize) -> (m: u64)
    requires
        y < 16,
    ensures
        is_flag_mask(m),
        flags(m) =~= Seq::new(16, |k: int| k == y),
{
    let m: u64 = 1u64 << (4 * y);
    proof {
        let yu = y as u64;
        assert forall|k: int| 0 <= k < 16 implies lane(m, k) == (if k == y {
            1int
        } else {
            0int
        }) by {
            let ku = k as u64;
            assert(((1u64 << (4 * yu)) >> (4 * ku)) & 0xF == (if ku == yu {
                1u64
            } else {
                0u64
            })) by (bit_vector)
                requires
                    yu < 16,
                    ku < 16,
            ;
        }
    }
    m
}

/// The height of a packed column: the number of rows up to and including its
/// topmost occupied cell.
pub fn height(c: u64) -> (h: usize)
    ensures
        h == top(cells(c)),
        h <= 16,
{
    let lz: u32 = c.leading_zeros();
    let h: u32 = (64 - lz + 3) / 4;
    proof {
        vstd::std_specs::bits::axiom_u64_leading_zeros(c);
        let z = lz as u64;
        assert(c >> ((64 - z) as u64) == 0);
        assert forall|i: int| h <= i < 16 implies cells(c)[i] == 0 by {
            let iu = i as u64;
            assert((c >> (4 * iu)) & 0xF == 0) by (bit_vector)
                requires
                    z <= 64,
                    c >> ((64 - z) as u64) == 0,
                    (64 - z + 3) / 4 <= iu < 16,
            ;
        }
        if h > 0 {
            let ku = (h - 1) as u64;
            assert((c >> (4 * ku)) & 0xF != 0) by (bit_vector)
                requires
                    z < 64,
                    ku + 1 == (64 - z + 3) / 4,
                    (c >> ((63 - z) as u64)) & 1 != 0,
            ;
            assert(cells(c)[h as int - 1] != 0);
        }
        lemma_top_unique(cells(c), h as int);
    }
    h as usize
}


/// The packed column moved up by `rows` rows; what leaves the top is lost.
pub fn shift_up(c: u64, rows: usize) -> (r: u64)
    requires
        rows < 16,
    ensures
        cells(r) =~= shifted(cells(c), rows as int),
        flags(r) =~= shifted_flags(flags(c), rows as int),
        is_flag_mask(c) ==> is_flag_mask(r),
{
    let r = c << (4 * rows);
    proof {
        let ju = rows as u64;
        assert forall|k: int| 0 <= k < 16 implies lane(r, k) == (if k >= rows {
            lane(c, k - rows)
        } else {
            0
        }) by {
            let ku = k as u64;
            if k >= rows {
                let du = (k - rows) as u64;
                assert(((c << (4 * ju)) >> (4 * ku)) & 0xF == (c >> (4 * du)) & 0xF) by (bit_vector)
                    requires
                        ku < 16,
                        du + ju == ku,
                ;
            } else {
                assert(((c << (4 * ju)) >> (4 * ku)) & 0xF == 0) by (bit_vector)
                    requires
                        ju < 16,
                        ku < ju,
                ;
            }
        }
    }
    r
}

/// The packed column moved down by `rows` rows; what leaves the bottom is lost.
pub fn shift_down(c: u64, rows: usize) -> (r: u64)
    requires
        rows < 16,
    ensures
        cells(r) =~= shifted(cells(c), -(rows as int)),
        flags(r) =~= shifted_flags(flags(c), -(rows as int)),
        is_flag_mask(c) ==> is_flag_mask(r),
{
    let r = c >> (4 * rows);
    proof {
        let ju = rows as u64;
        assert forall|k: int| 0 <= k < 16 implies lane(r, k) == (if k + rows < 16 {
            lane(c, k + rows)
        } else {
            0
        }) by {
            let ku = k as u64;
            if k + rows < 16 {
                let du = (k + rows) as u64;
                assert(((c >> (4 * ju)) >> (4 * ku)) & 0xF == (c >> (4 * du)) & 0xF) by (bit_vector)
                    requires
                        du < 16,
                        du == ku + ju,
                ;
            } else {
                assert(((c >> (4 * ju)) >> (4 * ku)) & 0xF == 0) by (bit_vector)
                    requires
                        ju < 16,
                        ku < 16,
                        ku + ju >= 16,
                ;
            }
        }
    }
    r
}

/// The union of two flag masks.
pub fn mask_or(a: u64, b: u64) -> (r: u64)
    requires
        is_flag_mask(a),
        is_flag_mask(b),
    ensures
        is_flag_mask(r),
        flags(r) =~= either(flags(a), flags(b)),
{
    let r = a | b;
    proof {
        assert forall|k: int| 0 <= k < 16 implies (lane(r, k) == 0 || lane(r, k) == 1) && (lane(
            r,
            k,
        ) == 1 <==> lane(a, k) == 1 || lane(b, k) == 1) by {
            let ku = k as u64;
            let x = (a >> (4 * ku)) & 0xF;
            let y = (b >> (4 * ku)) & 0xF;
            assert(lane(a, k) == 0 || lane(a, k) == 1);
            assert(lane(b, k) == 0 || lane(b, k) == 1);
            assert((((a | b) >> (4 * ku)) & 0xF) <= 1 && ((((a | b) >> (4 * ku)) & 0xF) == 1 <==> x
                == 1 || y == 1)) by (bit_vector)
                requires
                    ku < 16,
                    x == (a >> (4 * ku)) & 0xF,
                    y == (b >> (4 * ku)) & 0xF,
                    x <= 1,
                    y <= 1,
            ;
        }
    }
    r
}

/// The flags of `a` that are not raised in `b`.
pub fn mask_minus(a: u64, b: u64) -> (r: u64)
    requires
        is_flag_mask(a),
        is_flag_mask(b),
    ensures
        is_flag_mask(r),
        flags(r) =~= without(flags(a), flags(b)),
{
    let r = a & !b;
    proof {
        assert forall|k: int| 0 <= k < 16 implies (lane(r, k) == 0 || lane(r, k) == 1) && (lane(
            r,
            k,
        ) == 1 <==> lane(a, k) == 1 && lane(b, k) != 1) by {
            let ku = k as u64;
            let x = (a >> (4 * ku)) & 0xF;
            let y = (b >> (4 * ku)) & 0xF;
            assert(lane(a, k) == 0 || lane(a, k) == 1);
            assert(lane(b, k) == 0 || lane(b, k) == 1);
            assert((((a & !b) >> (4 * ku)) & 0xF) <= 1 && ((((a & !b) >> (4 * ku)) & 0xF) == 1 <==> x
                == 1 && y != 1)) by (bit_vector)
                requires
                    ku < 16,
                    x == (a >> (4 * ku)) & 0xF,
                    y == (b >> (4 * ku)) & 0xF,
                    x <= 1,
                    y <= 1,
            ;
        }
    }
    r
}

/// The flags of the cells that hold a five.
pub fn calc_five_mask(c: u64) -> (v: u64)
    ensures
        is_flag_mask(v),
        flags(v) =~= value_mask(cells(c), 5),
{
    let mask: u64 = 0x1111111111111111;
    let d = !c;
    let v = c & (d >> 1) & (c >> 2) & (d >> 3) & mask;
    proof {
        assert forall|k: int| 0 <= k < 16 implies lane(v, k) == (if lane(c, k) == 5 {
            1int
        } else {
            0int
        }) by {
            let ku = k as u64;
            assert((v >> (4 * ku)) & 0xF == (if (c >> (4 * ku)) & 0xF == 5 {
                1u64
            } else {
                0u64
            })) by (bit_vector)
                requires
                    ku < 16,
                    v == c & ((!c) >> 1) & (c >> 2) & ((!c) >> 3) & 0x1111111111111111u64,
            ;
        }
    }
    v
}

/// The flags of the cells that hold an obstacle.
pub fn calc_obstacle_mask(c: u64) -> (v: u64)
    ensures
        is_flag_mask(v),
        flags(v) =~= value_mask(cells(c), 11),
{
    let mask: u64 = 0x1111111111111111;
    let d = !c;
    let v = c & (c >> 1) & (d >> 2) & (c >> 3) & mask;
    proof {
        assert forall|k: int| 0 <= k < 16 implies lane(v, k) == (if lane(c, k) == 11 {
            1int
        } else {
            0int
        }) by {
            let ku = k as u64;
            assert((v >> (4 * ku)) & 0xF == (if (c >> (4 * ku)) & 0xF == 11 {
                1u64
            } else {
                0u64
            })) by (bit_vector)
                requires
                    ku < 16,
                    v == c & (c >> 1) & ((!c) >> 2) & (c >> 3) & 0x1111111111111111u64,
            ;
        }
    }
    v
}

/// The flags of the empty cells.
pub fn calc_empty_mask(c: u64) -> (v: u64)
    ensures
        is_flag_mask(v),
        flags(v) =~= value_mask(cells(c), 0),
{
    let mask: u64 = 0x1111111111111111;
    let d = !c;
    let v = d & (d >> 1) & (d >> 2) & (d >> 3) & mask;
    proof {
        assert forall|k: int| 0 <= k < 16 implies lane(v, k) == (if lane(c, k) == 0 {
            1int
        } else {
            0int
        }) by {
            let ku = k as u64;
            assert((v >> (4 * ku)) & 0xF == (if (c >> (4 * ku)) & 0xF == 0 {
                1u64
            } else {
                0u64
            })) by (bit_vector)
                requires
                    ku < 16,
                    v == (!c) & ((!c) >> 1) & ((!c) >> 2) & ((!c) >> 3) & 0x1111111111111111u64,
            ;
        }
    }
    v
}

/// The value held by byte `j` of `c`.
pub open spec fn byte_lane(c: u64, j: int) -> int {
    ((c >> ((8 * j) as u64)) & 0xFF) as int
}

/// Every byte of `c` holds one cell value: its upper four bits are clear.
pub open spec fn is_spread(c: u64) -> bool {
    c & 0xF0F0F0F0F0F0F0F0 == 0
}

/// For eight cell values spread one to a byte: the bytes in which `c1` and
/// `c2` add up to ten, as a 1 in the byte.
pub fn calc_remove0(c1: u64, c2: u64) -> (v: u64)
    requires
        is_spread(c1),
        is_spread(c2),
    ensures
        forall|j: int|
            0 <= j < 8 ==> #[trigger] byte_lane(v, j) == (if sums_to_ten(
                byte_lane(c1, j),
                byte_lane(c2, j),
            ) {
                1int
            } else {
                0int
            }),
        v & 0xFEFEFEFEFEFEFEFE == 0,
{
    let mask: u64 = 0x0101010101010101;
    assert(c1 + c2 <= 0xFFFF_FFFF_FFFF_FFFF) by (bit_vector)
        requires
            c1 & 0xF0F0F0F0F0F0F0F0 == 0,
            c2 & 0xF0F0F0F0F0F0F0F0 == 0,
    ;
    let c = c1 + c2;
    let d = !c;
    let v = d & (c >> 1) & (d >> 2) & (c >> 3) & (d >> 4) & mask;
    let ghost w = d & (c >> 1) & (d >> 2) & (c >> 3) & (d >> 4);
    assert(v & 0xFEFEFEFEFEFEFEFE == 0) by (bit_vector)
        requires
            v == w & 0x0101010101010101u64,
    ;
    proof {
        assert forall|j: int| 0 <= j < 8 implies #[trigger] byte_lane(v, j) == (if sums_to_ten(
            byte_lane(c1, j),
            byte_lane(c2, j),
        ) {
            1int
        } else {
            0int
        }) by {
            let ju = j as u64;
            assert((v >> (8 * ju)) & 0xFF == (if ((c1 >> (8 * ju)) & 0xFF) + ((c2 >> (8 * ju))
                & 0xFF) == 10 {
                1u64
            } else {
                0u64
            })) by (bit_vector)
                requires
                    ju < 8,
                    c1 & 0xF0F0F0F0F0F0F0F0 == 0,
                    c2 & 0xF0F0F0F0F0F0F0F0 == 0,
                    c == c1 + c2,
                    v == (!c) & (c >> 1) & ((!c) >> 2) & (c >> 3) & ((!c) >> 4)
                        & 0x0101010101010101u64,
            ;
        }
    }
    v
}

/// The flags of the lanes in which `c1` and `c2` add up to ten, computed on
/// the even and the odd lanes apart, each spread one cell to a byte.
pub fn calc_remove_ref(c1: u64, c2: u64) -> (res: u64)
    ensures
        is_flag_mask(res),
        flags(res) =~= pair_mask(cells(c1), cells(c2)),
{
    let mask: u64 = 0x0F0F0F0F0F0F0F0F;
    let a1 = c1 & mask;
    let a2 = c2 & mask;
    let b1 = (c1 >> 4) & mask;
    let b2 = (c2 >> 4) & mask;
    assert(a1 & 0xF0F0F0F0F0F0F0F0 == 0 && b1 & 0xF0F0F0F0F0F0F0F0 == 0) by (bit_vector)
        requires
            a1 == c1 & 0x0F0F0F0F0F0F0F0Fu64,
            b1 == (c1 >> 4) & 0x0F0F0F0F0F0F0F0Fu64,
    ;
    assert(a2 & 0xF0F0F0F0F0F0F0F0 == 0 && b2 & 0xF0F0F0F0F0F0F0F0 == 0) by (bit_vector)
        requires
            a2 == c2 & 0x0F0F0F0F0F0F0F0Fu64,
            b2 == (c2 >> 4) & 0x0F0F0F0F0F0F0F0Fu64,
    ;
    let v1 = calc_remove0(a1, a2);
    let v2 = calc_remove0(b1, b2);
    let res = v1 ^ (v2 << 4);
    proof {
        assert forall|k: int| 0 <= k < 16 implies lane(res, k) == (if sums_to_ten(
            lane(c1, k),
            lane(c2, k),
        ) {
            1int
        } else {
            0int
        }) by {
            let ku = k as u64;
            let ju = (k / 2) as u64;
            let w = if k % 2 == 0 {
                v1
            } else {
                v2
            };
            let x1 = if k % 2 == 0 {
                a1
            } else {
                b1
            };
            let x2 = if k % 2 == 0 {
                a2
            } else {
                b2
            };
            assert(byte_lane(w, k / 2) == (if sums_to_ten(byte_lane(x1, k / 2), byte_lane(x2, k / 2)) {
                1int
            } else {
                0int
            }));
            let f = (w >> (8 * ju)) & 0xFF;
            assert((res >> (4 * ku)) & 0xF == f && (x1 >> (8 * ju)) & 0xFF == (c1 >> (4 * ku)) & 0xF
                && (x2 >> (8 * ju)) & 0xFF == (c2 >> (4 * ku)) & 0xF) by (bit_vector)
                requires
                    ku < 16,
                    ju == ku / 2,
                    a1 == c1 & 0x0F0F0F0F0F0F0F0Fu64,
                    b1 == (c1 >> 4) & 0x0F0F0F0F0F0F0F0Fu64,
                    a2 == c2 & 0x0F0F0F0F0F0F0F0Fu64,
                    b2 == (c2 >> 4) & 0x0F0F0F0F0F0F0F0Fu64,
                    w == (if ku % 2 == 0 { v1 } else { v2 }),
                    x1 == (if ku % 2 == 0 { a1 } else { b1 }),
                    x2 == (if ku % 2 == 0 { a2 } else { b2 }),
                    f == (w >> (8 * ju)) & 0xFF,
                    f <= 1,
                    v1 & 0xFEFEFEFEFEFEFEFE == 0,
                    v2 & 0xFEFEFEFEFEFEFEFE == 0,
                    res == v1 ^ (v2 << 4),
            ;
        }
    }
    res
}

/// The flags of the lanes in which `c1` and `c2` add up to ten, computed on
/// all sixteen lanes at once without a branch.
pub fn calc_remove(c1: u64, c2: u64) -> (res: u64)
    ensures
        is_flag_mask(res),
        flags(res) =~= pair_mask(cells(c1), cells(c2)),
{
    let mask1: u64 = 0x1111111111111111;
    let mask8: u64 = 0x8888888888888888;
    let lsb1 = c1 & mask1;
    let lsb2 = c2 & mask1;
    let h1 = (c1 >> 1) & !mask8;
    let h2 = (c2 >> 1) & !mask8;
    let carry = lsb1 & lsb2;
    assert(h1 + h2 + carry <= 0xFFFF_FFFF_FFFF_FFFF) by (bit_vector)
        requires
            h1 == (c1 >> 1) & !0x8888888888888888u64,
            h2 == (c2 >> 1) & !0x8888888888888888u64,
            carry == (c1 & 0x1111111111111111u64) & (c2 & 0x1111111111111111u64),
    ;
    // Lane by lane, half of the sum: 5 where the two cells add up to 10 or 11.
    let s = h1 + h2 + carry;
    let t = ((!s) >> 1) & s;
    // An even sum whose half is 5 (binary 0101).
    let res = !(lsb1 ^ lsb2) & t & (t >> 2) & mask1;
    proof {
        assert forall|k: int| 0 <= k < 16 implies lane(res, k) == (if sums_to_ten(
            lane(c1, k),
            lane(c2, k),
        ) {
            1int
        } else {
            0int
        }) by {
            let ku = k as u64;
            assert((res >> (4 * ku)) & 0xF == (if ((c1 >> (4 * ku)) & 0xF) + ((c2 >> (4 * ku))
                & 0xF) == 10 {
                1u64
            } else {
                0u64
            })) by (bit_vector)
                requires
                    ku < 16,
                    h1 == (c1 >> 1) & !0x8888888888888888u64,
                    h2 == (c2 >> 1) & !0x8888888888888888u64,
                    carry == (c1 & 0x1111111111111111u64) & (c2 & 0x1111111111111111u64),
                    s == h1 + h2 + carry,
                    t == ((!s) >> 1) & s,
                    res == !((c1 & 0x1111111111111111u64) ^ (c2 & 0x1111111111111111u64)) & t & (t
                        >> 2) & 0x1111111111111111u64,
            ;
        }
    }
    res
}

/// The packed column without its flagged cells: the cells above a removed
/// cell come down, and the top is filled with empty cells.
pub fn remove_flagged(c: u64, m: u64) -> (res: u64)
    ensures
        cells(res) =~= settle(cells(c), flags(m)),
        forall|k: int|
            0 <= k < 16 && !#[trigger] flag(m, k) ==> 0 <= k - gone_below(flags(m), k) < 16 && lane(
                res,
                k - gone_below(flags(m), k),
            ) == lane(c, k),
        forall|i: int| 16 - count_flags(flags(m)) <= i < 16 ==> #[trigger] lane(res, i) == 0,
{
    let ghost s = cells(c);
    let ghost g = flags(m);
    let mut out: u64 = 0;
    let mut j: usize = 0;
    let mut k: usize = 0;
    proof {
        lemma_zero_lanes();
    }
    while k < 16
        invariant
            k <= 16,
            j <= k,
            s == cells(c),
            g == flags(m),
            j == kept(s.take(k as int), g.take(k as int)).len(),
            forall|i: int| 0 <= i < j ==> lane(out, i) == kept(s.take(k as int), g.take(k as int))[i],
            forall|i: int| j <= i < 16 ==> lane(out, i) == 0,
        decreases 16 - k,
    {
        let f = get_lane(m, k);
        proof {
            assert(s.take(k + 1).drop_last() =~= s.take(k as int));
            assert(g.take(k + 1).drop_last() =~= g.take(k as int));
            assert(g.take(k + 1).last() == flag(m, k as int));
            assert(s.take(k + 1).last() == lane(c, k as int));
        }
        if f != 1 {
            let v = get_lane(c, k);
            proof {
                lemma_set_lane(out, j as int, v as u64);
                let r = out | ((v as u64) << ((4 * j) as u64));
                assert forall|i: int| 0 <= i < 16 implies lane(r, i) == cells(out).update(
                    j as int,
                    v as int,
                )[i] by {
                    assert(cells(r)[i] == lane(r, i));
                }
            }
            out = out | ((v as u64) << (4 * j));
            j = j + 1;
        }
        k = k + 1;
    }
    proof {
        assert(s.take(16) =~= s);
        assert(g.take(16) =~= g);
        lemma_settle_pointwise(s, g);
        lemma_kept_len(s, g);
        assert(cells(out) =~= settle(s, g));
        assert forall|k: int| 0 <= k < 16 && !#[trigger] flag(m, k) implies 0 <= k - gone_below(
            g,
            k,
        ) < 16 && lane(out, k - gone_below(g, k)) == lane(c, k) by {
            assert(!g[k]);
            assert(cells(out)[k - gone_below(g, k)] == s[k]);
        }
        assert forall|i: int| 16 - count_flags(g) <= i < 16 implies #[trigger] lane(out, i) == 0 by {
            assert(settle(s, g)[i] == 0);
            assert(cells(out)[i] == 0);
        }
    }
    out
}

/// The number of raised flags of a mask.
pub fn count_raised(m: u64) -> (n: u32)
    ensures
        n == count_flags(flags(m)),
        n <= 16,
{
    let mut n: u32 = 0;
    let mut k: usize = 0;
    while k < 16
        invariant
            k <= 16,
            n <= k,
            n == gone_below(flags(m), k as int),
        decreases 16 - k,
    {
        let f = get_lane(m, k);
        if f == 1 {
            n = n + 1;
        }
        k = k + 1;
    }
    n
}


/// The flags of the cells of a column that add up to ten with the cell
/// below or above them.
pub fn own_mask(a: u64) -> (m: u64)
    requires
        valid_cells(cells(a)),
    ensures
        is_flag_mask(m),
        flags(m) =~= own_flags(cells(a)),
{
    let r = calc_remove(a, shift_up(a, 1));
    let m = mask_or(r, shift_down(r, 1));
    proof {
        let s = cells(a);
        assert forall|y: int| 0 <= y < 16 implies flags(m)[y] == own_flags(s)[y] by {
            assert(valid_cell(s[y]));
            assert(flags(r)[y] == sums_to_ten(s[y], shifted(s, 1)[y]));
            if y + 1 < 16 {
                assert(flags(r)[y + 1] == sums_to_ten(s[y + 1], shifted(s, 1)[y + 1]));
            }
        }
    }
    m
}

/// For two neighbouring columns: the flags of the cells of `a` that add up
/// to ten with a touching cell of `b`, and the same with the columns swapped.
pub fn pair_masks(a: u64, b: u64) -> (r: (u64, u64))
    requires
        valid_cells(cells(a)),
        valid_cells(cells(b)),
    ensures
        is_flag_mask(r.0),
        is_flag_mask(r.1),
        flags(r.0) =~= other_flags(cells(a), cells(b)),
        flags(r.1) =~= other_flags(cells(b), cells(a)),
{
    let level = calc_remove(a, b);
    let below = calc_remove(a, shift_up(b, 1));
    let above = calc_remove(a, shift_down(b, 1));
    let ma = mask_or(level, mask_or(below, above));
    let mb = mask_or(level, mask_or(shift_down(below, 1), shift_up(above, 1)));
    proof {
        let s = cells(a);
        let t = cells(b);
        assert forall|y: int| 0 <= y < 16 implies flags(ma)[y] == other_flags(s, t)[y] && flags(
            mb,
        )[y] == other_flags(t, s)[y] by {
            assert(valid_cell(s[y]) && valid_cell(t[y]));
            assert(flags(level)[y] == sums_to_ten(s[y], t[y]));
            assert(flags(below)[y] == sums_to_ten(s[y], shifted(t, 1)[y]));
            assert(flags(above)[y] == sums_to_ten(s[y], shifted(t, -1)[y]));
            if y + 1 < 16 {
                assert(flags(below)[y + 1] == sums_to_ten(s[y + 1], shifted(t, 1)[y + 1]));
            }
            if y >= 1 {
                assert(flags(above)[y - 1] == sums_to_ten(s[y - 1], shifted(t, -1)[y - 1]));
            }
        }
    }
    (ma, mb)
}

/// The flags pin the mask: two flag masks with the same flags are the same
/// number. So the branch-free `calc_remove` and the byte-wise
/// `calc_remove_ref` return the same number on every pair of columns.
pub proof fn lemma_flag_mask_unique(a: u64, b: u64)
    requires
        is_flag_mask(a),
        is_flag_mask(b),
        flags(a) =~= flags(b),
    ensures
        a == b,
{
    assert forall|k: int| 0 <= k < 16 implies lane(a, k) == lane(b, k) by {
        assert(flags(a)[k] == flags(b)[k]);
        assert(lane(a, k) == 0 || lane(a, k) == 1);
        assert(lane(b, k) == 0 || lane(b, k) == 1);
    }
    assert(cells(a) =~= cells(b));
    lemma_cells_injective(a, b);
}

/// A flag mask is 0 exactly when none of its flags is raised.
pub proof fn lemma_mask_zero(m: u64)
    requires
        is_flag_mask(m),
    ensures
        m != 0 <==> exists|k: int| 0 <= k < 16 && #[trigger] flags(m)[k],
{
    lemma_zero_lanes();
    if m != 0 {
        if forall|k: int| 0 <= k < 16 ==> !#[trigger] flags(m)[k] {
            assert forall|k: int| 0 <= k < 16 implies lane(m, k) == 0 by {
                assert(!flags(m)[k]);
            }
            assert(cells(m) =~= cells(0));
            lemma_cells_injective(m, 0);
        }
    } else {
        assert forall|k: int| 0 <= k < 16 implies !#[trigger] flags(m)[k] by {}
    }
}

} // verus!
