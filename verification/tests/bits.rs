use rensa::bits::{
    calc_empty_mask, calc_five_mask, calc_obstacle_mask, calc_remove, calc_remove0,
    calc_remove_ref, count_raised, get_lane, height, mask_minus, mask_or, one_flag, own_mask,
    pair_masks, remove_flagged, shift_down, shift_up,
};

const ONES: u64 = 0x1111_1111_1111_1111;

fn lanes(c: u64) -> Vec<u64> {
    (0..16).map(|k| (c >> (4 * k)) & 0xF).collect()
}

fn from_lanes(v: &[u64]) -> u64 {
    let mut c = 0u64;
    for (k, x) in v.iter().enumerate() {
        c |= x << (4 * k);
    }
    c
}

fn naive_remove(c1: u64, c2: u64) -> u64 {
    let a = lanes(c1);
    let b = lanes(c2);
    let f: Vec<u64> = (0..16).map(|k| if a[k] + b[k] == 10 { 1 } else { 0 }).collect();
    from_lanes(&f)
}

fn naive_compact(c: u64, m: u64) -> u64 {
    let a = lanes(c);
    let f = lanes(m);
    let mut kept: Vec<u64> = Vec::new();
    for k in 0..16 {
        if f[k] != 1 {
            kept.push(a[k]);
        }
    }
    while kept.len() < 16 {
        kept.push(0);
    }
    from_lanes(&kept)
}

// Puts the lanes of a compacted column back where the mask has no flag.
fn expand(c: u64, m: u64) -> u64 {
    let src = lanes(c);
    let f = lanes(m);
    let mut out = vec![0u64; 16];
    let mut j = 0;
    for k in 0..16 {
        if f[k] != 1 {
            out[k] = src[j];
            j += 1;
        }
    }
    from_lanes(&out)
}

fn samples() -> Vec<u64> {
    let mut v = vec![0, 1, 0xF, ONES, 0x9182_7364_5543_2119, 0xFFFF_FFFF_FFFF_FFFF, 0x0000_0000_0B91_8273];
    let mut x: u64 = 0x2545_F491_4F6C_DD1D;
    for _ in 0..40 {
        x ^= x << 13;
        x ^= x >> 7;
        x ^= x << 17;
        v.push(x);
    }
    v
}

#[test]
fn calc_remove_agrees_with_the_check_lane_by_lane_on_all_value_pairs() {
    for a in 0u64..16 {
        for b in 0u64..16 {
            let c1 = a * ONES;
            let c2 = b * ONES;
            let want = if a + b == 10 { ONES } else { 0 };
            assert_eq!(calc_remove(c1, c2), want);
            assert_eq!(calc_remove_ref(c1, c2), want);
            assert_eq!(naive_remove(c1, c2), want);
        }
    }
}

#[test]
fn calc_remove_agrees_with_the_check_lane_by_lane_on_mixed_columns() {
    let s = samples();
    for &c1 in s.iter() {
        for &c2 in s.iter() {
            assert_eq!(calc_remove(c1, c2), naive_remove(c1, c2));
            assert_eq!(calc_remove_ref(c1, c2), calc_remove(c1, c2));
        }
    }
}

#[test]
fn calc_remove_has_no_carry_between_lanes() {
    // 15 + 11 is 26, which is 10 in four bits: not a pair.
    assert_eq!(calc_remove(0xF, 0xB), 0);
    assert_eq!(calc_remove(0x0F0, 0x0B0), 0);
    assert_eq!(calc_remove(0x19, 0x91), 0x11);
    assert_eq!(calc_remove(0xA, 0x0), 0x1);
}

#[test]
fn calc_remove0_flags_bytes_that_add_up_to_ten() {
    assert_eq!(calc_remove0(0x0001_0002_0003_040A, 0x0009_0008_0008_0600), 0x0001_0001_0000_0101);
    assert_eq!(calc_remove0(0x0F0F, 0x0F0B), 0);
}

#[test]
fn remove_flagged_takes_cells_out_and_lets_the_rest_come_down() {
    assert_eq!(remove_flagged(0x54321, 0x01010), 0x531);
    assert_eq!(remove_flagged(0x54321, 0), 0x54321);
    assert_eq!(remove_flagged(0x54321, 0x11111), 0);
    assert_eq!(remove_flagged(0xF000_0000_0000_0001, 0x1), 0x0F00_0000_0000_0000);
    assert_eq!(remove_flagged(0xFFFF_FFFF_FFFF_FFFF, ONES), 0);
}

#[test]
fn compaction_followed_by_expansion_gives_the_column_without_the_flagged_cells() {
    let s = samples();
    for &c in s.iter() {
        for &r in s.iter() {
            let m = r & ONES;
            let packed = remove_flagged(c, m);
            assert_eq!(packed, naive_compact(c, m));
            // what is left, back in place, is the column with the flagged cells emptied
            assert_eq!(expand(packed, m), c & !(m * 0xF));
            // a kept cell has come down by the number of flagged cells below it
            let mut below = 0;
            for k in 0..16 {
                if (m >> (4 * k)) & 1 == 1 {
                    below += 1;
                } else {
                    assert_eq!(get_lane(packed, k - below), get_lane(c, k));
                }
            }
            for k in (16 - below)..16 {
                assert_eq!(get_lane(packed, k), 0);
            }
        }
    }
}

#[test]
fn height_counts_rows_up_to_the_topmost_block() {
    assert_eq!(height(0), 0);
    assert_eq!(height(1), 1);
    assert_eq!(height(0xF), 1);
    assert_eq!(height(0x10), 2);
    assert_eq!(height(0x07B1819), 6);
    assert_eq!(height(0x1000_0000_0000_0000), 16);
    assert_eq!(height(0x0100_0000_0000_0000), 15);
}

#[test]
fn get_lane_reads_one_cell() {
    assert_eq!(get_lane(0x07B1819, 0), 9);
    assert_eq!(get_lane(0x07B1819, 4), 11);
    assert_eq!(get_lane(0x07B1819, 6), 0);
    assert_eq!(get_lane(0xA000_0000_0000_0000, 15), 10);
}

#[test]
fn shifts_move_whole_rows() {
    assert_eq!(shift_up(0x321, 1), 0x3210);
    assert_eq!(shift_up(0x321, 3), 0x321000);
    assert_eq!(shift_up(0xF000_0000_0000_0321, 1), 0x3210);
    assert_eq!(shift_down(0x321, 1), 0x32);
    assert_eq!(shift_down(0x321, 0), 0x321);
    assert_eq!(shift_down(0x321, 15), 0);
}

#[test]
fn value_masks_flag_fives_obstacles_and_empty_cells() {
    let c = 0x0B50_5B05_1234_6789;
    assert_eq!(calc_five_mask(c), 0x0010_1001_0000_0000);
    assert_eq!(calc_obstacle_mask(c), 0x0100_0100_0000_0000);
    assert_eq!(calc_empty_mask(c), 0x1001_0010_0000_0000);
    assert_eq!(calc_five_mask(0xD7), 0);
}

#[test]
fn masks_combine_flag_by_flag() {
    assert_eq!(mask_or(0x1010, 0x0110), 0x1110);
    assert_eq!(mask_minus(0x1110, 0x0101), 0x1010);
    assert_eq!(count_raised(0x1110), 3);
    assert_eq!(count_raised(0), 0);
    assert_eq!(count_raised(ONES), 16);
    assert_eq!(one_flag(0), 1);
    assert_eq!(one_flag(15), 0x1000_0000_0000_0000);
}

#[test]
fn own_mask_flags_vertical_pairs() {
    // from the bottom: 1 9 3 7 2
    assert_eq!(own_mask(0x27391), 0x01111);
    assert_eq!(own_mask(0x12345), 0);
}

#[test]
fn pair_masks_flag_pairs_across_two_columns() {
    // a: 1 at row 0, 4 at row 2; b: 9 at row 1, 6 at row 2
    let (ma, mb) = pair_masks(0x401, 0x690);
    assert_eq!(ma, 0x101);
    assert_eq!(mb, 0x110);
    let (ma, mb) = pair_masks(0x1, 0x900);
    assert_eq!(ma, 0);
    assert_eq!(mb, 0);
}
