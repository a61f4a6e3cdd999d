use rensa::action::ActionResult;
use rensa::board::{cell_is_valid, pack_is_valid, picture_is_valid, rotate, Board};

fn cols(head: &[u64]) -> [u64; 10] {
    let mut c = [0u64; 10];
    for (i, v) in head.iter().enumerate() {
        c[i] = *v;
    }
    c
}

#[test]
fn board_test_1() {
    let mut board = Board::from_columns([0x07B1819, 0x0008832, 0, 0, 0, 0, 0, 0, 0, 0]);
    board.put(&[[1, 9], [0, 0]], 0, 0);
    assert_eq!(board.columns(), [27, 136, 0, 0, 0, 0, 0, 0, 0, 0]);
}

#[test]
fn board_test_2() {
    let mut board = Board::from_columns([0x17B1819, 0x0098832, 0, 0, 0, 0, 0, 0, 0, 0]);
    board.put(&[[9, 5], [0, 3]], 1, 3);
    assert_eq!(board.columns(), [11, 1416, 3, 0, 0, 0, 0, 0, 0, 0]);
}

#[test]
fn a_new_board_is_empty_and_alive() {
    let b = Board::new();
    assert!(b.is_empty());
    assert!(!b.is_dead());
    assert!(b.is_valid());
    assert_eq!(b.columns(), [0; 10]);
    assert_eq!(Board::default(), b);
    assert!(!Board::from_columns(cols(&[0, 0, 0x10])).is_empty());
}

#[test]
fn from_board_reads_rows_from_the_top() {
    let mut picture = [0u8; 160];
    // bottom row: column 0 holds 7, column 9 holds 11; the row above: column 0 holds 3
    picture[15 * 10] = 7;
    picture[15 * 10 + 9] = 11;
    picture[14 * 10] = 3;
    // top row, column 4
    picture[4] = 9;
    let b = Board::from_board(picture);
    assert_eq!(b.columns(), [0x37, 0, 0, 0, 0x9000_0000_0000_0000, 0, 0, 0, 0, 0xB]);
    assert_eq!(b.get(0, 0), 7);
    assert_eq!(b.get(0, 1), 3);
    assert_eq!(b.get(4, 15), 9);
    assert_eq!(b.get(9, 0), 11);
    assert!(!b.is_dead());
}

#[test]
fn is_valid_refuses_cells_that_are_no_cells() {
    assert!(Board::from_columns(cols(&[0x07B1819, 0x9])).is_valid());
    assert!(!Board::from_columns(cols(&[0xA])).is_valid());
    assert!(!Board::from_columns(cols(&[0, 0xC0])).is_valid());
    assert!(!Board::from_columns(cols(&[0, 0, 0xF000_0000_0000_0000])).is_valid());
}

#[test]
fn cells_are_zero_to_nine_and_eleven() {
    for v in 0u8..=255 {
        assert_eq!(cell_is_valid(v), v <= 9 || v == 11);
    }
    assert!(pack_is_valid(&[[0, 9], [11, 5]]));
    assert!(!pack_is_valid(&[[0, 9], [10, 5]]));
    assert!(!pack_is_valid(&[[0, 9], [1, 12]]));
    let mut picture = [0u8; 160];
    assert!(picture_is_valid(&picture));
    picture[159] = 11;
    assert!(picture_is_valid(&picture));
    picture[80] = 16;
    assert!(!picture_is_valid(&picture));
}

#[test]
fn fall_lands_on_top_and_a_full_column_kills_the_board() {
    let mut b = Board::new();
    for _ in 0..16 {
        b.fall(3, 1);
    }
    assert_eq!(b.columns()[3], 0x1111_1111_1111_1111);
    assert_eq!(b.height(3), 16);
    assert!(!b.is_dead());
    b.fall(3, 1);
    assert!(b.is_dead());
    assert_eq!(b.columns()[3], 0x1111_1111_1111_1111);
    // dead is for good
    b.fall(4, 2);
    assert!(b.is_dead());
    let mask = b.removal_masks(&[false; 10]);
    let _ = b.fall_by_mask(&mask);
    assert!(b.is_dead());
}

#[test]
fn a_placement_on_a_full_column_kills_the_board() {
    let mut b = Board::from_columns(cols(&[0x2121_2121_2121_2121]));
    let r = b.put(&[[1, 0], [2, 0]], 0, 0);
    assert!(b.is_dead());
    assert_eq!(r, ActionResult::new(0, 0, 0, 0));
    assert_eq!(b.columns()[0], 0x2121_2121_2121_2121);
    let r = b.put(&[[1, 0], [9, 0]], 4, 0);
    assert!(b.is_dead());
    assert_eq!(r.chains, 1);
}

#[test]
fn fall_obstacle_adds_a_row_of_obstacles() {
    let mut b = Board::from_columns([0x91827, 0x3664, 0x5, 0, 0x28, 0, 0, 0, 0, 0x1]);
    b.fall_obstacle();
    assert_eq!(b.columns(), [0xb91827, 0xb3664, 0xb5, 0xb, 0xb28, 0xb, 0xb, 0xb, 0xb, 0xb1]);
    assert_eq!(b.num_obstacle(), 10);
    assert!(!b.is_dead());
}

#[test]
fn rotate_turns_the_piece_a_quarter_to_the_right() {
    let p = [[1, 2], [3, 4]];
    assert_eq!(rotate(&p, 0), [[1, 2], [3, 4]]);
    assert_eq!(rotate(&p, 1), [[3, 1], [4, 2]]);
    assert_eq!(rotate(&p, 2), [[4, 3], [2, 1]]);
    assert_eq!(rotate(&p, 3), [[2, 4], [1, 3]]);
    assert_eq!(rotate(&p, 4), p);
}

#[test]
fn put_drops_the_turned_piece() {
    let want: [[u64; 2]; 4] = [[0x13, 0x24], [0x34, 0x12], [0x42, 0x31], [0x21, 0x43]];
    for rot in 0..4 {
        let mut b = Board::new();
        let r = b.put(&[[1, 2], [3, 4]], 0, rot);
        assert_eq!(r, ActionResult::new(0, 0, 0, 0));
        assert_eq!(b.columns(), cols(&want[rot]));
    }
    let mut b = Board::new();
    b.put(&[[1, 2], [3, 4]], 8, 0);
    assert_eq!(b.columns(), [0, 0, 0, 0, 0, 0, 0, 0, 0x13, 0x24]);
}

#[test]
fn put_twice_from_the_same_board_gives_the_same_board_and_result() {
    let start = Board::from_columns([0x07B1819, 0x0008832, 0x5, 0, 0x28, 0, 0, 0, 0, 0x1]);
    for pos in 0..9 {
        for rot in 0..4 {
            let mut a = start;
            let mut b = start;
            let ra = a.put(&[[1, 9], [7, 3]], pos, rot);
            let rb = b.put(&[[1, 9], [7, 3]], pos, rot);
            assert_eq!(ra, rb);
            assert_eq!(a.columns(), b.columns());
            assert_eq!(a.is_dead(), b.is_dead());
        }
    }
}

#[test]
fn vanish_is_zero_exactly_when_no_compared_pair_adds_up_to_ten() {
    // a pair in column 1 and a pair in the last column; with nothing changed only the
    // last column is compared with itself
    let start = Board::from_columns([0, 0x19, 0, 0, 0, 0, 0, 0, 0, 0x91]);
    let mut b = start;
    let r = b.vanish(0);
    assert_eq!(r.0, 1);
    assert_eq!(b.columns(), [0, 25, 0, 0, 0, 0, 0, 0, 0, 0]);
    // now column 1 is changed as well
    let mut b = start;
    let r = b.vanish(1 << 1);
    assert_eq!(r.0, 1);
    assert_eq!(b.columns(), [0; 10]);
    // a board without a pair
    let quiet = Board::from_columns([0x12, 0x34, 0x12, 0, 0, 0, 0, 0, 0, 0x78]);
    let mut b = quiet;
    let r = b.vanish(0x3FF);
    assert_eq!(r, (0, 0));
    assert_eq!(b.columns(), quiet.columns());
    let masks = quiet.removal_masks(&[true; 10]);
    assert_eq!(masks, [0; 10]);
}

#[test]
fn vanish_finds_pairs_in_all_eight_directions() {
    // column 0: 6 then 4, column 1: 4 then 6: side by side and across
    let mut b = Board::from_columns(cols(&[0x46, 0x64]));
    assert_eq!(b.vanish(1), (1, 0));
    assert_eq!(b.columns(), [0; 10]);
    // across only: 3 at the bottom left, 7 one up on the right
    let mut b = Board::from_columns(cols(&[0x3, 0x71]));
    assert_eq!(b.vanish(1).0, 1);
    assert_eq!(b.columns(), cols(&[0, 0x1]));
    // two rows apart is no pair
    let mut b = Board::from_columns(cols(&[0x3, 0x711]));
    assert_eq!(b.vanish(3).0, 0);
}

#[test]
fn vanish_counts_the_rounds_of_a_cascade() {
    let mut b = Board::from_columns(cols(&[0, 0, 0, 0, 0, 0x89312, 0x4]));
    let r = b.put_one(7, 6);
    assert_eq!(r, ActionResult::new(3, 2, 18, 1));
    assert_eq!(b.columns(), cols(&[0, 0, 0, 0, 0, 0, 0x4]));
}

#[test]
fn vanish_reports_the_spread_of_the_first_round() {
    let mut b = Board::from_columns(cols(&[0x07B1819, 0x0008832]));
    b.fall(0, 1);
    b.fall(1, 9);
    assert_eq!(b.vanish(3), (2, -5));
}

#[test]
fn use_skill_blows_up_the_fives_and_what_touches_them() {
    let mut b = Board::from_columns([0x0521, 0x0035, 0x000B5, 0, 0, 0, 0, 0, 0, 0x5]);
    let r = b.use_skill();
    assert_eq!(r, ActionResult::new(0, 18, 0, 0));
    assert_eq!(b.columns(), cols(&[0, 0, 0xb]));
}

#[test]
fn use_skill_on_a_board_without_a_five_removes_nothing() {
    let start = Board::from_columns(cols(&[0x12, 0xB4]));
    let mut b = start;
    let r = b.use_skill();
    assert_eq!(r, ActionResult::new(0, 12, 0, 0));
    assert_eq!(b.columns(), start.columns());
    assert_eq!(start.blast_masks(), [0; 10]);
}

#[test]
fn calc_feature_counts_near_pairs_and_heights() {
    let b = Board::from_columns([0x91827, 0x3664, 0x5, 0, 0x28, 0, 0, 0, 0, 0x1]);
    let f = b.calc_feature();
    assert_eq!(
        (f.keima, f.keima2, f.tate, f.tate2, f.num_block, f.var),
        (0, 1, 1, 0, 13, 20)
    );
    let f = Board::new().calc_feature();
    assert_eq!((f.keima, f.keima2, f.tate, f.tate2, f.num_block, f.var), (0, 0, 0, 0, 0, 0));
}

#[test]
fn heights_of_columns_and_neighbours() {
    let b = Board::from_columns([0x91827, 0x3664, 0x5, 0, 0x28, 0, 0, 0, 0, 0x1]);
    let hs: Vec<usize> = (0..10).map(|x| b.height(x)).collect();
    assert_eq!(hs, vec![5, 4, 1, 0, 2, 0, 0, 0, 0, 1]);
    assert_eq!(b.max_height(), 5);
    assert_eq!(b.adjust_height_min(0), 4);
    assert_eq!(b.adjust_height_max(0), 4);
    assert_eq!(b.adjust_height_min(1), 1);
    assert_eq!(b.adjust_height_max(1), 5);
    assert_eq!(b.adjust_height_min(9), 0);
    assert_eq!(b.adjust_height_max(9), 0);
    assert_eq!(Board::new().adjust_height_min(4), 0);
    assert_eq!(Board::new().max_height(), 0);
}

#[test]
fn hash_folds_the_columns() {
    let b = Board::from_columns([0x91827, 0x3664, 0x5, 0, 0x28, 0, 0, 0, 0, 0x1]);
    assert_eq!(b.hash(), 15770075678628605777);
    assert_eq!(Board::new().hash(), 0);
    assert_eq!(Board::from_columns(cols(&[0, 0, 0, 0, 0, 0, 0, 0, 0, 7])).hash(), 7);
    assert_eq!(Board::from_columns(cols(&[0, 0, 0, 0, 0, 0, 0, 0, 2, 7])).hash(), 69);
}

#[test]
fn boards_are_equal_when_their_cells_are() {
    let a = Board::from_columns(cols(&[0x12, 0x34]));
    let mut b = Board::new();
    b.put(&[[1, 3], [2, 4]], 0, 0);
    assert_eq!(a, b);
    assert_ne!(a, Board::new());
}

#[test]
fn the_probe_finds_the_block_whose_removal_fires_most() {
    let b = Board::from_columns([0x91827, 0x3664, 0x5, 0, 0x28, 0, 0, 0, 0, 0x1]);
    let (after, result, at) = b.calc_max_rensa_by_erase_block();
    assert_eq!(result, ActionResult::new(2, 1, 0, 0));
    assert_eq!(at, (1, 2));
    assert_eq!(after.columns(), [0, 0, 0x5, 0, 0x28, 0, 0, 0, 0, 0x1]);
    let (after, result, at) = b.calc_max_rensa_by_erase_outer_block();
    assert_eq!(result.chains, 2);
    assert_eq!(at, (1, 2));
    assert_eq!(after.columns(), [0, 0, 0x5, 0, 0x28, 0, 0, 0, 0, 0x1]);
    let (after, result, at) = b.calc_max_rensa_by_erase_block_over_obstacle();
    assert_eq!((result.chains, at), (2, (1, 2)));
    assert_eq!(after.columns()[2], 0x5);
}

#[test]
fn the_probe_takes_the_last_of_equal_cascades() {
    let b = Board::from_columns(cols(&[0, 0x91372]));
    let (after, result, at) = b.calc_max_rensa_by_erase_block();
    assert_eq!(result, ActionResult::new(1, 0, 0, 0));
    assert_eq!(at, (1, 3));
    assert_eq!(after.columns(), cols(&[0, 0x92]));
}

#[test]
fn the_probe_of_an_empty_board_finds_nothing() {
    let (after, result, at) = Board::new().calc_max_rensa_by_erase_block();
    assert_eq!(result, ActionResult::new(0, 0, 0, 0));
    assert_eq!(at, (0, 0));
    assert!(after.is_empty());
}
