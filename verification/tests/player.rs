use rensa::action::{Action, ActionResult};
use rensa::board::Board;
use rensa::player::{clamp, Player};
use rensa::rand::XorShiftL;

fn sample_board() -> Board {
    Board::from_columns([0x91827, 0x3664, 0x5, 0, 0x28, 0, 0, 0, 0, 0x1])
}

#[test]
fn a_new_player_has_taken_nothing_from_the_opponent() {
    let p = Player::new(sample_board(), 13, 72);
    assert_eq!(p.obstacle, 13);
    assert_eq!(p.skill_guage, 72);
    assert_eq!(p.decrease_skill_guage, 0);
    assert_eq!(p.board, sample_board());
}

#[test]
fn a_placement_lets_a_waiting_row_fall_first_and_charges_the_gauge() {
    let mut p = Player::new(sample_board(), 13, 72);
    p.decrease_skill_guage = 5;
    let r = p.put(&[[1, 2], [3, 4]], &Action::PutBlock { pos: 2, rot: 1 });
    assert_eq!(r, ActionResult::new(2, 1, 0, 0));
    assert_eq!(p.obstacle, 2);
    assert_eq!(p.skill_guage, 80);
    assert_eq!(p.decrease_skill_guage, 5);
    assert_eq!(p.board.columns(), [0xb, 0xb, 0x3b5, 0x1b, 0xb2, 0xb, 0xb, 0xb, 0xb, 0xb1]);
    assert!(!p.board.is_dead());
}

#[test]
fn a_placement_without_a_cascade_leaves_the_gauge() {
    let mut p = Player::new(Board::new(), 9, 40);
    let r = p.put(&[[1, 2], [3, 4]], &Action::PutBlock { pos: 0, rot: 0 });
    assert_eq!(r, ActionResult::new(0, 0, 0, 0));
    assert_eq!((p.obstacle, p.skill_guage), (9, 40));
    assert_eq!(p.board.columns()[0], 0x13);
}

#[test]
fn an_ability_use_spends_the_gauge() {
    let mut p = Player::new(sample_board(), 3, 85);
    p.decrease_skill_guage = 5;
    let r = p.put(&[[1, 2], [3, 4]], &Action::UseSkill);
    assert_eq!(r, ActionResult::new(1, 14, 0, 5));
    assert_eq!(p.obstacle, -11);
    assert_eq!(p.skill_guage, 0);
    assert_eq!(p.decrease_skill_guage, 5);
    assert_eq!(p.board.columns(), [0x7, 0x366, 0, 0, 0x28, 0, 0, 0, 0, 0x1]);
}

#[test]
fn players_are_equal_when_board_and_counters_are() {
    let a = Player::new(sample_board(), 13, 72);
    let mut b = Player::new(sample_board(), 13, 72);
    assert_eq!(a, b);
    b.decrease_skill_guage = 1;
    assert_ne!(a, b);
    assert_ne!(a, Player::new(sample_board(), 12, 72));
    assert_ne!(a, Player::new(sample_board(), 13, 71));
    assert_ne!(a, Player::new(Board::new(), 13, 72));
    let d = Player::default();
    assert_eq!(d, Player::new(Board::new(), 0, 0));
    assert!(d.board.is_empty() && !d.board.is_dead());
}

#[test]
fn the_gauge_is_full_at_eighty() {
    assert!(!Player::new(Board::new(), 0, 79).can_use_skill());
    assert!(Player::new(Board::new(), 0, 80).can_use_skill());
    assert!(Player::new(Board::new(), 0, 81).can_use_skill());
}

#[test]
fn add_obstacles_stays_within_range() {
    let mut p = Player::new(Board::new(), 5, 0);
    p.add_obstacles(7);
    assert_eq!(p.obstacle, 12);
    p.add_obstacles(-20);
    assert_eq!(p.obstacle, -8);
    p.add_obstacles(i32::MIN);
    assert_eq!(p.obstacle, i32::MIN);
    p.add_obstacles(i32::MAX);
    p.add_obstacles(i32::MAX);
    p.add_obstacles(i32::MAX);
    assert_eq!(p.obstacle, i32::MAX);
}

#[test]
fn clamp_holds_a_number_within_range() {
    assert_eq!(clamp(0), 0);
    assert_eq!(clamp(-5), -5);
    assert_eq!(clamp(2147483647), 2147483647);
    assert_eq!(clamp(2147483648), 2147483647);
    assert_eq!(clamp(-2147483649), -2147483648);
    assert_eq!(clamp(i64::MAX), i32::MAX);
}

#[test]
fn the_hash_of_a_player_reads_the_board_and_the_counters() {
    let mut p = Player::new(sample_board(), 13, 72);
    p.decrease_skill_guage = 5;
    assert_eq!(p.hash(), 4646474922385423513);
    let q = Player::new(sample_board(), 14, 72);
    assert_ne!(p.hash(), q.hash());
    let mut r = p;
    r.decrease_skill_guage = 6;
    assert_ne!(p.hash(), r.hash());
    let mut s = p;
    s.skill_guage = 73;
    assert_ne!(p.hash(), s.hash());
}

#[test]
fn put_one_probes_a_single_block() {
    let mut p = Player::new(Board::from_columns([0, 0, 0, 0, 0, 0x931, 0, 0, 0, 0]), 0, 0);
    let r = p.put_one(7, 4);
    assert_eq!(r, ActionResult::new(2, 1, 0, 1));
    assert_eq!(p.board.columns(), [0; 10]);
    assert_eq!((p.obstacle, p.skill_guage), (-1, 8));
}

#[test]
fn the_random_stream_is_a_function_of_its_seed() {
    let mut a = XorShiftL::new();
    let mut b = XorShiftL::from_seed(88172645463325252);
    let x = 88172645463325252u64;
    let first = x ^ (x << 7);
    let second = first ^ (first << 7);
    assert_eq!(a.next(), first);
    assert_eq!(a.next(), second);
    assert_eq!(b.next(), first);
    assert_eq!(b.next(), second);
    let mut c = XorShiftL::from_seed(1);
    assert_eq!(c.next(), 129);
    assert_eq!(c.next(), 16385);
}
