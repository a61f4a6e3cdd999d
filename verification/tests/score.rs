use rensa::action::ActionResult;
use rensa::score::{
    bomb_score_of, calc_bomb_result, calc_chain_result, chain_obstacles_of, chain_score_of,
    gauge_cut_of,
};

#[test]
fn chain_scores_add_up_the_powers_of_one_point_three() {
    assert_eq!(chain_score_of(0), 0);
    assert_eq!(chain_score_of(1), 1);
    assert_eq!(chain_score_of(2), 2);
    assert_eq!(chain_score_of(3), 4);
    assert_eq!(chain_score_of(12), 90);
    assert_eq!(chain_score_of(78), 3345057379);
    // above the cap every score reads as the cap
    assert_eq!(chain_score_of(79), 4294967296);
    assert_eq!(chain_score_of(255), 4294967296);
}

#[test]
fn a_cascade_sends_half_its_score() {
    let want = [(0u8, 0), (1, 0), (2, 1), (3, 2), (4, 3), (5, 4), (10, 25), (12, 45), (20, 405)];
    for (n, o) in want.iter() {
        assert_eq!(chain_obstacles_of(*n), *o);
    }
    assert_eq!(chain_obstacles_of(78), 1672528689);
    assert_eq!(chain_obstacles_of(79), 2147483647);
    assert_eq!(chain_obstacles_of(255), 2147483647);
}

#[test]
fn ability_scores_double_every_twelve_blocks() {
    assert_eq!(bomb_score_of(0), 25);
    assert_eq!(bomb_score_of(1), 26);
    assert_eq!(bomb_score_of(12), 50);
    assert_eq!(bomb_score_of(24), 100);
    assert_eq!(bomb_score_of(36), 200);
    assert_eq!(bomb_score_of(160), 258031);
    assert_eq!(bomb_score_of(255), 62348701);
}

#[test]
fn ability_scores_are_the_rounded_down_twelfth_roots() {
    for n in 0u32..=60 {
        let s = bomb_score_of(n as u8) as u128;
        let bound = 25u128.pow(12) * 2u128.pow(n);
        assert!(s.pow(12) <= bound);
        assert!((s + 1).pow(12) > bound);
    }
}

#[test]
fn gauge_is_cut_from_three_rounds_on() {
    assert_eq!(gauge_cut_of(0), 0);
    assert_eq!(gauge_cut_of(2), 0);
    assert_eq!(gauge_cut_of(3), 18);
    assert_eq!(gauge_cut_of(10), 32);
    assert_eq!(gauge_cut_of(255), 522);
}

#[test]
fn chain_result_fills_every_field() {
    assert_eq!(calc_chain_result(0, 0), ActionResult::new(0, 0, 0, 0));
    assert_eq!(calc_chain_result(2, -5), ActionResult::new(2, 1, 0, -5));
    assert_eq!(calc_chain_result(12, 3), ActionResult::new(12, 45, 36, 3));
}

#[test]
fn bomb_result_adds_the_two_scores() {
    assert_eq!(calc_bomb_result(12, 0, 0), ActionResult::new(0, 25, 0, 0));
    assert_eq!(calc_bomb_result(0, 3, 2), ActionResult::new(3, 14, 18, 2));
    assert_eq!(calc_bomb_result(255, 255, 0), ActionResult::new(255, 2147483647, 522, 0));
}

#[test]
fn the_default_result_is_zero() {
    assert_eq!(ActionResult::default(), ActionResult::new(0, 0, 0, 0));
}
