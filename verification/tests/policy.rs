use rensa::action::{Action, ActionResult};
use rensa::board::{Board, Feature};
use rensa::player::Player;
use rensa::policy::{
    anti_counter_wanted, bommer_suspected, extend_wanted, kera_wanted, rensa_budget,
    bommer_budget, choose_plan, counter_limit, counter_wanted, deepest_plan, enemy_counter_result,
    fire, get_best, new_obstacle, rensa_score, search_budget, skill_score,
};
use rensa::replay::Replay;

const SEED: [[u8; 2]; 2] = [[3, 0], [1, 0]];
const NINE: [[u8; 2]; 2] = [[0, 0], [9, 0]];
const SEVEN: [[u8; 2]; 2] = [[0, 0], [7, 0]];

fn feature(keima: i32, keima2: i32, tate: i32, tate2: i32, num_block: i32, var: i32) -> Feature {
    Feature { keima, keima2, tate, tate2, num_block, var }
}

fn seeded() -> Player {
    let mut p = Player::new(Board::new(), 0, 0);
    p.put(&SEED, &Action::PutBlock { pos: 5, rot: 0 });
    p
}

fn plan_of(player: &Player, packs: &[[[u8; 2]; 2]], actions: &[Action]) -> Replay {
    let mut r = Replay::new();
    r.init(player, packs, &[], actions);
    r
}

#[test]
fn rensa_score_weighs_damage_first() {
    let low = Player::new(Board::new(), 0, 0);
    let r = ActionResult::new(3, 2, 18, -4);
    let f = feature(3, 5, 2, 7, 11, 100);
    // 2 * 1000000 - 4 * 1000 + 3 * 50 + 2 * 40 + 5 + 7 + 11 * 2000
    assert_eq!(rensa_score(&r, &low, &f), 2_018_242);
    // damage counts up to 200
    let big = ActionResult::new(20, 405, 52, 0);
    assert_eq!(rensa_score(&big, &low, &feature(0, 0, 0, 0, 0, 0)), 200_000_000);
    // a column of height 16 is two rows over
    let mut b = Board::new();
    for _ in 0..16 {
        b.fall(0, 1);
    }
    let high = Player::new(b, 0, 0);
    assert_eq!(
        rensa_score(&ActionResult::new(0, 0, 0, 0), &high, &feature(0, 0, 0, 0, 0, 0)),
        -20_000
    );
    let mut b = Board::new();
    for _ in 0..14 {
        b.fall(0, 1);
    }
    let edge = Player::new(b, 0, 0);
    assert_eq!(rensa_score(&ActionResult::new(0, 0, 0, 0), &edge, &feature(0, 0, 0, 0, 0, 0)), 0);
}

#[test]
fn rensa_score_does_not_overflow() {
    let p = Player::new(Board::new(), 0, 0);
    let f = feature(i32::MAX, i32::MAX, i32::MAX, i32::MAX, i32::MAX, i32::MAX);
    let s = rensa_score(&ActionResult::new(255, i32::MAX, i32::MAX, 127), &p, &f);
    let m = i32::MAX as i64;
    assert_eq!(s, 200_000_000 + 127_000 + m * 50 + m * 40 + m + m + m * 2000);
}

#[test]
fn choose_plan_takes_the_first_of_the_plans_that_send_most() {
    let p = seeded();
    let quiet = plan_of(&p, &[NINE], &[Action::PutBlock { pos: 0, rot: 0 }]);
    let fires = plan_of(
        &p,
        &[NINE, SEVEN],
        &[Action::PutBlock { pos: 5, rot: 0 }, Action::PutBlock { pos: 6, rot: 0 }],
    );
    let also = plan_of(
        &p,
        &[NINE, SEVEN],
        &[Action::PutBlock { pos: 5, rot: 0 }, Action::PutBlock { pos: 4, rot: 0 }],
    );
    assert_eq!(fires.get_obstacle(), 1);
    assert_eq!(also.get_obstacle(), 1);
    assert_eq!(choose_plan(&[], 60), None);
    assert_eq!(choose_plan(&[quiet.clone()], 60), Some(0));
    assert_eq!(choose_plan(&[quiet.clone(), fires.clone(), also.clone()], 60), Some(1));
    assert_eq!(choose_plan(&[also.clone(), quiet.clone(), fires.clone()], 60), Some(0));
    // with a limit of 0 every plan is worth the same
    assert_eq!(choose_plan(&[quiet.clone(), fires.clone()], 0), Some(0));
    // a limit below zero leaves nothing worth taking
    assert_eq!(choose_plan(&[quiet, fires, also], -1), None);
}

#[test]
fn get_best_makes_the_chosen_plan_anew() {
    let p = seeded();
    let packs = [SEED, NINE, SEVEN];
    let fires = plan_of(
        &p,
        &[NINE, SEVEN],
        &[Action::PutBlock { pos: 5, rot: 0 }, Action::PutBlock { pos: 6, rot: 0 }],
    );
    let states = vec![Replay::new(), fires];
    let best = get_best(&p, &packs, 1, 60, &[], &states).unwrap();
    assert_eq!(best.get_actions(), states[1].get_actions());
    assert_eq!(best.get_results(), states[1].get_results());
    assert!(best.can_replay(&p, &[]));
    // made anew for a player who was sent a row of obstacles it gives less
    let mut hit = p;
    hit.add_obstacles(10);
    let other = get_best(&hit, &packs, 1, 60, &[], &states).unwrap();
    assert_eq!(other.get_actions(), states[1].get_actions());
    assert_eq!(other.get_result(), ActionResult::new(1, 0, 0, 0));
    assert!(other.can_replay(&hit, &[]));
    // no plan, or only empty ones
    assert!(get_best(&p, &packs, 1, 60, &[], &[]).is_none());
    assert!(get_best(&p, &packs, 1, 60, &[], &[Replay::new(), Replay::new()]).is_none());
    assert!(get_best(&p, &packs, 1, -1, &[], &states).is_none());
}

#[test]
fn fire_finds_the_strongest_single_move() {
    let mut p = seeded();
    p.put(&NINE, &Action::PutBlock { pos: 5, rot: 0 });
    let shot = fire(&p, &SEVEN);
    assert_eq!(shot.action, Action::PutBlock { pos: 6, rot: 1 });
    assert_eq!(shot.result, ActionResult::new(2, 1, 0, 1));
    assert_eq!(shot.sent, 1);
    // on an empty board nothing fires, and the ability use that cannot be made comes last
    let shot = fire(&Player::new(Board::new(), 4, 0), &SEVEN);
    assert_eq!(shot.action, Action::UseSkill);
    assert_eq!(shot.result, ActionResult::new(0, 0, 0, 0));
    assert_eq!(shot.sent, 0);
    // with a full gauge the ability use counts
    let shot = fire(&Player::new(Board::new(), 4, 80), &SEVEN);
    assert_eq!(shot.action, Action::UseSkill);
    assert_eq!(shot.result, ActionResult::new(0, 12, 0, 0));
    assert_eq!(shot.sent, 8);
}

#[test]
fn new_obstacle_tells_a_new_row_from_an_old_one() {
    assert!(!new_obstacle(0, 9));
    assert!(new_obstacle(0, 10));
    assert!(new_obstacle(9, 10));
    // a row fell and a row is left
    assert!(!new_obstacle(20, 10));
    assert!(!new_obstacle(25, 19));
    assert!(new_obstacle(25, 20));
    assert!(new_obstacle(10, 10));
    // rounding towards zero: (5 - 10) / 10 is 0
    assert!(new_obstacle(5, 10));
    assert!(new_obstacle(-5, 10));
    assert!(new_obstacle(i32::MIN, 10));
    assert!(!new_obstacle(i32::MAX, (i32::MAX - 10) / 10 * 10));
}

#[test]
fn enemy_counter_result_looks_for_a_cascade_kept_ready() {
    // the block whose removal fires most sits in row 2, beside a column of height 1
    let b = Board::from_columns([0x91827, 0x3664, 0x5, 0, 0x28, 0, 0, 0, 0, 0x1]);
    let (sign, result) = enemy_counter_result(&b);
    assert!(!sign);
    assert_eq!(result, ActionResult::new(2, 1, 0, 0));
    // the same stack six rows higher, on obstacles, beside low columns
    let b = Board::from_columns([0x1, 0x91372BBBBBB, 0x1, 0, 0, 0, 0, 0, 0, 0]);
    let (sign, result) = enemy_counter_result(&b);
    assert_eq!(result.chains, 1);
    assert!(sign);
    let (sign, result) = enemy_counter_result(&Board::new());
    assert!(!sign);
    assert_eq!(result, ActionResult::new(0, 0, 0, 0));
}

#[test]
fn skill_score_counts_the_gauge_until_a_move_sends_forty() {
    let f = feature(9, 9, 9, 9, 9, 9);
    let p = Player::new(Board::new(), 0, 72);
    assert_eq!(skill_score(&ActionResult::new(0, 39, 0, 0), &p, &f), 7200);
    assert_eq!(skill_score(&ActionResult::new(0, 40, 0, 0), &p, &f), 100_000);
    assert_eq!(skill_score(&ActionResult::new(0, -5, 0, 0), &p, &f), 7200);
    let q = Player::new(Board::new(), 0, i32::MIN);
    assert_eq!(skill_score(&ActionResult::new(0, 0, 0, 0), &q, &f), -214_748_364_800);
}

#[test]
fn deepest_plan_is_the_last_plan_with_a_move() {
    let p = seeded();
    let one = plan_of(&p, &[NINE], &[Action::PutBlock { pos: 0, rot: 0 }]);
    assert_eq!(deepest_plan(&[]), None);
    assert_eq!(deepest_plan(&[Replay::new(), Replay::new()]), None);
    assert_eq!(deepest_plan(&[one.clone()]), Some(0));
    assert_eq!(deepest_plan(&[one.clone(), Replay::new(), one.clone(), Replay::new()]), Some(2));
    assert_eq!(deepest_plan(&[Replay::new(), one.clone(), one]), Some(2));
}

#[test]
fn budgets_go_by_turn_and_time_left() {
    assert_eq!(search_budget(0, 180_000), (13, 18_000));
    assert_eq!(search_budget(10, 30_000), (13, 18_000));
    assert_eq!(search_budget(11, 30_000), (10, 15_000));
    assert_eq!(search_budget(10, 29_999), (13, 1_000));
    assert_eq!(search_budget(400, 0), (10, 1_000));
    assert_eq!(bommer_budget(10, 30_000), (8, 15_000));
    assert_eq!(bommer_budget(11, 30_000), (11, 15_000));
    assert_eq!(bommer_budget(11, 29_999), (11, 1_000));
}

#[test]
fn counter_wanted_answers_a_new_and_strong_attack() {
    assert_eq!(counter_wanted(5, 60_000, &[]), None);
    assert_eq!(counter_wanted(5, 60_000, &[40]), Some(40));
    assert_eq!(counter_wanted(5, 60_000, &[39]), None);
    assert_eq!(counter_wanted(15, 60_000, &[39]), Some(39));
    assert_eq!(counter_wanted(15, 60_000, &[29]), None);
    assert_eq!(counter_wanted(14, 60_000, &[30]), None);
    // no time
    assert_eq!(counter_wanted(5, 29_999, &[40]), None);
    // not greater than what was seen before
    assert_eq!(counter_wanted(5, 60_000, &[3, 50, 7, 50]), None);
    assert_eq!(counter_wanted(5, 60_000, &[3, 50, 7, 51]), Some(51));
    assert_eq!(counter_wanted(5, 60_000, &[60, 3, 7, 51]), None);
    assert_eq!(counter_wanted(5, 60_000, &[-5, -9, 45]), Some(45));
    assert_eq!(counter_limit(40), 60);
    assert_eq!(counter_limit(45), 67);
    assert_eq!(counter_limit(0), 0);
    assert_eq!(counter_limit(i32::MAX), i32::MAX);
}

#[test]
fn the_small_decisions_of_a_turn() {
    assert_eq!(rensa_budget(0), (13, 19_000));
    assert_eq!(rensa_budget(1), (10, 15_000));
    assert!(bommer_suspected(10, 30));
    assert!(!bommer_suspected(10, 29));
    assert!(!bommer_suspected(11, 80));
    assert!(anti_counter_wanted(30_000, 1));
    assert!(!anti_counter_wanted(29_999, 1));
    assert!(!anti_counter_wanted(30_000, 2));
    assert!(!anti_counter_wanted(30_000, 0));
    assert!(extend_wanted(3, 2));
    assert!(!extend_wanted(2, 2));
    assert!(extend_wanted(255, 254));
    assert!(kera_wanted(true, 3, 2, 30_000));
    assert!(!kera_wanted(true, 4, 2, 30_000));
    assert!(!kera_wanted(false, 3, 2, 30_000));
    assert!(!kera_wanted(true, 3, 2, 29_999));
    assert!(kera_wanted(true, 255, 254, 30_000));
}
