use rensa::action::{Action, ActionResult};
use rensa::board::Board;
use rensa::player::Player;
use rensa::replay::Replay;

const SEED: [[u8; 2]; 2] = [[3, 0], [1, 0]];
const NINE: [[u8; 2]; 2] = [[0, 0], [9, 0]];
const SEVEN: [[u8; 2]; 2] = [[0, 0], [7, 0]];

fn seeded() -> Player {
    let mut p = Player::new(Board::new(), 0, 0);
    p.put(&SEED, &Action::PutBlock { pos: 5, rot: 0 });
    p
}

fn plan() -> Vec<Action> {
    vec![Action::PutBlock { pos: 5, rot: 0 }, Action::PutBlock { pos: 6, rot: 0 }]
}

fn made(player: &Player, sched: &[i32]) -> Replay {
    let mut r = Replay::new();
    r.init(player, &[NINE, SEVEN], sched, &plan());
    r
}

#[test]
fn a_new_plan_is_empty() {
    let mut r = Replay::new();
    assert!(r.is_empty());
    assert_eq!(r.len(), 0);
    assert_eq!(r.get_result(), ActionResult::new(0, 0, 0, 0));
    assert_eq!(r.get_chains(), 0);
    assert_eq!(r.get_obstacle(), 0);
    assert_eq!(r.get_actions(), Vec::<Action>::new());
    assert_eq!(r.replay(), None);
    assert!(!r.can_replay(&seeded(), &[]));
}

#[test]
fn init_records_what_each_move_gives() {
    let r = made(&seeded(), &[]);
    assert_eq!(r.len(), 2);
    assert!(!r.is_empty());
    assert_eq!(r.get_actions(), plan());
    assert_eq!(
        r.get_results(),
        vec![ActionResult::new(0, 0, 0, 0), ActionResult::new(2, 1, 0, 1)]
    );
    assert_eq!(r.get_result(), ActionResult::new(2, 1, 0, 1));
    assert_eq!(r.get_chains(), 2);
    assert_eq!(r.get_obstacle(), 1);
    assert_eq!(r.get_raw_obstacles(), vec![0, 1]);
}

#[test]
fn init_leaves_the_player_as_it_was() {
    let p = seeded();
    let _ = made(&p, &[]);
    assert_eq!(p.board.columns(), [0, 0, 0, 0, 0, 0x31, 0, 0, 0, 0]);
    assert_eq!(p.obstacle, 0);
}

#[test]
fn init_takes_only_the_pieces_of_its_moves() {
    let mut r = Replay::new();
    r.init(&seeded(), &[NINE, SEVEN, SEED, SEED], &[], &plan());
    assert_eq!(r.len(), 2);
    assert_eq!(r.get_results().len(), 2);
    assert!(r.can_replay(&seeded(), &[]));
}

#[test]
fn a_fresh_plan_can_be_replayed_and_gives_what_was_recorded() {
    let p = seeded();
    let mut r = made(&p, &[]);
    assert!(r.can_replay(&p, &[]));
    let expected = r.get_results();
    let mut live = p;
    let a = r.replay().unwrap();
    assert_eq!(a, Action::PutBlock { pos: 5, rot: 0 });
    assert_eq!(live.put(&NINE, &a), expected[0]);
    assert_eq!(r.len(), 1);
    assert_eq!(r.get_results(), vec![expected[1]]);
    assert!(r.can_replay(&live, &[]));
    let a = r.replay().unwrap();
    assert_eq!(a, Action::PutBlock { pos: 6, rot: 0 });
    assert_eq!(live.put(&SEVEN, &a), expected[1]);
    assert!(r.is_empty());
    assert_eq!(r.replay(), None);
    assert!(!r.can_replay(&live, &[]));
    assert_eq!(live.board.columns(), [0; 10]);
}

#[test]
fn a_player_who_was_sent_other_obstacles_cannot_replay() {
    let p = seeded();
    let r = made(&p, &[]);
    let mut hit = p;
    hit.add_obstacles(10);
    assert!(!r.can_replay(&hit, &[]));
    // the same player under another schedule
    assert!(!r.can_replay(&p, &[10]));
    // a schedule that changes nothing of what the plan gives
    assert!(r.can_replay(&p, &[3]));
    assert!(r.can_replay(&p, &[0, 0, 0]));
}

#[test]
fn a_plan_made_under_a_schedule_holds_under_that_schedule_only() {
    let p = seeded();
    let r = made(&p, &[10]);
    assert_eq!(r.get_result(), ActionResult::new(2, 1, 0, 0));
    assert!(r.can_replay(&p, &[10]));
    assert!(!r.can_replay(&p, &[]));
}

#[test]
fn a_plan_that_uses_the_ability_needs_a_full_gauge() {
    let mut charged = Player::new(Board::from_columns([0x5, 0, 0, 0, 0, 0, 0, 0, 0, 0]), 0, 80);
    let mut r = Replay::new();
    r.init(&charged, &[SEED], &[], &[Action::UseSkill]);
    assert_eq!(r.get_result(), ActionResult::new(0, 13, 0, 0));
    assert!(r.can_replay(&charged, &[]));
    charged.skill_guage = 79;
    assert!(!r.can_replay(&charged, &[]));
}

#[test]
fn clear_drops_every_move() {
    let mut r = made(&seeded(), &[]);
    r.clear();
    assert!(r.is_empty());
    assert_eq!(r.len(), 0);
    assert_eq!(r.get_results(), Vec::<ActionResult>::new());
    assert_eq!(r.get_result(), ActionResult::new(0, 0, 0, 0));
    assert!(!r.can_replay(&seeded(), &[]));
    assert_eq!(r.replay(), None);
}

#[test]
fn get_obstacles_pays_off_what_is_waiting() {
    let mut charged = Player::new(Board::from_columns([0x5, 0, 0, 0, 0, 0, 0, 0, 0, 0]), 0, 80);
    let mut r = Replay::new();
    r.init(&charged, &[SEED, NINE], &[], &[Action::UseSkill, Action::PutBlock { pos: 0, rot: 0 }]);
    assert_eq!(r.get_raw_obstacles(), vec![13, 0]);
    assert_eq!(r.get_obstacles(&charged), vec![13, 0]);
    charged.obstacle = 5;
    assert_eq!(r.get_obstacles(&charged), vec![8, 0]);
    charged.obstacle = 25;
    assert_eq!(r.get_obstacles(&charged), vec![0, 0]);
    charged.obstacle = 21;
    assert_eq!(r.get_obstacles(&charged), vec![2, 0]);
    charged.obstacle = -5;
    assert_eq!(r.get_obstacles(&charged), vec![18, 0]);
    assert_eq!(r.get_obstacles_score(&charged), 18);
    charged.obstacle = 20;
    assert_eq!(r.get_obstacles_score(&charged), -7);
    charged.obstacle = i32::MIN;
    assert_eq!(r.get_obstacles_score(&charged), i32::MAX);
    assert_eq!(r.get_obstacles(&charged), vec![i32::MAX, 0]);
}
