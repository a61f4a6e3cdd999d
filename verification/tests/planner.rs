use rensa::action::{Action, ActionResult};
use rensa::board::{Board, Feature};
use rensa::player::Player;
use rensa::policy::rensa_score;
use rensa::rand::XorShiftL;
use rensa::rensa_plan::{
    calc_rensa_plan, do_action, expand, goes_on, look_ahead, BeamState, PlanContext, Search,
};

const SEED: [[u8; 2]; 2] = [[3, 0], [1, 0]];
const NINE: [[u8; 2]; 2] = [[0, 0], [9, 0]];
const SEVEN: [[u8; 2]; 2] = [[0, 0], [7, 0]];
const PACKS: [[[u8; 2]; 2]; 3] = [SEED, NINE, SEVEN];

fn seeded() -> Player {
    let mut p = Player::new(Board::new(), 0, 0);
    p.put(&SEED, &Action::PutBlock { pos: 5, rot: 0 });
    p
}

fn context(player: Player, start: usize, depth: usize, millis: u64) -> PlanContext<'static> {
    PlanContext {
        plan_start_turn: start,
        max_turn: depth,
        think_time_in_milli: millis,
        player,
        enemy_send_obstacles: &[],
        packs: &PACKS,
    }
}

fn flat(_r: &ActionResult, _p: &Player, _f: &Feature) -> i64 {
    1
}

fn run_to_the_end(ctx: &PlanContext, seed: u64) -> Search {
    let mut search = Search::new(ctx);
    let mut rand = XorShiftL::from_seed(seed);
    let mut rounds = 0;
    while !search.is_done() {
        search.round(ctx, &mut rand, &rensa_score);
        rounds += 1;
        assert!(rounds < 100_000);
    }
    search
}

#[test]
fn without_time_the_planner_returns_an_empty_plan_for_every_depth() {
    let ctx = context(seeded(), 1, 2, 0);
    let mut rand = XorShiftL::new();
    let plans = calc_rensa_plan(&ctx, &mut rand, rensa_score);
    assert_eq!(plans.len(), 2);
    assert!(plans[0].is_empty());
    assert!(plans[1].is_empty());
    // no number was drawn
    assert_eq!(rand.next(), XorShiftL::new().next());
}

#[test]
fn a_context_is_checked_before_a_search() {
    assert!(context(seeded(), 1, 2, 1000).check());
    assert!(context(seeded(), 0, 3, 1000).check());
    assert!(context(seeded(), 3, 0, 1000).check());
    // more pieces are asked for than there are
    assert!(!context(seeded(), 2, 2, 1000).check());
    assert!(!context(seeded(), 4, 0, 1000).check());
    assert!(!context(seeded(), usize::MAX, 2, 1000).check());
    // more than sixteen moves
    let many = [SEED; 40];
    let mut ctx = context(seeded(), 0, 16, 1000);
    ctx.packs = &many;
    assert!(ctx.check());
    ctx.max_turn = 17;
    assert!(!ctx.check());
    // a cell that is no cell, on the board or in a piece that is to be played
    let bad = Player::new(Board::from_columns([0xA, 0, 0, 0, 0, 0, 0, 0, 0, 0]), 0, 0);
    assert!(!context(bad, 1, 2, 1000).check());
    let odd = [SEED, [[10, 0], [0, 0]], SEVEN];
    let mut ctx = context(seeded(), 0, 1, 1000);
    ctx.packs = &odd;
    assert!(ctx.check());
    ctx.max_turn = 2;
    assert!(!ctx.check());
}

#[test]
fn a_search_of_no_depth_returns_no_plan() {
    let ctx = context(seeded(), 1, 0, 1000);
    let mut rand = XorShiftL::new();
    let plans = calc_rensa_plan(&ctx, &mut rand, rensa_score);
    assert_eq!(plans.len(), 0);
}

#[test]
fn planning_and_replaying_fires_the_stacked_pairs() {
    // on an empty board the seeding piece is placed; the two pieces that follow can stack
    // 1, 3, 9 and then take the 3 out with a 7, which lets the 9 come down on the 1
    let mut live = Player::new(Board::new(), 0, 0);
    live.put(&PACKS[0], &Action::PutBlock { pos: 5, rot: 0 });
    let ctx = context(live, 1, 2, 15_000);
    let mut rand = XorShiftL::new();
    let mut plans = calc_rensa_plan(&ctx, &mut rand, rensa_score);
    assert_eq!(plans.len(), 2);
    let best = &mut plans[1];
    assert_eq!(best.len(), 2);
    assert!(best.get_chains() >= 2);
    assert_eq!(best.get_chains(), 2);
    // the damage of a cascade of two rounds: half of 1 + 1
    assert_eq!(best.get_obstacle(), 1);
    assert!(best.can_replay(&live, &[]));
    let recorded = best.get_results();
    let mut turn = 1;
    let mut last = ActionResult::new(0, 0, 0, 0);
    while let Some(a) = best.replay() {
        assert!(turn == 1 || best.is_empty());
        last = live.put(&PACKS[turn], &a);
        assert_eq!(last, recorded[turn - 1]);
        turn += 1;
    }
    assert_eq!(turn, 3);
    assert!(last.chains >= 2);
    assert_eq!(last.obstacle, 1);
    assert!(live.board.is_empty());
    assert_eq!(live.obstacle, -1);
}

#[test]
fn the_first_move_on_an_empty_board_goes_to_the_centre() {
    let ctx = context(Player::new(Board::new(), 0, 0), 0, 1, 15_000);
    let mut rand = XorShiftL::new();
    let plans = calc_rensa_plan(&ctx, &mut rand, rensa_score);
    assert_eq!(plans.len(), 1);
    let actions = plans[0].get_actions();
    assert_eq!(actions.len(), 1);
    match actions[0] {
        Action::PutBlock { pos, rot: _ } => assert_eq!(pos, 5),
        Action::UseSkill => panic!("the gauge is empty"),
    }
    let root = BeamState::new(ctx.player, 0, 0);
    for a in Action::all_actions().iter() {
        let child = do_action(&ctx, &root, 0, a);
        match a {
            Action::PutBlock { pos: 5, rot: _ } => assert!(child.is_some()),
            _ => assert!(child.is_none()),
        }
    }
}

#[test]
fn the_search_passes_over_moves_that_cannot_be_made() {
    // a gauge that is not full
    let ctx = context(seeded(), 1, 2, 1000);
    let root = BeamState::new(ctx.player, 0, 0);
    assert!(expand(&ctx, &root, 0, &Action::UseSkill, &rensa_score).is_none());
    assert!(expand(&ctx, &root, 0, &Action::PutBlock { pos: 0, rot: 0 }, &rensa_score).is_some());
    // a full gauge
    let mut charged = seeded();
    charged.skill_guage = 80;
    let ctx = context(charged, 1, 2, 1000);
    let root = BeamState::new(ctx.player, 0, 0);
    let child = expand(&ctx, &root, 0, &Action::UseSkill, &rensa_score).unwrap();
    assert_eq!(child.state.player.skill_guage, 0);
    assert_eq!(child.state.actions, 37);
    // a move that kills the board
    let full = Player::new(
        Board::from_columns([0x2121_2121_2121_2121, 0, 0, 0, 0, 0, 0, 0, 0, 0]),
        0,
        0,
    );
    let ctx = context(full, 0, 1, 1000);
    let root = BeamState::new(ctx.player, 0, 0);
    assert!(do_action(&ctx, &root, 0, &Action::PutBlock { pos: 0, rot: 0 }).is_none());
    assert!(do_action(&ctx, &root, 0, &Action::PutBlock { pos: 0, rot: 2 }).is_some());
}

#[test]
fn do_action_moves_and_then_takes_in_what_the_opponent_sends() {
    let sched = [4, 7];
    let ctx = PlanContext {
        plan_start_turn: 1,
        max_turn: 2,
        think_time_in_milli: 1000,
        player: seeded(),
        enemy_send_obstacles: &sched,
        packs: &PACKS,
    };
    let root = BeamState::new(ctx.player, 0, 0);
    let a = Action::PutBlock { pos: 5, rot: 0 };
    let (after_a, r1, s1) = do_action(&ctx, &root, 0, &a).unwrap();
    assert_eq!(r1, ActionResult::new(0, 0, 0, 0));
    assert_eq!(after_a.obstacle, 4);
    assert_eq!(after_a.board.columns()[5], 0x931);
    assert_eq!(s1, 21);
    let node = BeamState::new(after_a, 0, s1);
    let b = Action::PutBlock { pos: 6, rot: 0 };
    let (after_b, r2, s2) = do_action(&ctx, &node, 1, &b).unwrap();
    assert_eq!(r2, ActionResult::new(2, 1, 0, 1));
    assert_eq!(after_b.obstacle, 4 - 1 + 7);
    assert_eq!(s2, 21 | (25 << 8));
}

#[test]
fn expand_scores_the_move_and_ranks_the_position_by_its_best_probe() {
    let ctx = context(seeded(), 1, 2, 1000);
    let root = BeamState::new(ctx.player, 0, 0);
    let a = Action::PutBlock { pos: 5, rot: 0 };
    let child = expand(&ctx, &root, 0, &a, &rensa_score).unwrap();
    let feature = child.state.player.board.calc_feature();
    assert_eq!(
        child.score,
        rensa_score(&ActionResult::new(0, 0, 0, 0), &child.state.player, &feature)
    );
    // the best probe drops a 7 beside the 3 and sends one obstacle
    assert_eq!(
        child.state.score,
        rensa_score(&ActionResult::new(2, 1, 0, 1), &child.state.player, &feature)
    );
    assert_eq!(look_ahead(&child.state.player, &feature, &rensa_score), child.state.score);
    assert_eq!(look_ahead(&child.state.player, &feature, &flat), 1);
}

#[test]
fn a_new_search_holds_the_start_position() {
    let ctx = context(seeded(), 1, 2, 1000);
    let search = Search::new(&ctx);
    assert!(!search.is_done());
    assert_eq!(search.queue_len(&ctx, 0), 1);
    assert_eq!(search.queue_len(&ctx, 1), 0);
    assert_eq!(search.seen_len(&ctx), 0);
    assert_eq!(search.best_at(&ctx, 0).actions, 0);
    assert_eq!(search.best_at(&ctx, 1).actions, 0);
    // a dead board is no position to search from
    let mut dead = Board::from_columns([0x2121_2121_2121_2121, 0, 0, 0, 0, 0, 0, 0, 0, 0]);
    dead.fall(0, 1);
    let ctx = context(Player::new(dead, 0, 0), 0, 2, 1000);
    let search = Search::new(&ctx);
    assert!(search.is_done());
    let plans = search.finish(&ctx);
    assert_eq!(plans.len(), 2);
    assert!(plans[0].is_empty() && plans[1].is_empty());
}

#[test]
fn pop_takes_the_position_with_the_highest_score() {
    let ctx = context(seeded(), 1, 2, 1000);
    let mut search = Search::new(&ctx);
    let mut rand = XorShiftL::new();
    let root = search.pop(&ctx, 0).unwrap();
    assert!(search.pop(&ctx, 0).is_none());
    let mut scores = Vec::new();
    for a in Action::all_actions().iter() {
        if let Some(child) = expand(&ctx, &root, 0, a, &rensa_score) {
            if search.absorb(&ctx, 0, &child, &mut rand) {
                scores.push(child.state.score);
            }
        }
    }
    assert_eq!(search.queue_len(&ctx, 1), scores.len());
    assert_eq!(search.seen_len(&ctx), scores.len());
    scores.sort();
    while let Some(best) = scores.pop() {
        let node = search.pop(&ctx, 1).unwrap();
        assert_eq!(node.score, best);
    }
    assert!(search.pop(&ctx, 1).is_none());
    assert!(search.is_done());
}

#[test]
fn absorb_drops_a_position_that_was_met_before() {
    let ctx = context(seeded(), 1, 2, 1000);
    let mut search = Search::new(&ctx);
    let mut rand = XorShiftL::from_seed(1);
    let root = search.pop(&ctx, 0).unwrap();
    let a = Action::PutBlock { pos: 5, rot: 0 };
    // a single block in the left half of the piece: the turns 0 and 1 give the same board
    let b = Action::PutBlock { pos: 5, rot: 1 };
    let first = expand(&ctx, &root, 0, &a, &rensa_score).unwrap();
    let second = expand(&ctx, &root, 0, &b, &rensa_score).unwrap();
    assert_eq!(first.state.player.hash(), second.state.player.hash());
    assert!(search.absorb(&ctx, 0, &first, &mut rand));
    let recorded = search.best_at(&ctx, 0);
    assert_eq!(recorded.actions, 21);
    assert_eq!(recorded.score, first.score);
    assert_eq!(recorded.draw, 129);
    assert!(!search.absorb(&ctx, 0, &second, &mut rand));
    assert_eq!(search.queue_len(&ctx, 1), 1);
    assert_eq!(search.seen_len(&ctx), 1);
    assert_eq!(search.best_at(&ctx, 0).actions, 21);
    // the position that was dropped drew no number
    assert_eq!(rand.next(), 129 ^ (129 << 7));
}

#[test]
fn a_score_of_zero_is_recorded_only_with_a_draw() {
    fn nothing(_r: &ActionResult, _p: &Player, _f: &Feature) -> i64 {
        0
    }
    fn less(_r: &ActionResult, _p: &Player, _f: &Feature) -> i64 {
        -1
    }
    let ctx = context(seeded(), 1, 1, 1000);
    let a = Action::PutBlock { pos: 0, rot: 0 };
    let b = Action::PutBlock { pos: 1, rot: 0 };
    let mut search = Search::new(&ctx);
    let root = search.pop(&ctx, 0).unwrap();
    // the seed 0 draws nothing but zeros
    let mut zeros = XorShiftL::from_seed(0);
    let child = expand(&ctx, &root, 0, &a, &nothing).unwrap();
    assert!(search.absorb(&ctx, 0, &child, &mut zeros));
    assert_eq!(search.best_at(&ctx, 0).actions, 0);
    let mut rand = XorShiftL::from_seed(1);
    let child = expand(&ctx, &root, 0, &b, &nothing).unwrap();
    assert!(search.absorb(&ctx, 0, &child, &mut rand));
    assert_eq!(search.best_at(&ctx, 0).actions, 5);
    assert_eq!(search.best_at(&ctx, 0).draw, 129);
    // a score below zero never takes the place of no plan
    let mut search = Search::new(&ctx);
    let root = search.pop(&ctx, 0).unwrap();
    let child = expand(&ctx, &root, 0, &a, &less).unwrap();
    assert!(search.absorb(&ctx, 0, &child, &mut rand));
    assert_eq!(search.best_at(&ctx, 0).actions, 0);
}

#[test]
fn no_recorded_best_gets_worse_from_round_to_round() {
    let ctx = context(seeded(), 1, 2, 1000);
    let mut search = Search::new(&ctx);
    let mut rand = XorShiftL::new();
    let mut before = [(0i64, 0u8), (0i64, 0u8)];
    let mut seen = 0;
    let mut rounds = 0;
    while !search.is_done() {
        let open = search.queue_len(&ctx, 0) + search.queue_len(&ctx, 1);
        search.round(&ctx, &mut rand, &rensa_score);
        for d in 0..2 {
            let b = search.best_at(&ctx, d);
            assert!((b.score, b.draw) >= before[d]);
            before[d] = (b.score, b.draw);
        }
        // a round meets a new position or leaves fewer open ones
        let now = search.queue_len(&ctx, 0) + search.queue_len(&ctx, 1);
        assert!(search.seen_len(&ctx) > seen || now < open);
        assert!(search.seen_len(&ctx) >= seen);
        seen = search.seen_len(&ctx);
        rounds += 1;
        assert!(rounds < 10_000);
    }
    assert!(rounds > 1);
    assert!(before[0].0 > 0);
    assert!(before[1].0 >= 1_000_000);
}

#[test]
fn a_search_is_a_function_of_its_seed() {
    let ctx = context(seeded(), 1, 2, 1000);
    let a = run_to_the_end(&ctx, 42);
    let b = run_to_the_end(&ctx, 42);
    for d in 0..2 {
        let x = a.best_at(&ctx, d);
        let y = b.best_at(&ctx, d);
        assert_eq!((x.score, x.draw, x.actions), (y.score, y.draw, y.actions));
    }
    assert_eq!(a.seen_len(&ctx), b.seen_len(&ctx));
    let plans = a.finish(&ctx);
    let again = b.finish(&ctx);
    for d in 0..2 {
        assert_eq!(plans[d].get_actions(), again[d].get_actions());
        assert_eq!(plans[d].get_results(), again[d].get_results());
        assert_eq!(plans[d].len(), d + 1);
        assert!(plans[d].can_replay(&ctx.player, &[]));
    }
}

#[test]
fn what_a_plan_records_is_what_its_moves_give() {
    let sched = [10, 0];
    let ctx = PlanContext {
        plan_start_turn: 1,
        max_turn: 2,
        think_time_in_milli: 1000,
        player: seeded(),
        enemy_send_obstacles: &sched,
        packs: &PACKS,
    };
    let search = run_to_the_end(&ctx, 7);
    let plans = search.finish(&ctx);
    for d in 0..2 {
        let actions = plans[d].get_actions();
        let results = plans[d].get_results();
        assert_eq!(actions.len(), d + 1);
        let mut p = ctx.player;
        for i in 0..actions.len() {
            if let Action::UseSkill = actions[i] {
                assert!(p.can_use_skill());
            }
            let r = p.put(&PACKS[1 + i], &actions[i]);
            if i < sched.len() {
                p.add_obstacles(sched[i]);
            }
            assert_eq!(r, results[i]);
            assert!(!p.board.is_dead());
        }
        assert!(plans[d].can_replay(&ctx.player, &sched));
    }
}

#[test]
fn a_search_goes_on_while_time_and_positions_are_left() {
    let ctx = context(seeded(), 1, 2, 1000);
    assert!(goes_on(0, &ctx, false));
    assert!(goes_on(999, &ctx, false));
    assert!(!goes_on(1000, &ctx, false));
    assert!(!goes_on(u128::MAX, &ctx, false));
    assert!(!goes_on(0, &ctx, true));
    assert!(!goes_on(0, &context(seeded(), 1, 2, 0), false));
}

#[test]
fn a_step_runs_a_round_only_on_a_reading_below_the_budget() {
    let ctx = context(seeded(), 1, 2, 1000);
    let mut search = Search::new(&ctx);
    let mut rand = XorShiftL::from_seed(1);
    // the budget is spent: nothing is done and nothing is drawn
    assert!(!search.step(&ctx, &mut rand, &rensa_score, 1000));
    assert_eq!(search.queue_len(&ctx, 0), 1);
    assert_eq!(search.seen_len(&ctx), 0);
    assert_eq!(rand.next(), 129);
    // a reading below the budget: the round is the round
    let mut rand = XorShiftL::from_seed(1);
    let mut twin = Search::new(&ctx);
    let mut twin_rand = XorShiftL::from_seed(1);
    assert!(search.step(&ctx, &mut rand, &rensa_score, 999));
    twin.round(&ctx, &mut twin_rand, &rensa_score);
    for d in 0..2 {
        let x = search.best_at(&ctx, d);
        let y = twin.best_at(&ctx, d);
        assert_eq!((x.score, x.draw, x.actions), (y.score, y.draw, y.actions));
        assert_eq!(search.queue_len(&ctx, d), twin.queue_len(&ctx, d));
    }
    assert_eq!(search.seen_len(&ctx), twin.seen_len(&ctx));
    assert!(search.seen_len(&ctx) > 0);
    assert_eq!(rand.next(), twin_rand.next());
    // no open position: nothing is done
    let mut rounds = 0;
    while search.step(&ctx, &mut rand, &rensa_score, 0) {
        rounds += 1;
        assert!(rounds < 10_000);
    }
    assert!(search.is_done());
    let seen = search.seen_len(&ctx);
    assert!(!search.step(&ctx, &mut rand, &rensa_score, 0));
    assert_eq!(search.seen_len(&ctx), seen);
}

#[test]
fn a_round_takes_the_children_in_in_the_order_of_the_moves() {
    let ctx = context(seeded(), 1, 2, 1000);
    let mut search = Search::new(&ctx);
    let mut rand = XorShiftL::from_seed(9);
    search.round(&ctx, &mut rand, &rensa_score);
    // the same by hand: depth 0, then depth 1
    let mut hand = Search::new(&ctx);
    let mut hand_rand = XorShiftL::from_seed(9);
    for depth in 0..2 {
        if let Some(node) = hand.pop(&ctx, depth) {
            for a in Action::all_actions().iter() {
                if let Some(child) = expand(&ctx, &node, depth, a, &rensa_score) {
                    hand.absorb(&ctx, depth, &child, &mut hand_rand);
                }
            }
        }
    }
    for d in 0..2 {
        let x = search.best_at(&ctx, d);
        let y = hand.best_at(&ctx, d);
        assert_eq!((x.score, x.draw, x.actions), (y.score, y.draw, y.actions));
        assert_eq!(search.queue_len(&ctx, d), hand.queue_len(&ctx, d));
    }
    assert_eq!(search.seen_len(&ctx), hand.seen_len(&ctx));
    assert_eq!(rand.next(), hand_rand.next());
}

#[test]
fn with_a_constant_score_the_first_move_on_an_empty_board_is_the_centre_without_a_turn() {
    let ones = [[[1u8, 1], [1, 1]]];
    let ctx = PlanContext {
        plan_start_turn: 0,
        max_turn: 1,
        think_time_in_milli: 60_000,
        player: Player::new(Board::new(), 0, 0),
        enemy_send_obstacles: &[],
        packs: &ones,
    };
    let mut rand = XorShiftL::new();
    let plans = calc_rensa_plan(&ctx, &mut rand, flat);
    assert_eq!(plans.len(), 1);
    assert_eq!(plans[0].get_actions(), vec![Action::PutBlock { pos: 5, rot: 0 }]);
    assert_eq!(plans[0].get_chains(), 0);
}
