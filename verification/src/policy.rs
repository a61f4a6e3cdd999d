//! What a player of the game computes around a search: the score that ranks
//! positions for building cascades, the choice among the plans that a
//! search returns, the strongest single move, and the signs of an
//! opponent's counter-attack.
use vstd::prelude::*;
use crate::action::{action_of, Action, ActionResult};
use crate::board::{pack_of, Board, Feature};
use crate::grid::valid_pack;
use crate::player::{clamp, Player, PlayerState};
use crate::replay::{plan_ok, Replay, ReplayView};
use crate::score::clamp_i32;

verus! {

/// The strongest single move of a player: the move, what it gives, and the
/// obstacles that go on to the opponent once those that wait for the player
/// are paid off (a negative number while some are left waiting).
#[derive(Clone, Copy, Debug)]
pub struct Shot {
    pub action: Action,
    pub result: ActionResult,
    pub sent: i32,
}

/// The lesser of `a` and `b`.
pub open spec fn least(a: int, b: int) -> int {
    if a < b {
        a
    } else {
        b
    }
}

/// The score that ranks positions for building cascades: a million for each
/// obstacle that the move sends, up to 200 of them, and beside that a
/// thousand for each row of spread, two thousand for each row of height on
/// the board, fifty and forty for each pair that is two rows from adding up,
/// one for each pair that is three rows from it, less ten thousand for each
/// row by which the highest column exceeds fourteen.
pub open spec fn rensa_score_of(result: ActionResult, max_height: int, feature: Feature) -> int {
    let over = if max_height > 14 {
        max_height - 14
    } else {
        0
    };
    least(result.obstacle as int, 200) * 1000000 + result.fire_height * 1000 - over * 10000
        + feature.keima * 50 + feature.tate * 40 + feature.keima2 + feature.tate2
        + feature.num_block * 2000
}

/// The score that ranks positions for building cascades.
pub fn rensa_score(result: &ActionResult, player: &Player, feature: &Feature) -> (s: i64)
    ensures
        s == rensa_score_of(*result, player.board@.max_height(), *feature),
{
    let obstacle_score: i64 = if result.obstacle < 200 {
        result.obstacle as i64
    } else {
        200
    };
    let top = player.board.max_height() as i64;
    let over: i64 = if top > 14 {
        top - 14
    } else {
        0
    };
    let feature_score: i64 = (result.fire_height as i64) * 1000 - over * 10000 + (
    feature.keima as i64) * 50 + (feature.tate as i64) * 40 + feature.keima2 as i64
        + feature.tate2 as i64 + (feature.num_block as i64) * 2000;
    obstacle_score * 1000000 + feature_score
}

/// What a plan is worth when at most `limit` obstacles count: the
/// obstacles that its last move sends, up to the limit.
pub open spec fn worth(plan: ReplayView, limit: int) -> int {
    least(limit, plan.last_result().obstacle as int)
}

/// The plan to take among the first `n`: the first of those that are worth
/// most, provided that is not less than nothing; or -1.
pub open spec fn pick(plans: Seq<Replay>, limit: int, n: int) -> int
    decreases n,
{
    if n <= 0 {
        -1
    } else {
        let prev = pick(plans, limit, n - 1);
        let had = if prev < 0 {
            -1
        } else {
            worth(plans[prev]@, limit)
        };
        if had < worth(plans[n - 1]@, limit) {
            n - 1
        } else {
            prev
        }
    }
}

/// The index of the plan to take, or nothing where no plan is worth
/// anything.
pub fn choose_plan(states: &[Replay], limit_obstacle: i32) -> (r: Option<usize>)
    ensures
        r.is_none() <==> pick(states@, limit_obstacle as int, states@.len() as int) < 0,
        r matches Some(i) ==> i == pick(states@, limit_obstacle as int, states@.len() as int) && i
            < states@.len(),
{
    let mut max: i32 = -1;
    let mut chosen: Option<usize> = None;
    let mut i: usize = 0;
    while i < states.len()
        invariant
            i <= states@.len(),
            chosen.is_none() <==> pick(states@, limit_obstacle as int, i as int) < 0,
            chosen matches Some(c) ==> c == pick(states@, limit_obstacle as int, i as int) && c < i
                && max == worth(states@[c as int]@, limit_obstacle as int),
            chosen.is_none() ==> max == -1,
        decreases states@.len() - i,
    {
        let o = states[i].get_obstacle();
        let val = if limit_obstacle < o {
            limit_obstacle
        } else {
            o
        };
        if max < val {
            max = val;
            chosen = Some(i);
        }
        i = i + 1;
    }
    chosen
}

/// Takes the best of the plans that a search has returned and makes it
/// anew for `player`, with the pieces from turn `cur_turn` on. Nothing is
/// returned where no plan is worth anything or the best one has no move.
pub fn get_best(
    player: &Player,
    packs: &[[[u8; 2]; 2]],
    cur_turn: usize,
    limit_obstacle: i32,
    enemy_send_obstacles: &[i32],
    states: &[Replay],
) -> (r: Option<Replay>)
    requires
        player.wf(),
        forall|i: int| 0 <= i < states@.len() ==> (#[trigger] states@[i]).wf(),
        forall|i: int|
            0 <= i < states@.len() ==> cur_turn + (#[trigger] states@[i])@.actions.len()
                <= packs@.len(),
        forall|i: int| cur_turn <= i < packs@.len() ==> valid_pack(pack_of(#[trigger] packs@[i])),
    ensures
        ({
            let i = pick(states@, limit_obstacle as int, states@.len() as int);
            let none = i < 0 || states@[i]@.actions.len() == 0;
            &&& r.is_none() <==> none
            &&& r matches Some(plan) ==> plan.wf() && plan@ == ReplayView::made(
                player@,
                packs@.subrange(
                    cur_turn as int,
                    cur_turn + states@[i]@.actions.len(),
                ),
                enemy_send_obstacles@,
                states@[i]@.actions,
            )
        }),
{
    match choose_plan(states, limit_obstacle) {
        None => None,
        Some(i) => {
            let actions = states[i].get_actions();
            if actions.len() == 0 {
                None
            } else {
                let supply = packs.len();
                let last_turn = cur_turn + actions.len();
                let slice = &packs[cur_turn..last_turn];
                proof {
                    let v = states@[i as int]@;
                    assert(states@[i as int].wf());
                    assert forall|j: int| 0 <= j < actions@.len() implies valid_pack(
                        pack_of(#[trigger] slice@[j]),
                    ) by {
                        assert(slice@[j] == packs@[cur_turn + j]);
                    }
                    assert forall|j: int| 0 <= j < actions@.len() implies (
                    #[trigger] actions@[j]).legal() by {
                        assert(v.actions[j].legal());
                    }
                }
                let mut replay = Replay::new();
                replay.init(player, slice, enemy_send_obstacles, actions.as_slice());
                Some(replay)
            }
        },
    }
}

/// What the move `a` is to a player who looks for the strongest single
/// move: an ability use on a gauge that is not full counts as a move that
/// gives nothing.
pub open spec fn shot_of(player: PlayerState, pack: [[u8; 2]; 2], a: Action) -> Shot {
    if a == Action::UseSkill && !player.can_use_skill() {
        Shot { action: Action::UseSkill, result: ActionResult::zero(), sent: 0 }
    } else {
        let t = player.put(pack_of(pack), a);
        Shot { action: a, result: t.result, sent: clamp_i32(-t.state.obstacle) as i32 }
    }
}

/// The strongest among the first `n` moves, in the order of their codes:
/// the one that sends most, and of several such the last.
pub open spec fn best_shot(player: PlayerState, pack: [[u8; 2]; 2], n: int) -> Shot
    decreases n,
{
    if n <= 1 {
        shot_of(player, pack, action_of(1))
    } else {
        let prev = best_shot(player, pack, n - 1);
        let here = shot_of(player, pack, action_of(n));
        if here.result.obstacle >= prev.result.obstacle {
            here
        } else {
            prev
        }
    }
}

/// The strongest single move of `player` with the piece `pack`.
pub fn fire(player: &Player, pack: &[[u8; 2]; 2]) -> (r: Shot)
    requires
        player.wf(),
        valid_pack(pack_of(*pack)),
    ensures
        r == best_shot(player@, *pack, 37),
{
    let actions = Action::all_actions();
    let mut best = Shot {
        action: Action::UseSkill,
        result: ActionResult::new(0, 0, 0, 0),
        sent: 0,
    };
    let mut i: usize = 0;
    while i < actions.len()
        invariant
            i <= 37,
            actions@.len() == 37,
            forall|j: int| 0 <= j < 37 ==> #[trigger] actions@[j] == action_of(j + 1),
            forall|j: int| 0 <= j < 37 ==> (#[trigger] actions@[j]).legal(),
            player.wf(),
            valid_pack(pack_of(*pack)),
            i > 0 ==> best == best_shot(player@, *pack, i as int),
        decreases 37 - i,
    {
        let a = actions[i];
        let skip = match a {
            Action::UseSkill => !player.can_use_skill(),
            _ => false,
        };
        let shot = if skip {
            Shot { action: Action::UseSkill, result: ActionResult::new(0, 0, 0, 0), sent: 0 }
        } else {
            let mut p = *player;
            let result = p.put(pack, &a);
            Shot { action: a, result, sent: clamp(-(p.obstacle as i64)) }
        };
        if i == 0 || shot.result.obstacle >= best.result.obstacle {
            best = shot;
        }
        i = i + 1;
    }
    best
}

/// Whether a new row of obstacles has come to wait since the turn before:
/// ten or more are waiting, and their number of full rows is not what the
/// turn before left after its own row fell. The quotients are those of
/// division that rounds towards zero.
pub open spec fn new_obstacle_of(prev_stock: int, stock: int) -> bool {
    stock >= 10 && toward_zero(prev_stock - 10) != stock / 10
}

/// A tenth of `v`, rounded towards zero.
pub open spec fn toward_zero(v: int) -> int {
    if v >= 0 {
        v / 10
    } else {
        -((-v) / 10)
    }
}

/// Whether a new row of obstacles has come to wait since the turn before.
pub fn new_obstacle(prev_stock: i32, stock: i32) -> (r: bool)
    ensures
        r == new_obstacle_of(prev_stock as int, stock as int),
{
    if stock < 10 {
        return false;
    }
    let d: i64 = prev_stock as i64 - 10;
    let q: i64 = if d >= 0 {
        d / 10
    } else {
        -((-d) / 10)
    };
    q != (stock / 10) as i64
}

/// Whether the block whose removal would set off the opponent's longest
/// cascade lies five to eight rows above the lower of its neighbouring
/// columns: the mark of a cascade that is kept ready to answer an attack.
pub open spec fn counter_sign(row: int, neighbour_min: int) -> bool {
    5 <= row - neighbour_min <= 8
}

/// Looks at the opponent's board for a cascade that is kept ready: whether
/// there is the mark of one, and what the longest cascade would give that
/// the removal of one block sets off.
pub fn enemy_counter_result(enemy: &Board) -> (r: (bool, ActionResult))
    requires
        enemy.wf(),
    ensures
        r.0 == counter_sign(
            enemy@.best_probe(false, 160).y,
            enemy@.neighbour_min(enemy@.best_probe(false, 160).x),
        ),
        r.1 == crate::score::chain_result(enemy@.best_probe(false, 160).chains, 0),
{
    let probe = enemy.calc_max_rensa_by_erase_block();
    let x = (probe.2).0;
    let y = (probe.2).1;
    proof {
        crate::grid::lemma_best_probe(enemy@, false, 160);
    }
    let low = enemy.adjust_height_min(x);
    let dy: i64 = y as i64 - low as i64;
    (5 <= dy && dy <= 8, probe.1)
}

/// The score that ranks positions for saving up the ability: a hundred for
/// each point of the gauge, and a hundred thousand for a move that sends
/// forty obstacles or more.
pub fn skill_score(result: &ActionResult, player: &Player, feature: &Feature) -> (s: i64)
    ensures
        s == (if result.obstacle < 40 {
            player.skill_guage * 100
        } else {
            100000
        }),
{
    if result.obstacle < 40 {
        player.skill_guage as i64 * 100
    } else {
        100000
    }
}

/// The deepest of the plans that has a move: the greatest index of a plan
/// that is not empty, or nothing where every plan is empty.
pub fn deepest_plan(plans: &[Replay]) -> (r: Option<usize>)
    ensures
        r.is_none() <==> forall|j: int| 0 <= j < plans@.len() ==> (#[trigger] plans@[j])@.actions.len()
            == 0,
        r matches Some(i) ==> i < plans@.len() && plans@[i as int]@.actions.len() > 0 && forall|
            j: int,
        | i < j < plans@.len() ==> (#[trigger] plans@[j])@.actions.len() == 0,
{
    let mut i: usize = plans.len();
    while i > 0
        invariant
            i <= plans@.len(),
            forall|j: int| i <= j < plans@.len() ==> (#[trigger] plans@[j])@.actions.len() == 0,
        decreases i,
    {
        i = i - 1;
        if !plans[i].is_empty() {
            return Some(i);
        }
    }
    None
}

/// The depth and the time budget, in milliseconds, of a search for a
/// cascade at turn `cur_turn` with `rest_time_in_milli` left on the clock:
/// thirteen moves and eighteen seconds up to turn ten, ten moves and fifteen
/// seconds after it, and one second once less than thirty seconds are left.
pub fn search_budget(cur_turn: usize, rest_time_in_milli: usize) -> (r: (usize, u64))
    ensures
        r.0 == (if cur_turn <= 10 {
            13usize
        } else {
            10usize
        }),
        r.1 == (if rest_time_in_milli < 30000 {
            1000u64
        } else if cur_turn <= 10 {
            18000u64
        } else {
            15000u64
        }),
{
    let max_turn: usize = if cur_turn <= 10 {
        13
    } else {
        10
    };
    let think: u64 = if rest_time_in_milli < 30000 {
        1000
    } else if cur_turn <= 10 {
        18000
    } else {
        15000
    };
    (max_turn, think)
}

/// The depth and the time budget of a search against an opponent who saves
/// up the ability: eight moves up to turn ten and eleven after it, fifteen
/// seconds, and one second once less than thirty seconds are left.
pub fn bommer_budget(cur_turn: usize, rest_time_in_milli: usize) -> (r: (usize, u64))
    ensures
        r.0 == (if cur_turn <= 10 {
            8usize
        } else {
            11usize
        }),
        r.1 == (if rest_time_in_milli < 30000 {
            1000u64
        } else {
            15000u64
        }),
{
    let max_turn: usize = if cur_turn <= 10 {
        8
    } else {
        11
    };
    let think: u64 = if rest_time_in_milli < 30000 {
        1000
    } else {
        15000
    };
    (max_turn, think)
}

/// The greatest of the first `n` entries of `h`, for `n` of 1 or more.
pub open spec fn max_upto(h: Seq<i32>, n: int) -> int
    decreases n,
{
    if n <= 1 {
        h[0] as int
    } else {
        let rest = max_upto(h, n - 1);
        if h[n - 1] > rest {
            h[n - 1] as int
        } else {
            rest
        }
    }
}

/// The attack to answer, if there is one: with thirty seconds or more left,
/// the newest entry of the history of what the opponent could fire, provided
/// it reaches the threshold (40 before turn 15, 30 from then on) and is
/// greater than every earlier entry, and greater than 0 where it is the only
/// one.
pub open spec fn counter_wanted_of(cur_turn: int, rest: int, history: Seq<i32>) -> Option<i32> {
    let n = history.len() as int;
    if rest < 30000 || n == 0 {
        None
    } else {
        let attack = history[n - 1];
        let before: int = if n == 1 {
            0
        } else {
            max_upto(history, n - 1)
        };
        let threshold: int = if cur_turn < 15 {
            40
        } else {
            30
        };
        if attack < threshold || before >= attack {
            None
        } else {
            Some(attack)
        }
    }
}

/// The attack to answer, if there is one.
pub fn counter_wanted(cur_turn: usize, rest_time_in_milli: usize, history: &[i32]) -> (r: Option<
    i32,
>)
    ensures
        r == counter_wanted_of(cur_turn as int, rest_time_in_milli as int, history@),
{
    let n = history.len();
    if rest_time_in_milli < 30000 || n == 0 {
        return None;
    }
    let attack = history[n - 1];
    let mut before: i32 = 0;
    if n > 1 {
        before = history[0];
        let mut i: usize = 1;
        while i < n - 1
            invariant
                1 <= i <= n - 1,
                n == history@.len(),
                before == max_upto(history@, i as int),
            decreases n - 1 - i,
        {
            if history[i] > before {
                before = history[i];
            }
            i = i + 1;
        }
    }
    let threshold: i32 = if cur_turn < 15 {
        40
    } else {
        30
    };
    if attack < threshold || before >= attack {
        None
    } else {
        Some(attack)
    }
}

/// The most obstacles that count in the answer to an attack: one and a half
/// times the attack, rounded towards zero.
pub fn counter_limit(attack: i32) -> (r: i32)
    requires
        attack >= 0,
    ensures
        r == clamp_i32(attack * 3 / 2),
{
    clamp(attack as i64 * 3 / 2)
}

/// The depth and the time budget of a search by the player that only builds
/// cascades: thirteen moves and nineteen seconds at the first turn, ten
/// moves and fifteen seconds after it.
pub fn rensa_budget(cur_turn: usize) -> (r: (usize, u64))
    ensures
        r == (if cur_turn == 0 {
            (13usize, 19000u64)
        } else {
            (10usize, 15000u64)
        }),
{
    if cur_turn == 0 {
        (13, 19000)
    } else {
        (10, 15000)
    }
}

/// Whether the opponent is taken to save up the ability: at turn ten the
/// gauge stands at thirty or more.
pub fn bommer_suspected(cur_turn: usize, enemy_skill_guage: i32) -> (r: bool)
    ensures
        r == (cur_turn == 10 && enemy_skill_guage >= 30),
{
    cur_turn == 10 && enemy_skill_guage >= 30
}

/// Whether to look for the opponent's answer to the attack that is ready:
/// thirty seconds or more are left and the plan has come down to its last
/// move.
pub fn anti_counter_wanted(rest_time_in_milli: usize, plan_len: usize) -> (r: bool)
    ensures
        r == (rest_time_in_milli >= 30000 && plan_len == 1),
{
    rest_time_in_milli >= 30000 && plan_len == 1
}

/// Whether to build on instead of firing: the opponent's answer has more
/// rounds than the attack.
pub fn extend_wanted(enemy_chains: u8, my_chains: u8) -> (r: bool)
    ensures
        r == (enemy_chains > my_chains),
{
    enemy_chains > my_chains
}

/// Whether to plan anew against a cascade that the opponent keeps ready:
/// there is the mark of one, the plan does not beat it by two rounds, and
/// thirty seconds or more are left.
pub fn kera_wanted(is_counter: bool, my_chains: u8, enemy_chains: u8, rest_time_in_milli: usize) -> (r:
    bool)
    ensures
        r == (is_counter && my_chains < enemy_chains + 2 && rest_time_in_milli >= 30000),
{
    is_counter && (my_chains as u32) < enemy_chains as u32 + 2 && rest_time_in_milli >= 30000
}

} // verus!
