//! The planner: a beam search over sequences of moves, cut off by a time
//! budget. It keeps one queue of open positions per depth, expands the best
//! position of every queue in each round, never expands a position twice,
//! and records for every depth the best sequence it has met.
use vstd::prelude::*;
use rayon::iter::{IntoParallelRefIterator, ParallelIterator};
use std::collections::HashSet;
use std::time::{Duration, Instant};
use crate::action::{codes, get_actions, packed_ok, push_action, unpacked, Action, ActionResult};
use crate::board::{pack_is_valid, pack_of, Feature};
use crate::consts::MAX_DEPTH;
use crate::grid::valid_pack;
use crate::player::{Player, PlayerState};
use crate::rand::{next_state, XorShiftL};
use crate::replay::{lemma_sim_prefix, sim_affordable, sim_state, Replay, ReplayView};

verus! {

broadcast use vstd::std_specs::hash::group_hash_axioms;

/// The clock of the standard library. Verus sees nothing inside it.
#[verifier::external_type_specification]
#[verifier::external_body]
pub struct ExInstant(Instant);

/// `Instant::now` reads the clock: nothing is claimed of what it returns.
pub assume_specification[ Instant::now ]() -> (t: Instant)
;

/// `Instant::elapsed` gives the time since the instant was taken: nothing
/// is claimed of what it returns.
pub assume_specification[ Instant::elapsed ](t: &Instant) -> (d: Duration)
;

/// `Duration::as_millis` gives a span of time in whole milliseconds:
/// nothing is claimed of what it returns.
pub assume_specification[ Duration::as_millis ](d: &Duration) -> (ms: u128)
;

/// What a search is asked for.
pub struct PlanContext<'a> {
    /// The turn of the first move to plan: the index of its piece in `packs`.
    pub plan_start_turn: usize,
    /// The number of moves to look ahead, at most 16.
    pub max_turn: usize,
    /// The time budget in milliseconds.
    pub think_time_in_milli: u64,
    /// The player who is to move.
    pub player: Player,
    /// The obstacles that the opponent sends after each planned move.
    pub enemy_send_obstacles: &'a [i32],
    /// The pieces of all turns.
    pub packs: &'a [[[u8; 2]; 2]],
}

/// An open position of the search: the player after the moves `actions`,
/// and the score by which it is ranked in its queue.
#[derive(Clone, Copy, Debug)]
pub struct BeamState {
    pub player: Player,
    pub score: i64,
    pub actions: u128,
}

/// The best sequence of one depth: its score, the random draw that breaks
/// ties between equal scores, and the moves. No moves means that nothing is
/// recorded yet.
#[derive(Clone, Copy, Debug)]
pub struct SearchResult {
    pub score: i64,
    pub draw: u8,
    pub actions: u128,
}

/// What expanding a position by one move gives: the new position, ranked by
/// what it promises, and the score of the sequence that leads to it.
#[derive(Clone, Copy, Debug)]
pub struct Child {
    pub state: BeamState,
    pub score: i64,
}

/// The state of a search.
pub struct Search {
    heaps: Vec<Vec<BeamState>>,
    bests: Vec<SearchResult>,
    visited: HashSet<u64>,
}

/// The draw that a random word gives: its lowest byte.
pub open spec fn draw_of(word: u64) -> u8 {
    (word & 0xFF) as u8
}

/// The rank of a recorded sequence: its score first, its draw second.
pub open spec fn rank(score: int, draw: int) -> int {
    score * 256 + draw
}

/// Whether the score function may be called on every result, player and
/// feature.
pub open spec fn total<F: Fn(&ActionResult, &Player, &Feature) -> i64>(calc_score: &F) -> bool {
    forall|r: ActionResult, p: Player, f: Feature| #[trigger] calc_score.requires((&r, &p, &f))
}

impl<'a> PlanContext<'a> {
    /// At most 16 moves are planned, there is a valid piece for each of
    /// them, and the player is well-formed.
    pub open spec fn wf(&self) -> bool {
        &&& self.max_turn <= MAX_DEPTH
        &&& self.plan_start_turn + self.max_turn <= self.packs@.len()
        &&& self.player.wf()
        &&& forall|i: int|
            self.plan_start_turn <= i < self.plan_start_turn + self.max_turn ==> valid_pack(
                pack_of(#[trigger] self.packs@[i]),
            )
    }

    /// Whether a search can be made for the context.
    pub fn check(&self) -> (r: bool)
        ensures
            r == self.wf(),
    {
        let supply = self.packs.len();
        if self.max_turn > MAX_DEPTH || self.plan_start_turn > supply || self.max_turn > supply
            - self.plan_start_turn || !self.player.board.is_valid() {
            return false;
        }
        let mut i: usize = self.plan_start_turn;
        while i < self.plan_start_turn + self.max_turn
            invariant
                self.plan_start_turn <= i <= self.plan_start_turn + self.max_turn,
                self.plan_start_turn + self.max_turn <= self.packs@.len(),
                forall|j: int|
                    self.plan_start_turn <= j < i ==> valid_pack(pack_of(#[trigger] self.packs@[j])),
            decreases self.plan_start_turn + self.max_turn - i,
        {
            if !pack_is_valid(&self.packs[i]) {
                return false;
            }
            i = i + 1;
        }
        true
    }

    /// The pieces of the planned moves.
    pub open spec fn plan_packs(&self) -> Seq<[[u8; 2]; 2]> {
        self.packs@.subrange(
            self.plan_start_turn as int,
            self.plan_start_turn as int + self.max_turn as int,
        )
    }

    /// The player after the moves `actions`.
    pub open spec fn after(&self, actions: Seq<Action>) -> PlayerState {
        sim_state(
            self.player@,
            actions,
            self.plan_packs(),
            self.enemy_send_obstacles@,
            actions.len() as int,
        )
    }

    /// Whether the moves `actions` can be played from the start of the plan:
    /// every move is a move of the game, no ability use finds the gauge
    /// short, and the board is alive at the end (and so throughout).
    pub open spec fn playable(&self, actions: Seq<Action>) -> bool {
        &&& actions.len() <= self.max_turn
        &&& forall|i: int| 0 <= i < actions.len() ==> (#[trigger] actions[i]).legal()
        &&& sim_affordable(
            self.player@,
            actions,
            self.plan_packs(),
            self.enemy_send_obstacles@,
            actions.len() as int,
        )
        &&& !self.after(actions).grid.dead
    }

    /// The player after `player` has made the move of depth `depth` and the
    /// opponent has sent the obstacles of that depth.
    pub open spec fn stepped(&self, player: PlayerState, depth: int, action: Action) -> PlayerState {
        let t = player.put(pack_of(self.plan_packs()[depth]), action).state;
        if depth < self.enemy_send_obstacles@.len() {
            t.add_obstacles(self.enemy_send_obstacles@[depth] as int)
        } else {
            t
        }
    }

    /// Whether the search passes over the move `action` from the position
    /// `node` of depth `depth`: an ability use on a gauge that is not full, a
    /// first placement on an empty board anywhere but on the centre column,
    /// or a move that kills the board.
    pub open spec fn skipped(&self, node: BeamState, depth: int, action: Action) -> bool {
        ||| action == Action::UseSkill && !node.player@.can_use_skill()
        ||| depth == 0 && self.player.board@.is_empty() && (action matches Action::PutBlock {
            pos,
            rot,
        } && pos != 5)
        ||| self.stepped(node.player@, depth, action).grid.dead
    }

    /// What holds of an open position of depth `depth`: it is the player
    /// after its moves, which can be played.
    pub open spec fn node_ok(&self, node: BeamState, depth: int) -> bool {
        &&& packed_ok(node.actions)
        &&& codes(node.actions).len() == depth
        &&& self.playable(unpacked(node.actions))
        &&& node.player.wf()
        &&& node.player@ == self.after(unpacked(node.actions))
    }

    /// What holds of the recorded best of depth `depth`: nothing is
    /// recorded, or a sequence of `depth + 1` moves that can be played.
    pub open spec fn best_ok(&self, best: SearchResult, depth: int) -> bool {
        &&& packed_ok(best.actions)
        &&& best.actions != 0 ==> codes(best.actions).len() == depth + 1 && self.playable(
            unpacked(best.actions),
        )
    }
}

impl BeamState {
    pub fn new(player: Player, score: i64, actions: u128) -> (r: Self)
        ensures
            r == (BeamState { player, score, actions }),
    {
        Self { player, score, actions }
    }
}

impl SearchResult {
    /// The moves of the sequence.
    pub fn get_actions(&self) -> (v: Vec<Action>)
        requires
            packed_ok(self.actions),
        ensures
            v@ == unpacked(self.actions),
            forall|i: int| 0 <= i < v@.len() ==> (#[trigger] v@[i]).legal(),
    {
        get_actions(self.actions)
    }
}

/// The moves of a plan up to a depth do not depend on what follows: the
/// player after `actions` and then `a` is the player after `actions`, moved
/// once more.
pub proof fn lemma_after_push(context: &PlanContext, actions: Seq<Action>, a: Action)
    requires
        context.wf(),
        actions.len() < context.max_turn,
    ensures
        context.after(actions.push(a)) == context.stepped(
            context.after(actions),
            actions.len() as int,
            a,
        ),
        forall|i: int|
            0 <= i <= actions.len() ==> sim_state(
                context.player@,
                actions.push(a),
                context.plan_packs(),
                context.enemy_send_obstacles@,
                i,
            ) == sim_state(
                context.player@,
                actions,
                context.plan_packs(),
                context.enemy_send_obstacles@,
                i,
            ),
{
    let p = context.plan_packs();
    let s = context.enemy_send_obstacles@;
    assert forall|i: int| 0 <= i <= actions.len() implies sim_state(
        context.player@,
        actions.push(a),
        p,
        s,
        i,
    ) == sim_state(context.player@, actions, p, s, i) by {
        lemma_sim_prefix(context.player@, actions.push(a), actions, p, p, s, i);
    }
}

/// Makes one move from an open position: the position that follows, or
/// nothing where the search passes over the move.
pub fn do_action(context: &PlanContext, node: &BeamState, depth: usize, action: &Action) -> (r:
    Option<(Player, ActionResult, u128)>)
    requires
        context.wf(),
        depth < context.max_turn,
        context.node_ok(*node, depth as int),
        action.legal(),
    ensures
        r.is_none() <==> context.skipped(*node, depth as int, *action),
        r matches Some(c) ==> {
            &&& c.0@ == context.stepped(node.player@, depth as int, *action)
            &&& c.1 == node.player@.put(
                pack_of(context.plan_packs()[depth as int]),
                *action,
            ).result
            &&& context.node_ok(BeamState { player: c.0, score: 0, actions: c.2 }, depth + 1)
            &&& unpacked(c.2) == unpacked(node.actions).push(*action)
        },
{
    match action {
        Action::UseSkill => {
            if !node.player.can_use_skill() {
                return None;
            }
        },
        Action::PutBlock { pos, rot } => {
            if depth == 0 && *pos != 5 && context.player.board.is_empty() {
                return None;
            }
        },
    }
    let supply = context.packs.len();
    let turn = context.plan_start_turn + depth;
    let pack = context.packs[turn];
    let mut player = node.player;
    proof {
        assert(context.plan_packs()[depth as int] == context.packs@[turn as int]);
        assert(valid_pack(pack_of(context.packs@[turn as int])));
    }
    let result = player.put(&pack, action);
    if depth < context.enemy_send_obstacles.len() {
        player.add_obstacles(context.enemy_send_obstacles[depth]);
    }
    if player.board.is_dead() {
        return None;
    }
    let actions = push_action(node.actions, depth, action);
    proof {
        let old_moves = unpacked(node.actions);
        let moves = unpacked(actions);
        let p = context.plan_packs();
        let s = context.enemy_send_obstacles@;
        lemma_after_push(context, old_moves, *action);
        assert forall|i: int| 0 <= i < moves.len() implies (#[trigger] moves[i]).legal() by {
            if i < old_moves.len() {
                assert(old_moves[i].legal());
            }
        }
        assert forall|i: int| 0 <= i < moves.len() && #[trigger] moves[i]
            == Action::UseSkill implies sim_state(context.player@, moves, p, s, i).can_use_skill() by {
            if i < old_moves.len() {
                assert(old_moves[i] == Action::UseSkill);
            }
        }
    }
    Some((player, result, actions))
}

/// Whether `s` is a score that the score function gives for the probe that
/// drops the value `v` onto column `x` of the player's board.
pub open spec fn probe_scored<F: Fn(&ActionResult, &Player, &Feature) -> i64>(
    calc_score: &F,
    player: &Player,
    feature: &Feature,
    x: int,
    v: int,
    s: i64,
) -> bool {
    call_ensures(*calc_score, (&player@.put_one(v, x).result, player, feature), s)
}

/// Whether the probe that drops the value `v` onto column `x` was given a
/// score of at most `bound`.
pub open spec fn probe_below<F: Fn(&ActionResult, &Player, &Feature) -> i64>(
    calc_score: &F,
    player: &Player,
    feature: &Feature,
    x: int,
    v: int,
    bound: i64,
) -> bool {
    exists|s: i64| s <= bound && #[trigger] probe_scored(calc_score, player, feature, x, v, s)
}

/// Whether `best` is the best of the scores that the score function gave
/// for the ninety probes of a position: the score of one of them, and no
/// less than a score of each.
pub open spec fn looked_ahead<F: Fn(&ActionResult, &Player, &Feature) -> i64>(
    calc_score: &F,
    player: &Player,
    feature: &Feature,
    best: i64,
) -> bool {
    &&& exists|x: int, v: int|
        0 <= x < 10 && 1 <= v <= 9 && #[trigger] probe_scored(
            calc_score,
            player,
            feature,
            x,
            v,
            best,
        )
    &&& forall|x: int, v: int|
        0 <= x < 10 && 1 <= v <= 9 ==> #[trigger] probe_below(
            calc_score,
            player,
            feature,
            x,
            v,
            best,
        )
}

/// Looks one step ahead from a position: the best score among the probes
/// that drop one block, of each value from 1 to 9, onto each column.
pub fn look_ahead<F>(player: &Player, feature: &Feature, calc_score: &F) -> (best: i64) where
    F: Fn(&ActionResult, &Player, &Feature) -> i64,

    requires
        player.wf(),
        total(calc_score),
    ensures
        looked_ahead(calc_score, player, feature, best),
{
    let mut best: i64 = 0;
    let mut first = true;
    let ghost mut bx: int = 0;
    let ghost mut bv: int = 1;
    let mut x: usize = 0;
    while x < 10
        invariant
            x <= 10,
            player.wf(),
            total(calc_score),
            first ==> x == 0,
            !first ==> 0 <= bx < 10 && 1 <= bv <= 9 && probe_scored(
                calc_score,
                player,
                feature,
                bx,
                bv,
                best,
            ),
            forall|i: int, w: int|
                0 <= i < x && 1 <= w <= 9 ==> #[trigger] probe_below(
                    calc_score,
                    player,
                    feature,
                    i,
                    w,
                    best,
                ),
        decreases 10 - x,
    {
        let mut v: u8 = 1;
        while v <= 9
            invariant
                x < 10,
                1 <= v <= 10,
                player.wf(),
                total(calc_score),
                first ==> x == 0 && v == 1,
                !first ==> 0 <= bx < 10 && 1 <= bv <= 9 && probe_scored(
                    calc_score,
                    player,
                    feature,
                    bx,
                    bv,
                    best,
                ),
                forall|i: int, w: int|
                    (0 <= i < x && 1 <= w <= 9) || (i == x && 1 <= w < v) ==> #[trigger] probe_below(
                        calc_score,
                        player,
                        feature,
                        i,
                        w,
                        best,
                    ),
            decreases 10 - v,
        {
            let mut probe = *player;
            let result = probe.put_one(v, x);
            let s = calc_score(&result, player, feature);
            let ghost old_best = best;
            let ghost was_first = first;
            if first || s > best {
                best = s;
                first = false;
                proof {
                    bx = x as int;
                    bv = v as int;
                }
            }
            proof {
                assert(probe_scored(calc_score, player, feature, x as int, v as int, s));
                assert(probe_below(calc_score, player, feature, x as int, v as int, best));
                assert forall|i: int, w: int|
                    (0 <= i < x && 1 <= w <= 9) || (i == x && 1 <= w < v + 1) implies #[trigger] probe_below(
                    calc_score,
                    player,
                    feature,
                    i,
                    w,
                    best,
                ) by {
                    if !(i == x && w == v) {
                        assert(probe_below(calc_score, player, feature, i, w, old_best));
                        let t = choose|t: i64|
                            t <= old_best && #[trigger] probe_scored(
                                calc_score,
                                player,
                                feature,
                                i,
                                w,
                                t,
                            );
                        assert(t <= best && probe_scored(calc_score, player, feature, i, w, t));
                    }
                }
            }
            v = v + 1;
        }
        x = x + 1;
    }
    best
}

/// What expanding the position `node` of depth `depth` by the move `action`
/// gives: nothing exactly where the search passes over the move, and else the
/// position that follows, with a score that the score function gives for
/// the result of the move, the player after it and the features of its board.
pub open spec fn expanded<F: Fn(&ActionResult, &Player, &Feature) -> i64>(
    context: &PlanContext,
    node: BeamState,
    depth: int,
    action: Action,
    calc_score: &F,
    r: Option<Child>,
) -> bool {
    &&& r.is_none() <==> context.skipped(node, depth, action)
    &&& r matches Some(c) ==> {
        &&& context.node_ok(c.state, depth + 1)
        &&& c.state.player@ == context.stepped(node.player@, depth, action)
        &&& unpacked(c.state.actions) == unpacked(node.actions).push(action)
        &&& exists|f: Feature|
            f@ == c.state.player.board@.shape() && call_ensures(
                *calc_score,
                (
                    &node.player@.put(pack_of(context.plan_packs()[depth]), action).result,
                    &c.state.player,
                    &#[trigger] f,
                ),
                c.score,
            ) && looked_ahead(calc_score, &c.state.player, &f, c.state.score)
    }
}

/// Expands an open position by one move: the position that follows with
/// the score of the sequence and, as its rank, what one more block may
/// bring; or nothing where the search passes over the move.
pub fn expand<F>(
    context: &PlanContext,
    node: &BeamState,
    depth: usize,
    action: &Action,
    calc_score: &F,
) -> (r: Option<Child>) where F: Fn(&ActionResult, &Player, &Feature) -> i64
    requires
        context.wf(),
        depth < context.max_turn,
        context.node_ok(*node, depth as int),
        action.legal(),
        total(calc_score),
    ensures
        expanded(context, *node, depth as int, *action, calc_score, r),
{
    match do_action(context, node, depth, action) {
        None => None,
        Some(step) => {
            let player = step.0;
            let feature = player.board.calc_feature();
            let score = calc_score(&step.1, &player, &feature);
            let eval_score = look_ahead(&player, &feature, calc_score);
            let child = Child { state: BeamState::new(player, eval_score, step.2), score };
            proof {
                assert(context.node_ok(child.state, depth + 1));
                assert(feature@ == child.state.player.board@.shape() && call_ensures(
                    *calc_score,
                    (
                        &node.player@.put(
                            pack_of(context.plan_packs()[depth as int]),
                            *action,
                        ).result,
                        &child.state.player,
                        &feature,
                    ),
                    child.score,
                ) && looked_ahead(calc_score, &child.state.player, &feature, child.state.score));
            }
            Some(child)
        },
    }
}

/// Expands an open position by every move of `actions`, on the threads of
/// `rayon`'s pool. This is `par_iter().map(..).collect()` of `rayon`: it is
/// taken on trust that `map` applies the function to each item and that
/// `collect` puts the results into the vector in the order of the items, so
/// that entry `i` is what `expand` returns for move `i`.
#[verifier::external_body]
fn expand_all<F>(
    context: &PlanContext,
    node: &BeamState,
    depth: usize,
    actions: &Vec<Action>,
    calc_score: &F,
) -> (r: Vec<Option<Child>>) where F: Fn(&ActionResult, &Player, &Feature) -> i64 + Sync + Send
    requires
        context.wf(),
        depth < context.max_turn,
        context.node_ok(*node, depth as int),
        forall|i: int| 0 <= i < actions@.len() ==> (#[trigger] actions@[i]).legal(),
        total(calc_score),
    ensures
        r@.len() == actions@.len(),
        forall|i: int|
            0 <= i < r@.len() ==> expanded(
                context,
                *node,
                depth as int,
                actions@[i],
                calc_score,
                #[trigger] r@[i],
            ),
{
    actions.par_iter().map(|a| expand(context, node, depth, a, calc_score)).collect()
}

/// The index of the position that is taken out of a queue of `n` positions:
/// the first of those with the highest score.
pub open spec fn first_best(q: Seq<BeamState>, n: int) -> int
    decreases n,
{
    if n <= 1 {
        0
    } else {
        let b = first_best(q, n - 1);
        if q[n - 1].score > q[b].score {
            n - 1
        } else {
            b
        }
    }
}

/// The model of a search: the open positions of each depth in the order in
/// which its queue holds them, the recorded best of each depth, and the
/// hashes of the positions that were met.
pub struct SearchModel {
    pub queues: Seq<Seq<BeamState>>,
    pub bests: Seq<SearchResult>,
    pub seen: Set<u64>,
}

/// A search and the state of the random stream that goes with it.
pub struct SearchPoint {
    pub search: SearchModel,
    pub word: u64,
}

impl SearchModel {
    /// The search that has met nothing yet: the player of `context` is the
    /// one open position, unless the board is dead already.
    pub open spec fn start(context: &PlanContext) -> SearchModel {
        SearchModel {
            queues: Seq::new(
                context.max_turn as nat,
                |d: int|
                    if d == 0 && !context.player.board@.dead {
                        seq![BeamState { player: context.player, score: 0, actions: 0 }]
                    } else {
                        Seq::<BeamState>::empty()
                    },
            ),
            bests: Seq::new(
                context.max_turn as nat,
                |d: int| SearchResult { score: 0, draw: 0, actions: 0 },
            ),
            seen: Set::<u64>::empty(),
        }
    }

    /// Whether no open position is left.
    pub open spec fn done(self) -> bool {
        forall|d: int| 0 <= d < self.queues.len() ==> (#[trigger] self.queues[d]).len() == 0
    }

    /// The position that is taken out of the queue of depth `depth`: the
    /// first of those with the highest score.
    pub open spec fn front(self, depth: int) -> BeamState {
        let q = self.queues[depth];
        q[first_best(q, q.len() as int)]
    }

    /// The search after the front position of depth `depth` has been taken
    /// out: the last position of the queue takes its place. An empty queue
    /// stays as it is.
    pub open spec fn popped(self, depth: int) -> SearchModel {
        let q = self.queues[depth];
        if q.len() == 0 {
            self
        } else {
            SearchModel {
                queues: self.queues.update(
                    depth,
                    q.update(first_best(q, q.len() as int), q.last()).drop_last(),
                ),
                ..self
            }
        }
    }
}

impl SearchPoint {
    /// The search after it has taken in the position `child`, which
    /// expanding a position of depth `depth` has given. A position whose hash
    /// was met before changes nothing. Otherwise a number is drawn, the hash
    /// is kept, the sequence takes the place of the recorded best of the
    /// depth if its rank is higher, and the position is queued unless it has
    /// the last depth.
    pub open spec fn absorbed(self, depth: int, child: Child) -> SearchPoint {
        let h = child.state.player@.hash();
        let m = self.search;
        if m.seen.contains(h) {
            self
        } else {
            let word = next_state(self.word);
            let old = m.bests[depth];
            SearchPoint {
                search: SearchModel {
                    queues: if depth + 1 < m.queues.len() {
                        m.queues.update(depth + 1, m.queues[depth + 1].push(child.state))
                    } else {
                        m.queues
                    },
                    bests: if rank(child.score as int, draw_of(word) as int) > rank(
                        old.score as int,
                        old.draw as int,
                    ) {
                        m.bests.update(
                            depth,
                            SearchResult {
                                score: child.score,
                                draw: draw_of(word),
                                actions: child.state.actions,
                            },
                        )
                    } else {
                        m.bests
                    },
                    seen: m.seen.insert(h),
                },
                word,
            }
        }
    }

    /// The search after it has taken in the first `n` of `children`, in
    /// their order; a move that was passed over has no child.
    pub open spec fn absorbed_all(self, depth: int, children: Seq<Option<Child>>, n: int) -> SearchPoint
        decreases n,
    {
        if n <= 0 {
            self
        } else {
            let prev = self.absorbed_all(depth, children, n - 1);
            match children[n - 1] {
                Some(c) => prev.absorbed(depth, c),
                None => prev,
            }
        }
    }
}

/// Whether `children` is what expanding `node` by each of the 37 moves, in
/// the order of their codes, gives.
pub open spec fn children_of<F: Fn(&ActionResult, &Player, &Feature) -> i64>(
    context: &PlanContext,
    calc_score: &F,
    node: BeamState,
    depth: int,
    children: Seq<Option<Child>>,
) -> bool {
    &&& children.len() == 37
    &&& forall|i: int|
        0 <= i < 37 ==> expanded(
            context,
            node,
            depth,
            crate::action::action_of(i + 1),
            calc_score,
            #[trigger] children[i],
        )
}

/// Whether a round takes the search from `a` to `b` at depth `depth`: an
/// empty queue changes nothing; otherwise its front position is taken out
/// and expanded by every move, and the children are taken in in the order of
/// the moves.
pub open spec fn depth_done<F: Fn(&ActionResult, &Player, &Feature) -> i64>(
    context: &PlanContext,
    calc_score: &F,
    depth: int,
    a: SearchPoint,
    b: SearchPoint,
) -> bool {
    if a.search.queues[depth].len() == 0 {
        b == a
    } else {
        exists|children: Seq<Option<Child>>| #[trigger]
            children_of(context, calc_score, a.search.front(depth), depth, children) && b == (
            SearchPoint { search: a.search.popped(depth), word: a.word }).absorbed_all(
                depth,
                children,
                37,
            )
    }
}

/// A point that a search passes through (this names the point in the
/// definitions below and is true of every point).
pub open spec fn passes(p: SearchPoint) -> bool {
    true
}

/// Whether the first `depth` depths of one round, in ascending order, take
/// the search from `a` to `b`.
pub open spec fn round_done<F: Fn(&ActionResult, &Player, &Feature) -> i64>(
    context: &PlanContext,
    calc_score: &F,
    a: SearchPoint,
    b: SearchPoint,
    depth: int,
) -> bool
    decreases depth,
{
    if depth <= 0 {
        b == a
    } else {
        exists|mid: SearchPoint| #[trigger]
            passes(mid) && round_done(context, calc_score, a, mid, depth - 1) && depth_done(
                context,
                calc_score,
                depth - 1,
                mid,
                b,
            )
    }
}

/// Whether a search goes on after a reading of the clock: less than the
/// budget is spent and an open position is left.
pub open spec fn goes_on_after(spent_ms: u128, context: &PlanContext, done: bool) -> bool {
    spent_ms < context.think_time_in_milli as u128 && !done
}

/// Whether the rounds that the clock readings `readings` allowed, one full
/// round after each, take the search from `a` to `b`: every reading found
/// less than the budget spent and an open position left.
pub open spec fn ran<F: Fn(&ActionResult, &Player, &Feature) -> i64>(
    context: &PlanContext,
    calc_score: &F,
    a: SearchPoint,
    b: SearchPoint,
    readings: Seq<u128>,
) -> bool
    decreases readings.len(),
{
    if readings.len() == 0 {
        b == a
    } else {
        exists|mid: SearchPoint| #[trigger]
            passes(mid) && ran(context, calc_score, a, mid, readings.drop_last()) && goes_on_after(
                readings.last(),
                context,
                mid.search.done(),
            ) && round_done(context, calc_score, mid, b, context.max_turn as int)
    }
}

/// Whether a search from `a` stopped at `b`: `readings` allowed one round
/// each, and the reading `last` allowed no more.
pub open spec fn stopped<F: Fn(&ActionResult, &Player, &Feature) -> i64>(
    context: &PlanContext,
    calc_score: &F,
    a: SearchPoint,
    b: SearchPoint,
    readings: Seq<u128>,
    last: u128,
) -> bool {
    ran(context, calc_score, a, b, readings) && !goes_on_after(last, context, b.search.done())
}

/// Whether `plans` are the plans of the recorded bests of a search: one for
/// each depth, made for the player of `context` from the recorded moves.
pub open spec fn planned(context: &PlanContext, search: SearchModel, plans: Seq<Replay>) -> bool {
    &&& plans.len() == context.max_turn
    &&& forall|d: int|
        0 <= d < context.max_turn ==> (#[trigger] plans[d]).wf() && plans[d]@ == ReplayView::made(
            context.player@,
            context.plan_packs(),
            context.enemy_send_obstacles@,
            unpacked(search.bests[d].actions),
        )
}

/// Whether a search goes on after a reading of the clock.
pub fn goes_on(spent_ms: u128, context: &PlanContext, done: bool) -> (r: bool)
    ensures
        r == (spent_ms < context.think_time_in_milli as u128 && !done),
        r == goes_on_after(spent_ms, context, done),
{
    spent_ms < context.think_time_in_milli as u128 && !done
}

/// With no budget no round is run: the search stops where it started.
pub proof fn lemma_no_budget<F: Fn(&ActionResult, &Player, &Feature) -> i64>(
    context: &PlanContext,
    calc_score: &F,
    a: SearchPoint,
    b: SearchPoint,
    readings: Seq<u128>,
)
    requires
        context.think_time_in_milli == 0,
        ran(context, calc_score, a, b, readings),
    ensures
        readings.len() == 0,
        b == a,
{
}

/// The number of positions in the first `n` queues.
pub open spec fn sum_lens(heaps: Seq<Vec<BeamState>>, n: int) -> int
    decreases n,
{
    if n <= 0 {
        0
    } else {
        sum_lens(heaps, n - 1) + heaps[n - 1]@.len()
    }
}

/// Changing one queue changes the number of positions by as much.
proof fn lemma_sum_lens_change(a: Seq<Vec<BeamState>>, b: Seq<Vec<BeamState>>, d: int, n: int)
    requires
        a.len() == b.len(),
        0 <= d < a.len(),
        0 <= n <= a.len(),
        forall|i: int| 0 <= i < a.len() && i != d ==> (#[trigger] a[i])@.len() == b[i]@.len(),
    ensures
        sum_lens(b, n) - sum_lens(a, n) == (if d < n {
            b[d]@.len() - a[d]@.len()
        } else {
            0
        }),
    decreases n,
{
    if n > 0 {
        lemma_sum_lens_change(a, b, d, n - 1);
    }
}

/// There is no position exactly when every queue is empty.
proof fn lemma_sum_lens_zero(a: Seq<Vec<BeamState>>, n: int)
    requires
        0 <= n <= a.len(),
    ensures
        sum_lens(a, n) >= 0,
        sum_lens(a, n) == 0 <==> forall|i: int| 0 <= i < n ==> (#[trigger] a[i])@.len() == 0,
    decreases n,
{
    if n > 0 {
        lemma_sum_lens_zero(a, n - 1);
    }
}

impl View for Search {
    type V = SearchModel;

    closed spec fn view(&self) -> SearchModel {
        SearchModel {
            queues: Seq::new(self.heaps@.len(), |d: int| self.heaps@[d]@),
            bests: self.bests@,
            seen: self.visited@,
        }
    }
}

impl Search {
    /// The number of depths of the search.
    pub closed spec fn depths(&self) -> int {
        self.heaps@.len() as int
    }

    /// The open positions of depth `d`.
    pub closed spec fn queue(&self, d: int) -> Seq<BeamState> {
        self.heaps@[d]@
    }

    /// The recorded best of depth `d`.
    pub closed spec fn best(&self, d: int) -> SearchResult {
        self.bests@[d]
    }

    /// The hashes of the positions that the search has met.
    pub closed spec fn seen(&self) -> Set<u64> {
        self.visited@
    }

    /// The number of open positions.
    pub closed spec fn pending(&self) -> int {
        sum_lens(self.heaps@, self.heaps@.len() as int)
    }

    /// What holds of a search for `context` at all times: one queue and one
    /// recorded best for each depth, every open position the player after
    /// its moves, and every recorded sequence one that can be played.
    pub closed spec fn ok(&self, context: &PlanContext) -> bool {
        &&& self.heaps@.len() == context.max_turn
        &&& self.bests@.len() == context.max_turn
        &&& self.visited@.finite()
        &&& self.visited@.len() <= usize::MAX
        &&& forall|d: int, i: int|
            0 <= d < self.heaps@.len() && 0 <= i < self.heaps@[d]@.len() ==> context.node_ok(
                #[trigger] self.heaps@[d]@[i],
                d,
            )
        &&& forall|d: int|
            0 <= d < self.bests@.len() ==> context.best_ok(#[trigger] self.bests@[d], d)
    }

    /// What `ok` says to the outside.
    pub proof fn lemma_ok(&self, context: &PlanContext)
        requires
            self.ok(context),
        ensures
            self.depths() == context.max_turn,
            self.seen().finite(),
            self.seen().len() <= usize::MAX,
            self.pending() >= 0,
            forall|d: int, i: int|
                0 <= d < self.depths() && 0 <= i < self.queue(d).len() ==> context.node_ok(
                    #[trigger] self.queue(d)[i],
                    d,
                ),
            forall|d: int| 0 <= d < self.depths() ==> context.best_ok(#[trigger] self.best(d), d),
            self@.queues.len() == context.max_turn,
            self@.bests.len() == context.max_turn,
            self@.seen == self.seen(),
            forall|d: int| 0 <= d < self.depths() ==> #[trigger] self@.queues[d] == self.queue(d),
            forall|d: int| 0 <= d < self.depths() ==> #[trigger] self@.bests[d] == self.best(d),
            forall|d: int|
                0 <= d < self.depths() ==> context.best_ok(#[trigger] self@.bests[d], d),
            self@.done() <==> self.pending() == 0,
    {
        lemma_sum_lens_zero(self.heaps@, self.heaps@.len() as int);
        if self@.done() {
            assert forall|i: int| 0 <= i < self.heaps@.len() implies (#[trigger] self.heaps@[i])@.len()
                == 0 by {
                assert(self@.queues[i].len() == 0);
            }
        }
    }

    /// A search that has met nothing yet: the player of `context` is the one
    /// open position, unless the board is dead already.
    pub fn new(context: &PlanContext) -> (r: Self)
        requires
            context.wf(),
        ensures
            r.ok(context),
            r@ == SearchModel::start(context),
            r.seen() == Set::<u64>::empty(),
            forall|d: int| 0 <= d < context.max_turn ==> (#[trigger] r.best(d)).actions == 0,
            forall|d: int| 1 <= d < context.max_turn ==> (#[trigger] r.queue(d)).len() == 0,
            context.max_turn > 0 ==> r.queue(0) == (if context.player.board@.dead {
                Seq::<BeamState>::empty()
            } else {
                seq![BeamState { player: context.player, score: 0, actions: 0 }]
            }),
    {
        let mut heaps: Vec<Vec<BeamState>> = Vec::new();
        let mut bests: Vec<SearchResult> = Vec::new();
        let mut d: usize = 0;
        while d < context.max_turn
            invariant
                d <= context.max_turn,
                heaps@.len() == d,
                bests@.len() == d,
                forall|i: int| 0 <= i < d ==> (#[trigger] heaps@[i])@.len() == 0,
                forall|i: int|
                    0 <= i < d ==> #[trigger] bests@[i] == (SearchResult {
                        score: 0,
                        draw: 0,
                        actions: 0,
                    }),
            decreases context.max_turn - d,
        {
            heaps.push(Vec::new());
            bests.push(SearchResult { score: 0, draw: 0, actions: 0 });
            d = d + 1;
        }
        let first = BeamState::new(context.player, 0, 0);
        if context.max_turn > 0 && !context.player.board.is_dead() {
            proof {
                assert(codes(0) =~= Seq::<int>::empty());
                assert(unpacked(0) =~= Seq::<Action>::empty());
                assert(context.node_ok(first, 0));
            }
            heaps[0].push(first);
        }
        let r = Search { heaps, bests, visited: HashSet::new() };
        proof {
            assert(codes(0) =~= Seq::<int>::empty());
            assert forall|d: int, i: int|
                0 <= d < r.heaps@.len() && 0 <= i < r.heaps@[d]@.len() implies context.node_ok(
                #[trigger] r.heaps@[d]@[i],
                d,
            ) by {
                assert(d == 0 && i == 0);
            }
            if context.max_turn > 0 {
                if context.player.board@.dead {
                    assert(r.queue(0) =~= Seq::<BeamState>::empty());
                } else {
                    assert(r.queue(0) =~= seq![first]);
                }
            }
            let want = SearchModel::start(context);
            assert forall|d: int| 0 <= d < context.max_turn implies #[trigger] r@.queues[d]
                == want.queues[d] by {
                if d == 0 {
                    assert(r.queue(0) == want.queues[0]);
                } else {
                    assert(r.heaps@[d]@ =~= Seq::<BeamState>::empty());
                }
            }
            assert(r@.queues =~= want.queues);
            assert(r@.bests =~= want.bests);
        }
        r
    }

    /// The recorded best of depth `depth`.
    pub fn best_at(&self, context: &PlanContext, depth: usize) -> (r: SearchResult)
        requires
            self.ok(context),
            depth < context.max_turn,
        ensures
            r == self.best(depth as int),
            r == self@.bests[depth as int],
    {
        self.bests[depth]
    }

    /// The number of open positions of depth `depth`.
    pub fn queue_len(&self, context: &PlanContext, depth: usize) -> (n: usize)
        requires
            self.ok(context),
            depth < context.max_turn,
        ensures
            n == self.queue(depth as int).len(),
            n == self@.queues[depth as int].len(),
    {
        self.heaps[depth].len()
    }

    /// The number of positions that the search has met.
    pub fn seen_len(&self, context: &PlanContext) -> (n: usize)
        requires
            self.ok(context),
        ensures
            n == self.seen().len(),
            n == self@.seen.len(),
    {
        self.visited.len()
    }

    /// Whether no open position is left.
    pub fn is_done(&self) -> (r: bool)
        ensures
            r == (self.pending() == 0),
            r == self@.done(),
    {
        let mut d: usize = 0;
        while d < self.heaps.len()
            invariant
                d <= self.heaps@.len(),
                forall|i: int| 0 <= i < d ==> (#[trigger] self.heaps@[i])@.len() == 0,
            decreases self.heaps@.len() - d,
        {
            if self.heaps[d].len() > 0 {
                proof {
                    lemma_sum_lens_zero(self.heaps@, self.heaps@.len() as int);
                    assert(self@.queues[d as int].len() > 0);
                }
                return false;
            }
            d = d + 1;
        }
        proof {
            lemma_sum_lens_zero(self.heaps@, self.heaps@.len() as int);
        }
        true
    }

    /// Takes the open position with the highest score out of the queue of
    /// depth `depth`.
    pub fn pop(&mut self, context: &PlanContext, depth: usize) -> (r: Option<BeamState>)
        requires
            old(self).ok(context),
            depth < context.max_turn,
        ensures
            final(self).ok(context),
            final(self)@ == old(self)@.popped(depth as int),
            r == (if old(self)@.queues[depth as int].len() == 0 {
                None
            } else {
                Some(old(self)@.front(depth as int))
            }),
            final(self).seen() == old(self).seen(),
            forall|d: int| 0 <= d < context.max_turn ==> final(self).best(d) == old(self).best(d),
            forall|d: int|
                0 <= d < context.max_turn && d != depth ==> final(self).queue(d) == old(
                    self,
                ).queue(d),
            r.is_none() <==> old(self).queue(depth as int).len() == 0,
            r.is_none() ==> final(self).queue(depth as int) == old(self).queue(depth as int)
                && final(self).pending() == old(self).pending(),
            r matches Some(node) ==> {
                &&& context.node_ok(node, depth as int)
                &&& old(self).queue(depth as int).contains(node)
                &&& forall|i: int|
                    0 <= i < old(self).queue(depth as int).len() ==> (#[trigger] old(self).queue(
                        depth as int,
                    )[i]).score <= node.score
                &&& final(self).queue(depth as int).len() == old(self).queue(depth as int).len() - 1
                &&& final(self).pending() == old(self).pending() - 1
                &&& ({
                    let q = old(self).queue(depth as int);
                    let b = first_best(q, q.len() as int);
                    0 <= b < q.len() && node == q[b] && final(self).queue(depth as int) == q.update(
                        b,
                        q.last(),
                    ).drop_last()
                })
            },
    {
        let n = self.heaps[depth].len();
        if n == 0 {
            return None;
        }
        let mut b: usize = 0;
        let mut i: usize = 1;
        while i < n
            invariant
                depth < self.heaps@.len(),
                n == self.heaps@[depth as int]@.len(),
                1 <= i <= n,
                b < i,
                b == first_best(self.heaps@[depth as int]@, i as int),
                forall|j: int|
                    0 <= j < i ==> (#[trigger] self.heaps@[depth as int]@[j]).score
                        <= self.heaps@[depth as int]@[b as int].score,
            decreases n - i,
        {
            if self.heaps[depth][i].score > self.heaps[depth][b].score {
                b = i;
            }
            i = i + 1;
        }
        let node = self.heaps[depth].swap_remove(b);
        proof {
            let o = old(self).heaps@;
            let q0 = o[depth as int]@;
            let q1 = self.heaps@[depth as int]@;
            assert(q0[b as int] == node);
            assert forall|d: int, i: int|
                0 <= d < self.heaps@.len() && 0 <= i < self.heaps@[d]@.len() implies context.node_ok(
                #[trigger] self.heaps@[d]@[i],
                d,
            ) by {
                if d == depth {
                    if i == b {
                        assert(q1[i] == q0[q0.len() - 1]);
                        assert(context.node_ok(o[d]@[q0.len() - 1], d));
                    } else {
                        assert(q1[i] == q0[i]);
                        assert(context.node_ok(o[d]@[i], d));
                    }
                } else {
                    assert(self.heaps@[d] == o[d]);
                    assert(context.node_ok(o[d]@[i], d));
                }
            }
            lemma_sum_lens_change(o, self.heaps@, depth as int, o.len() as int);
            let want = old(self)@.popped(depth as int);
            assert forall|d: int| 0 <= d < self.heaps@.len() implies #[trigger] self@.queues[d]
                == want.queues[d] by {
                if d != depth {
                    assert(self.heaps@[d] == o[d]);
                }
            }
            assert(self@.queues =~= want.queues);
        }
        Some(node)
    }

    /// Takes in a position that expanding a position of depth `depth` has
    /// given. A position whose hash the search has met before is dropped.
    /// Otherwise a number is drawn, the sequence takes the place of the
    /// recorded best of the depth if its score is higher, or equal with a
    /// higher draw, and the position is queued unless it has the last depth.
    /// Returns whether the position was new.
    pub fn absorb(
        &mut self,
        context: &PlanContext,
        depth: usize,
        child: &Child,
        rand: &mut XorShiftL,
    ) -> (fresh: bool)
        requires
            old(self).ok(context),
            depth < context.max_turn,
            context.node_ok(child.state, depth + 1),
        ensures
            final(self).ok(context),
            (SearchPoint { search: final(self)@, word: final(rand)@ }) == (SearchPoint {
                search: old(self)@,
                word: old(rand)@,
            }).absorbed(depth as int, *child),
            fresh == !old(self).seen().contains(child.state.player@.hash()),
            final(self).seen() == old(self).seen().insert(child.state.player@.hash()),
            final(self).seen().len() == old(self).seen().len() + (if fresh {
                1int
            } else {
                0int
            }),
            final(rand)@ == (if fresh {
                next_state(old(rand)@)
            } else {
                old(rand)@
            }),
            forall|d: int|
                0 <= d < context.max_turn && d != depth ==> final(self).best(d) == old(self).best(
                    d,
                ),
            final(self).best(depth as int) == (if fresh && rank(
                child.score as int,
                draw_of(next_state(old(rand)@)) as int,
            ) > rank(
                old(self).best(depth as int).score as int,
                old(self).best(depth as int).draw as int,
            ) {
                SearchResult {
                    score: child.score,
                    draw: draw_of(next_state(old(rand)@)),
                    actions: child.state.actions,
                }
            } else {
                old(self).best(depth as int)
            }),
            forall|d: int|
                0 <= d < context.max_turn && d != depth + 1 ==> final(self).queue(d) == old(
                    self,
                ).queue(d),
            depth + 1 < context.max_turn ==> final(self).queue(depth + 1) == (if fresh {
                old(self).queue(depth + 1).push(child.state)
            } else {
                old(self).queue(depth + 1)
            }),
            final(self).pending() == old(self).pending() + (if fresh && depth + 1
                < context.max_turn {
                1int
            } else {
                0int
            }),
    {
        let h = child.state.player.hash();
        let fresh = self.visited.insert(h);
        let seen = self.visited.len();
        if !fresh {
            proof {
                assert(self.visited@ =~= old(self).visited@);
                assert(self@.queues =~= old(self)@.queues);
            }
            return false;
        }
        let word = rand.next();
        let low = word & 0xFF;
        assert(low < 256) by (bit_vector)
            requires
                low == word & 0xFF,
        ;
        let draw = low as u8;
        if depth + 1 < context.max_turn {
            self.heaps[depth + 1].push(child.state);
        }
        let best = self.bests[depth];
        if child.score > best.score || (child.score == best.score && draw > best.draw) {
            self.bests[depth] = SearchResult {
                score: child.score,
                draw,
                actions: child.state.actions,
            };
        }
        proof {
            let o = old(self).heaps@;
            assert forall|d: int, i: int|
                0 <= d < self.heaps@.len() && 0 <= i < self.heaps@[d]@.len() implies context.node_ok(
                #[trigger] self.heaps@[d]@[i],
                d,
            ) by {
                if d == depth + 1 && i == o[d]@.len() {
                } else {
                    assert(self.heaps@[d]@[i] == o[d]@[i]);
                    assert(context.node_ok(o[d]@[i], d));
                }
            }
            assert forall|d: int| 0 <= d < self.bests@.len() implies context.best_ok(
                #[trigger] self.bests@[d],
                d,
            ) by {
                if d != depth {
                    assert(self.bests@[d] == old(self).bests@[d]);
                }
                assert(context.best_ok(old(self).bests@[d], d));
            }
            if depth + 1 < context.max_turn {
                lemma_sum_lens_change(o, self.heaps@, depth + 1, o.len() as int);
            } else {
                assert(self.heaps@ =~= o);
            }
            let want = (SearchPoint { search: old(self)@, word: old(rand)@ }).absorbed(
                depth as int,
                *child,
            );
            assert forall|d: int| 0 <= d < self.heaps@.len() implies #[trigger] self@.queues[d]
                == want.search.queues[d] by {
                if d != depth + 1 {
                    assert(self.heaps@[d]@ == o[d]@);
                }
            }
            assert(self@.queues =~= want.search.queues);
            assert(self@.bests =~= want.search.bests);
            assert(self@.seen =~= want.search.seen);
        }
        true
    }

    /// One round of the search: for each depth in turn, the best open
    /// position is taken out of its queue and expanded by every move, and
    /// every position that this gives is taken in.
    ///
    /// No recorded best gets worse in a round. A round that starts with
    /// an open position either meets a new position or ends with fewer open
    /// positions, so that a search cannot go on for ever.
    pub fn round<F>(&mut self, context: &PlanContext, rand: &mut XorShiftL, calc_score: &F) where
        F: Fn(&ActionResult, &Player, &Feature) -> i64 + Sync + Send,

        requires
            old(self).ok(context),
            context.wf(),
            total(calc_score),
        ensures
            final(self).ok(context),
            round_done(
                context,
                calc_score,
                SearchPoint { search: old(self)@, word: old(rand)@ },
                SearchPoint { search: final(self)@, word: final(rand)@ },
                context.max_turn as int,
            ),
            forall|d: int|
                0 <= d < context.max_turn ==> rank(
                    (#[trigger] final(self).best(d)).score as int,
                    final(self).best(d).draw as int,
                ) >= rank(old(self).best(d).score as int, old(self).best(d).draw as int),
            old(self).seen().subset_of(final(self).seen()),
            final(self).seen().len() >= old(self).seen().len(),
            old(self).pending() > 0 ==> final(self).seen().len() > old(self).seen().len()
                || final(self).pending() < old(self).pending(),
    {
        let actions = Action::all_actions();
        let ghost start = *self;
        let ghost origin = SearchPoint { search: self@, word: rand@ };
        let ghost mut pops: int = 0;
        let mut depth: usize = 0;
        while depth < context.max_turn
            invariant
                depth <= context.max_turn,
                self.ok(context),
                start.ok(context),
                round_done(
                    context,
                    calc_score,
                    origin,
                    SearchPoint { search: self@, word: rand@ },
                    depth as int,
                ),
                forall|i: int|
                    0 <= i < 37 ==> #[trigger] actions@[i] == crate::action::action_of(i + 1),
                context.wf(),
                total(calc_score),
                actions@.len() == 37,
                forall|i: int| 0 <= i < 37 ==> (#[trigger] actions@[i]).legal(),
                forall|d: int|
                    0 <= d < context.max_turn ==> rank(
                        (#[trigger] self.best(d)).score as int,
                        self.best(d).draw as int,
                    ) >= rank(start.best(d).score as int, start.best(d).draw as int),
                start.seen().subset_of(self.seen()),
                self.seen().len() - start.seen().len() >= self.pending() - start.pending() + pops,
                self.seen().len() >= start.seen().len(),
                pops >= 0,
                pops >= 1 || forall|d: int| 0 <= d < depth ==> (#[trigger] start.queue(d)).len() == 0,
                forall|d: int|
                    depth <= d < context.max_turn ==> (#[trigger] self.queue(d)).len()
                        >= start.queue(d).len(),
            decreases context.max_turn - depth,
        {
            let ghost before = *self;
            let ghost here = SearchPoint { search: self@, word: rand@ };
            proof {
                self.lemma_ok(context);
            }
            match self.pop(context, depth) {
                None => {
                    proof {
                        assert(self.queue(depth as int).len() >= start.queue(depth as int).len());
                        assert(depth_done(
                            context,
                            calc_score,
                            depth as int,
                            here,
                            SearchPoint { search: self@, word: rand@ },
                        ));
                    }
                },
                Some(node) => {
                    proof {
                        pops = pops + 1;
                    }
                    let children = expand_all(context, &node, depth, &actions, calc_score);
                    let ghost base = SearchPoint { search: self@, word: rand@ };
                    let mut k: usize = 0;
                    while k < children.len()
                        invariant
                            k <= 37,
                            children@.len() == 37,
                            (SearchPoint { search: self@, word: rand@ }) == base.absorbed_all(
                                depth as int,
                                children@,
                                k as int,
                            ),
                            forall|i: int|
                                0 <= i < 37 ==> expanded(
                                    context,
                                    node,
                                    depth as int,
                                    actions@[i],
                                    calc_score,
                                    #[trigger] children@[i],
                                ),
                            depth < context.max_turn,
                            self.ok(context),
                            start.ok(context),
                            context.wf(),
                            total(calc_score),
                            context.node_ok(node, depth as int),
                            actions@.len() == 37,
                            forall|i: int| 0 <= i < 37 ==> (#[trigger] actions@[i]).legal(),
                            forall|d: int|
                                0 <= d < context.max_turn ==> rank(
                                    (#[trigger] self.best(d)).score as int,
                                    self.best(d).draw as int,
                                ) >= rank(start.best(d).score as int, start.best(d).draw as int),
                            start.seen().subset_of(self.seen()),
                            self.seen().len() - start.seen().len() >= self.pending()
                                - start.pending() + pops,
                            self.seen().len() >= start.seen().len(),
                            forall|d: int|
                                depth < d < context.max_turn ==> (#[trigger] self.queue(d)).len()
                                    >= start.queue(d).len(),
                        decreases 37 - k,
                    {
                        match children[k] {
                            None => {},
                            Some(child) => {
                                let ghost prev = *self;
                                let fresh = self.absorb(context, depth, &child, rand);
                                proof {
                                    assert forall|d: int|
                                        depth < d < context.max_turn implies (#[trigger] self.queue(
                                        d,
                                    )).len() >= start.queue(d).len() by {
                                        assert(prev.queue(d).len() >= start.queue(d).len());
                                    }
                                    assert forall|d: int| 0 <= d < context.max_turn implies rank(
                                        (#[trigger] self.best(d)).score as int,
                                        self.best(d).draw as int,
                                    ) >= rank(
                                        start.best(d).score as int,
                                        start.best(d).draw as int,
                                    ) by {
                                        assert(rank(
                                            prev.best(d).score as int,
                                            prev.best(d).draw as int,
                                        ) >= rank(
                                            start.best(d).score as int,
                                            start.best(d).draw as int,
                                        ));
                                    }
                                }
                            },
                        }
                        k = k + 1;
                    }
                    proof {
                        assert(children_of(context, calc_score, node, depth as int, children@));
                        assert(depth_done(
                            context,
                            calc_score,
                            depth as int,
                            here,
                            SearchPoint { search: self@, word: rand@ },
                        ));
                    }
                },
            }
            proof {
                assert(round_done(context, calc_score, origin, here, depth as int));
                assert(passes(here));
                assert(round_done(
                    context,
                    calc_score,
                    origin,
                    SearchPoint { search: self@, word: rand@ },
                    depth + 1,
                ));
            }
            depth = depth + 1;
        }
        proof {
            if start.pending() > 0 {
                lemma_sum_lens_zero(start.heaps@, start.heaps@.len() as int);
                if pops < 1 {
                    assert forall|i: int| 0 <= i < start.heaps@.len() implies (
                    #[trigger] start.heaps@[i])@.len() == 0 by {
                        assert(start.queue(i).len() == 0);
                    }
                }
            }
        }
    }

    /// Takes one reading of the clock: if it finds less than the budget spent
    /// and an open position left, one round is run; else nothing is done.
    /// Returns whether the round was run.
    pub fn step<F>(
        &mut self,
        context: &PlanContext,
        rand: &mut XorShiftL,
        calc_score: &F,
        spent_ms: u128,
    ) -> (went: bool) where F: Fn(&ActionResult, &Player, &Feature) -> i64 + Sync + Send
        requires
            old(self).ok(context),
            context.wf(),
            total(calc_score),
        ensures
            final(self).ok(context),
            went == goes_on_after(spent_ms, context, old(self)@.done()),
            went ==> round_done(
                context,
                calc_score,
                SearchPoint { search: old(self)@, word: old(rand)@ },
                SearchPoint { search: final(self)@, word: final(rand)@ },
                context.max_turn as int,
            ),
            !went ==> final(self)@ == old(self)@ && final(rand)@ == old(rand)@,
            final(self).seen().len() >= old(self).seen().len(),
            went ==> final(self).seen().len() > old(self).seen().len() || final(self).pending()
                < old(self).pending(),
    {
        let done = self.is_done();
        if !goes_on(spent_ms, context, done) {
            return false;
        }
        proof {
            self.lemma_ok(context);
        }
        self.round(context, rand, calc_score);
        true
    }

    /// The recorded sequences, one plan for each depth: the plan of a depth
    /// for which nothing is recorded is empty.
    pub fn finish(&self, context: &PlanContext) -> (plans: Vec<Replay>)
        requires
            self.ok(context),
            context.wf(),
        ensures
            planned(context, self@, plans@),
            plans@.len() == context.max_turn,
            forall|d: int|
                0 <= d < context.max_turn ==> {
                    &&& (#[trigger] plans@[d]).wf()
                    &&& plans@[d]@ == ReplayView::made(
                        context.player@,
                        context.plan_packs(),
                        context.enemy_send_obstacles@,
                        unpacked(self.best(d).actions),
                    )
                },
    {
        let mut plans: Vec<Replay> = Vec::new();
        let supply = context.packs.len();
        let mut d: usize = 0;
        while d < context.max_turn
            invariant
                d <= context.max_turn,
                self.ok(context),
                context.wf(),
                supply == context.packs@.len(),
                plans@.len() == d,
                forall|i: int|
                    0 <= i < d ==> {
                        &&& (#[trigger] plans@[i]).wf()
                        &&& plans@[i]@ == ReplayView::made(
                            context.player@,
                            context.plan_packs(),
                            context.enemy_send_obstacles@,
                            unpacked(self.bests@[i].actions),
                        )
                    },
            decreases context.max_turn - d,
        {
            let best = self.bests[d];
            proof {
                assert(context.best_ok(self.bests@[d as int], d as int));
                assert(codes(0) =~= Seq::<int>::empty());
            }
            let actions = best.get_actions();
            let start_turn = context.plan_start_turn;
            let last_turn = start_turn + actions.len();
            let packs = &context.packs[start_turn..last_turn];
            let mut replay = Replay::new();
            proof {
                assert forall|i: int| 0 <= i < actions@.len() implies valid_pack(
                    pack_of(#[trigger] packs@[i]),
                ) by {
                    assert(packs@[i] == context.packs@[start_turn + i]);
                }
            }
            replay.init(&context.player, packs, context.enemy_send_obstacles, actions.as_slice());
            proof {
                let n = actions@.len() as int;
                let full = context.plan_packs();
                let s = context.enemy_send_obstacles@;
                let want = ReplayView::made(context.player@, full, s, actions@);
                assert(replay@.packs =~= want.packs);
                assert forall|i: int| 0 <= i < n implies replay@.results[i] == want.results[i] by {
                    lemma_sim_prefix(context.player@, actions@, actions@, packs@, full, s, i);
                    assert(packs@[i] == full[i]);
                }
                assert(replay@.results =~= want.results);
            }
            plans.push(replay);
            d = d + 1;
        }
        plans
    }
}

/// Searches for the best sequences of moves for the player of `context`:
/// the clock is read before each round, and a round is run as long as the
/// reading finds less than the budget spent and an open position left. The
/// plans are those of the recorded bests after the last round: for each
/// depth the sequence of highest rank that the rounds have taken in, or the
/// empty plan where none had a rank above zero.
///
/// How many rounds are run depends on the clock; what the rounds do does
/// not. Whatever is returned can be played: no move of a plan kills the
/// board or uses the ability on a gauge that is not full, and the plan
/// records what its moves give.
pub fn calc_rensa_plan<F>(context: &PlanContext, rand: &mut XorShiftL, calc_score: F) -> (plans:
    Vec<Replay>) where F: Fn(&ActionResult, &Player, &Feature) -> i64 + Sync + Send
    requires
        context.wf(),
        total(&calc_score),
    ensures
        exists|readings: Seq<u128>, end: SearchModel, last: u128| #[trigger]
            stopped(
                context,
                &calc_score,
                SearchPoint { search: SearchModel::start(context), word: old(rand)@ },
                SearchPoint { search: end, word: final(rand)@ },
                readings,
                last,
            ) && planned(context, end, plans@),
        context.think_time_in_milli == 0 ==> final(rand)@ == old(rand)@ && planned(
            context,
            SearchModel::start(context),
            plans@,
        ),
        plans@.len() == context.max_turn,
        forall|d: int|
            0 <= d < context.max_turn ==> {
                &&& (#[trigger] plans@[d]).wf()
                &&& plans@[d]@.actions.len() == 0 || plans@[d]@.actions.len() == d + 1
                &&& plans@[d]@.actions.len() > 0 ==> context.playable(plans@[d]@.actions)
                &&& plans@[d]@ == ReplayView::made(
                    context.player@,
                    context.plan_packs(),
                    context.enemy_send_obstacles@,
                    plans@[d]@.actions,
                )
            },
        context.think_time_in_milli == 0 ==> forall|d: int|
            0 <= d < context.max_turn ==> (#[trigger] plans@[d])@.actions.len() == 0,
{
    let timer = Instant::now();
    let mut search = Search::new(context);
    let ghost origin = SearchPoint { search: search@, word: rand@ };
    let ghost mut readings: Seq<u128> = Seq::empty();
    let ghost mut last: u128 = 0;
    loop
        invariant_except_break
            search.ok(context),
            context.wf(),
            total(&calc_score),
            origin == (SearchPoint { search: SearchModel::start(context), word: old(rand)@ }),
            ran(
                context,
                &calc_score,
                origin,
                SearchPoint { search: search@, word: rand@ },
                readings,
            ),
        ensures
            search.ok(context),
            context.wf(),
            origin == (SearchPoint { search: SearchModel::start(context), word: old(rand)@ }),
            stopped(
                context,
                &calc_score,
                origin,
                SearchPoint { search: search@, word: rand@ },
                readings,
                last,
            ),
        decreases usize::MAX - search.seen().len(), search.pending(),
    {
        let spent = timer.elapsed().as_millis();
        let ghost here = SearchPoint { search: search@, word: rand@ };
        proof {
            search.lemma_ok(context);
        }
        if !search.step(context, rand, &calc_score, spent) {
            proof {
                last = spent;
            }
            break ;
        }
        proof {
            search.lemma_ok(context);
            let grown = readings.push(spent);
            assert(grown.drop_last() =~= readings);
            assert(grown.last() == spent);
            assert(ran(context, &calc_score, origin, here, grown.drop_last()));
            assert(passes(here));
            assert(goes_on_after(grown.last(), context, here.search.done()));
            assert(ran(
                context,
                &calc_score,
                origin,
                SearchPoint { search: search@, word: rand@ },
                grown,
            ));
            readings = grown;
        }
    }
    let plans = search.finish(context);
    proof {
        search.lemma_ok(context);
        assert(codes(0) =~= Seq::<int>::empty());
        assert forall|d: int| 0 <= d < context.max_turn implies {
            &&& (#[trigger] plans@[d])@.actions.len() == 0 || plans@[d]@.actions.len() == d + 1
            &&& plans@[d]@.actions.len() > 0 ==> context.playable(plans@[d]@.actions)
        } by {
            assert(context.best_ok(search.best(d), d));
        }
        if context.think_time_in_milli == 0 {
            lemma_no_budget(
                context,
                &calc_score,
                origin,
                SearchPoint { search: search@, word: rand@ },
                readings,
            );
        }
        assert(stopped(
            context,
            &calc_score,
            SearchPoint { search: SearchModel::start(context), word: old(rand)@ },
            SearchPoint { search: search@, word: rand@ },
            readings,
            last,
        ));
    }
    plans
}

} // verus!
