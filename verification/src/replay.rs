//! A plan that can be played back one move per turn: a sequence of moves
//! with the pieces it uses and the results it was found to give. A plan
//! is checked against the live player before each move is taken from it.
use vstd::prelude::*;
use std::collections::VecDeque;
use crate::action::{Action, ActionResult};
use crate::board::pack_of;
use crate::grid::valid_pack;
use crate::player::{Player, PlayerState};
use crate::score::clamp_i32;

verus! {

/// The player after the first `n` moves of a plan: each move is made with
/// its piece, and after move `i` the opponent sends `sched[i]` obstacles, as
/// far as the schedule reaches.
pub open spec fn sim_state(
    start: PlayerState,
    actions: Seq<Action>,
    packs: Seq<[[u8; 2]; 2]>,
    sched: Seq<i32>,
    n: int,
) -> PlayerState
    decreases n,
{
    if n <= 0 {
        start
    } else {
        let t = sim_state(start, actions, packs, sched, n - 1).put(
            pack_of(packs[n - 1]),
            actions[n - 1],
        ).state;
        if n - 1 < sched.len() {
            t.add_obstacles(sched[n - 1] as int)
        } else {
            t
        }
    }
}

/// The result of move `i` of a plan.
pub open spec fn sim_result(
    start: PlayerState,
    actions: Seq<Action>,
    packs: Seq<[[u8; 2]; 2]>,
    sched: Seq<i32>,
    i: int,
) -> ActionResult {
    sim_state(start, actions, packs, sched, i).put(pack_of(packs[i]), actions[i]).result
}

/// The results of all moves of a plan.
pub open spec fn sim_results(
    start: PlayerState,
    actions: Seq<Action>,
    packs: Seq<[[u8; 2]; 2]>,
    sched: Seq<i32>,
) -> Seq<ActionResult> {
    Seq::new(actions.len(), |i: int| sim_result(start, actions, packs, sched, i))
}

/// Whether none of the first `n` moves of a plan uses the ability on a
/// gauge that is not full.
pub open spec fn sim_affordable(
    start: PlayerState,
    actions: Seq<Action>,
    packs: Seq<[[u8; 2]; 2]>,
    sched: Seq<i32>,
    n: int,
) -> bool {
    forall|i: int|
        0 <= i < n && #[trigger] actions[i] == Action::UseSkill ==> sim_state(
            start,
            actions,
            packs,
            sched,
            i,
        ).can_use_skill()
}

/// Whether a plan can be simulated: it has a valid piece for each of its
/// moves, and every move is a move of the game.
pub open spec fn plan_ok(actions: Seq<Action>, packs: Seq<[[u8; 2]; 2]>) -> bool {
    &&& actions.len() <= packs.len()
    &&& forall|i: int| 0 <= i < actions.len() ==> (#[trigger] actions[i]).legal()
    &&& forall|i: int| 0 <= i < actions.len() ==> valid_pack(pack_of(#[trigger] packs[i]))
}

/// What is waiting right after a result has been booked on `before`
/// waiting obstacles: a full row falls first, then what the move sends is
/// taken off. A negative number is what goes on to the opponent.
pub open spec fn booked(before: int, r: ActionResult) -> int {
    (if before >= 10 {
        before - 10
    } else {
        before
    }) - r.obstacle
}

/// What is waiting to fall on a player, who starts with `start`, after the
/// first `n` results of a plan have been booked: never less than none.
pub open spec fn stock_after(start: int, results: Seq<ActionResult>, n: int) -> int
    decreases n,
{
    if n <= 0 {
        start
    } else {
        let left = booked(stock_after(start, results, n - 1), results[n - 1]);
        if left > 0 {
            left
        } else {
            0
        }
    }
}

/// The obstacles that reach the opponent with move `i` of a plan.
pub open spec fn sent_at(start: int, results: Seq<ActionResult>, i: int) -> int {
    let left = booked(stock_after(start, results, i), results[i]);
    if left < 0 {
        clamp_i32(-left)
    } else {
        0
    }
}

/// The obstacles that the first `n` results of a plan send, all together.
pub open spec fn raw_sum(results: Seq<ActionResult>, n: int) -> int
    decreases n,
{
    if n <= 0 {
        0
    } else {
        raw_sum(results, n - 1) + results[n - 1].obstacle
    }
}

/// The model of a plan: the moves that are left, their pieces, and the
/// results that they gave when the plan was made.
pub struct ReplayView {
    pub actions: Seq<Action>,
    pub packs: Seq<[[u8; 2]; 2]>,
    pub results: Seq<ActionResult>,
}

impl ReplayView {
    /// One piece and one result for each move.
    pub open spec fn wf(self) -> bool {
        &&& self.packs.len() == self.actions.len()
        &&& self.results.len() == self.actions.len()
        &&& plan_ok(self.actions, self.packs)
    }

    /// The result of the last move, and the zero result of an empty plan.
    pub open spec fn last_result(self) -> ActionResult {
        if self.results.len() > 0 {
            self.results.last()
        } else {
            ActionResult::zero()
        }
    }

    /// Whether the plan can be played by `player` under the schedule
    /// `sched`: it has a move left, no move uses the ability on a gauge that
    /// is not full, and its last move gives the result that was recorded.
    pub open spec fn can_replay(self, player: PlayerState, sched: Seq<i32>) -> bool {
        &&& self.actions.len() > 0
        &&& sim_affordable(player, self.actions, self.packs, sched, self.actions.len() as int)
        &&& sim_result(player, self.actions, self.packs, sched, self.actions.len() - 1)
            == self.last_result()
    }

    /// The plan that plays `actions` with `packs` from `player` under `sched`.
    pub open spec fn made(
        player: PlayerState,
        packs: Seq<[[u8; 2]; 2]>,
        sched: Seq<i32>,
        actions: Seq<Action>,
    ) -> ReplayView {
        ReplayView {
            actions,
            packs: packs.take(actions.len() as int),
            results: sim_results(player, actions, packs, sched),
        }
    }

    /// The plan without its first move.
    pub open spec fn rest(self) -> ReplayView {
        ReplayView {
            actions: self.actions.drop_first(),
            packs: self.packs.drop_first(),
            results: self.results.drop_first(),
        }
    }
}

/// The first `n` moves of a plan read only the first `n` moves and pieces.
pub proof fn lemma_sim_prefix(
    start: PlayerState,
    a1: Seq<Action>,
    a2: Seq<Action>,
    pa: Seq<[[u8; 2]; 2]>,
    pb: Seq<[[u8; 2]; 2]>,
    sched: Seq<i32>,
    n: int,
)
    requires
        n <= a1.len(),
        n <= a2.len(),
        n <= pa.len(),
        n <= pb.len(),
        forall|i: int| 0 <= i < n ==> a1[i] == a2[i],
        forall|i: int| 0 <= i < n ==> pa[i] == pb[i],
    ensures
        sim_state(start, a1, pa, sched, n) == sim_state(start, a2, pb, sched, n),
    decreases n,
{
    if n > 0 {
        lemma_sim_prefix(start, a1, a2, pa, pb, sched, n - 1);
    }
}

/// A simulated player stays well-formed.
pub proof fn lemma_sim_wf(
    start: PlayerState,
    actions: Seq<Action>,
    packs: Seq<[[u8; 2]; 2]>,
    sched: Seq<i32>,
    n: int,
)
    requires
        start.wf(),
        plan_ok(actions, packs),
        n <= actions.len(),
    ensures
        sim_state(start, actions, packs, sched, n).wf(),
    decreases n,
{
    if n > 0 {
        lemma_sim_wf(start, actions, packs, sched, n - 1);
        let prev = sim_state(start, actions, packs, sched, n - 1);
        crate::player::lemma_put_wf(prev, pack_of(packs[n - 1]), actions[n - 1]);
    }
}

/// A board that is dead during a plan is dead at its end.
pub proof fn lemma_sim_dead(
    start: PlayerState,
    actions: Seq<Action>,
    packs: Seq<[[u8; 2]; 2]>,
    sched: Seq<i32>,
    i: int,
    n: int,
)
    requires
        start.wf(),
        plan_ok(actions, packs),
        0 <= i <= n <= actions.len(),
        sim_state(start, actions, packs, sched, i).grid.dead,
    ensures
        sim_state(start, actions, packs, sched, n).grid.dead,
    decreases n - i,
{
    if i < n {
        lemma_sim_dead(start, actions, packs, sched, i, n - 1);
        lemma_sim_wf(start, actions, packs, sched, n - 1);
        let prev = sim_state(start, actions, packs, sched, n - 1);
        crate::player::lemma_put_wf(prev, pack_of(packs[n - 1]), actions[n - 1]);
    }
}

/// A plan that is checked against the player and the schedule it was made
/// for is accepted, provided it has a move and never uses the ability on a
/// gauge that is not full: what it gives is what was recorded.
pub proof fn lemma_fresh_plan_accepted(
    player: PlayerState,
    packs: Seq<[[u8; 2]; 2]>,
    sched: Seq<i32>,
    actions: Seq<Action>,
)
    requires
        plan_ok(actions, packs),
        actions.len() > 0,
        sim_affordable(player, actions, packs, sched, actions.len() as int),
    ensures
        ReplayView::made(player, packs, sched, actions).can_replay(player, sched),
{
    let v = ReplayView::made(player, packs, sched, actions);
    let n = actions.len() as int;
    assert forall|i: int| 0 <= i <= n implies sim_state(player, actions, v.packs, sched, i)
        == sim_state(player, actions, packs, sched, i) by {
        lemma_sim_prefix(player, actions, actions, v.packs, packs, sched, i);
    }
    assert(sim_state(player, actions, v.packs, sched, n - 1) == sim_state(
        player,
        actions,
        packs,
        sched,
        n - 1,
    ));
    assert forall|i: int| 0 <= i < n && #[trigger] actions[i] == Action::UseSkill implies sim_state(
        player,
        actions,
        v.packs,
        sched,
        i,
    ).can_use_skill() by {
        assert(sim_state(player, actions, v.packs, sched, i) == sim_state(
            player,
            actions,
            packs,
            sched,
            i,
        ));
    }
}

/// A plan is refused by every player and schedule under which its last
/// move gives another result than the recorded one: a player who was sent
/// other obstacles than the plan was made for is told to plan anew as soon
/// as that changes what the plan gives.
pub proof fn lemma_stale_plan_refused(v: ReplayView, player: PlayerState, sched: Seq<i32>)
    requires
        v.actions.len() > 0,
        sim_result(player, v.actions, v.packs, sched, v.actions.len() - 1) != v.last_result(),
    ensures
        !v.can_replay(player, sched),
{
}

/// A plan. Its model (`@`) is a `ReplayView`.
#[derive(Clone, Debug)]
pub struct Replay {
    expected_results: VecDeque<ActionResult>,
    packs: VecDeque<[[u8; 2]; 2]>,
    actions: VecDeque<Action>,
}

impl View for Replay {
    type V = ReplayView;

    closed spec fn view(&self) -> ReplayView {
        ReplayView { actions: self.actions@, packs: self.packs@, results: self.expected_results@ }
    }
}

/// Plays a plan from `player` and returns the result of each move, and
/// whether every ability use found the gauge full.
fn simulate(
    player: &Player,
    actions: &VecDeque<Action>,
    packs: &VecDeque<[[u8; 2]; 2]>,
    sched: &[i32],
) -> (r: (VecDeque<ActionResult>, bool))
    requires
        player.wf(),
        actions@.len() == packs@.len(),
        plan_ok(actions@, packs@),
    ensures
        r.0@ == sim_results(player@, actions@, packs@, sched@),
        r.1 == sim_affordable(player@, actions@, packs@, sched@, actions@.len() as int),
{
    let mut p = *player;
    let mut results: VecDeque<ActionResult> = VecDeque::new();
    let mut affordable = true;
    let mut i: usize = 0;
    while i < actions.len()
        invariant
            i <= actions@.len(),
            actions@.len() == packs@.len(),
            plan_ok(actions@, packs@),
            p.wf(),
            p@ == sim_state(player@, actions@, packs@, sched@, i as int),
            results@.len() == i,
            forall|j: int|
                0 <= j < i ==> #[trigger] results@[j] == sim_result(
                    player@,
                    actions@,
                    packs@,
                    sched@,
                    j,
                ),
            affordable == sim_affordable(player@, actions@, packs@, sched@, i as int),
        decreases actions@.len() - i,
    {
        let a = actions[i];
        let pack = packs[i];
        proof {
            assert(actions@[i as int].legal());
            assert(valid_pack(pack_of(packs@[i as int])));
        }
        match a {
            Action::UseSkill => {
                if !p.can_use_skill() {
                    affordable = false;
                }
            },
            _ => {},
        }
        let result = p.put(&pack, &a);
        if i < sched.len() {
            p.add_obstacles(sched[i]);
        }
        results.push_back(result);
        i = i + 1;
    }
    (results, affordable)
}

impl Replay {
    /// One piece and one recorded result for each move, every piece valid
    /// and every move a move of the game.
    pub open spec fn wf(&self) -> bool {
        self@.wf()
    }

    /// The empty plan.
    pub fn new() -> (r: Self)
        ensures
            r.wf(),
            r@.actions.len() == 0,
    {
        Self { expected_results: VecDeque::new(), packs: VecDeque::new(), actions: VecDeque::new() }
    }

    /// Whether no move is left.
    pub fn is_empty(&self) -> (r: bool)
        ensures
            r == (self@.actions.len() == 0),
    {
        self.actions.len() == 0
    }

    /// The number of moves that are left.
    pub fn len(&self) -> (n: usize)
        ensures
            n == self@.actions.len(),
    {
        self.actions.len()
    }

    /// Whether the plan still holds for `player` under the schedule
    /// `enemy_send_obstacles`.
    pub fn can_replay(&self, player: &Player, enemy_send_obstacles: &[i32]) -> (r: bool)
        requires
            self.wf(),
            player.wf(),
        ensures
            r == self@.can_replay(player@, enemy_send_obstacles@),
    {
        if self.actions.len() == 0 {
            return false;
        }
        let sim = simulate(player, &self.actions, &self.packs, enemy_send_obstacles);
        let last = sim.0[sim.0.len() - 1];
        sim.1 && last == self.get_result()
    }

    /// Makes the plan that plays `actions` with the first pieces of `packs`
    /// from `player` under the schedule `enemy_send_obstacles`, and records
    /// what each move gives.
    pub fn init(
        &mut self,
        player: &Player,
        packs: &[[[u8; 2]; 2]],
        enemy_send_obstacles: &[i32],
        actions: &[Action],
    )
        requires
            player.wf(),
            plan_ok(actions@, packs@),
        ensures
            final(self).wf(),
            final(self)@ == ReplayView::made(player@, packs@, enemy_send_obstacles@, actions@),
    {
        let mut a: VecDeque<Action> = VecDeque::new();
        let mut p: VecDeque<[[u8; 2]; 2]> = VecDeque::new();
        let mut i: usize = 0;
        while i < actions.len()
            invariant
                i <= actions@.len(),
                actions@.len() <= packs@.len(),
                a@ == actions@.take(i as int),
                p@ == packs@.take(i as int),
            decreases actions@.len() - i,
        {
            a.push_back(actions[i]);
            p.push_back(packs[i]);
            proof {
                assert(actions@.take(i + 1) =~= actions@.take(i as int).push(actions@[i as int]));
                assert(packs@.take(i + 1) =~= packs@.take(i as int).push(packs@[i as int]));
            }
            i = i + 1;
        }
        proof {
            assert(actions@.take(actions@.len() as int) =~= actions@);
            assert(a@ == actions@);
        }
        let sim = simulate(player, &a, &p, enemy_send_obstacles);
        proof {
            let n = actions@.len() as int;
            let want = sim_results(player@, actions@, packs@, enemy_send_obstacles@);
            assert forall|j: int| 0 <= j < n implies sim.0@[j] == want[j] by {
                lemma_sim_prefix(player@, actions@, actions@, p@, packs@, enemy_send_obstacles@, j);
            }
            assert(sim.0@ =~= want);
        }
        self.actions = a;
        self.packs = p;
        self.expected_results = sim.0;
    }

    /// Takes the next move off the plan, with its piece and its recorded
    /// result.
    pub fn replay(&mut self) -> (a: Option<Action>)
        requires
            old(self).wf(),
        ensures
            final(self).wf(),
            old(self)@.actions.len() == 0 ==> a.is_none() && final(self)@ == old(self)@,
            old(self)@.actions.len() > 0 ==> a == Some(old(self)@.actions[0]) && final(self)@
                == old(self)@.rest(),
    {
        let _ = self.packs.pop_front();
        let _ = self.expected_results.pop_front();
        let a = self.actions.pop_front();
        proof {
            let o = old(self)@;
            if o.actions.len() > 0 {
                assert(self@.actions =~= o.actions.drop_first());
                assert(self@.packs =~= o.packs.drop_first());
                assert(self@.results =~= o.results.drop_first());
                assert forall|i: int| 0 <= i < self@.actions.len() implies (
                #[trigger] self@.actions[i]).legal() && valid_pack(pack_of(self@.packs[i])) by {
                    assert(o.actions[i + 1].legal());
                    assert(valid_pack(pack_of(o.packs[i + 1])));
                }
            }
        }
        a
    }

    /// Drops every move, so that the owner has to plan anew.
    pub fn clear(&mut self)
        ensures
            final(self).wf(),
            final(self)@.actions.len() == 0,
            final(self)@.packs.len() == 0,
            final(self)@.results.len() == 0,
    {
        self.packs.clear();
        self.actions.clear();
        self.expected_results.clear();
    }

    /// The moves that are left.
    pub fn get_actions(&self) -> (v: Vec<Action>)
        ensures
            v@ == self@.actions,
    {
        let mut v: Vec<Action> = Vec::new();
        let mut i: usize = 0;
        while i < self.actions.len()
            invariant
                i <= self.actions@.len(),
                v@ == self.actions@.take(i as int),
            decreases self.actions@.len() - i,
        {
            v.push(self.actions[i]);
            proof {
                assert(self.actions@.take(i + 1) =~= self.actions@.take(i as int).push(
                    self.actions@[i as int],
                ));
            }
            i = i + 1;
        }
        proof {
            assert(self.actions@.take(self.actions@.len() as int) =~= self.actions@);
        }
        v
    }

    /// The recorded results of the moves that are left.
    pub fn get_results(&self) -> (v: Vec<ActionResult>)
        ensures
            v@ == self@.results,
    {
        let mut v: Vec<ActionResult> = Vec::new();
        let mut i: usize = 0;
        while i < self.expected_results.len()
            invariant
                i <= self.expected_results@.len(),
                v@ == self.expected_results@.take(i as int),
            decreases self.expected_results@.len() - i,
        {
            v.push(self.expected_results[i]);
            proof {
                assert(self.expected_results@.take(i + 1) =~= self.expected_results@.take(
                    i as int,
                ).push(self.expected_results@[i as int]));
            }
            i = i + 1;
        }
        proof {
            assert(self.expected_results@.take(self.expected_results@.len() as int)
                =~= self.expected_results@);
        }
        v
    }

    /// The recorded result of the last move, and the zero result of an
    /// empty plan.
    pub fn get_result(&self) -> (r: ActionResult)
        ensures
            r == self@.last_result(),
    {
        let n = self.expected_results.len();
        if n == 0 {
            ActionResult::new(0, 0, 0, 0)
        } else {
            self.expected_results[n - 1]
        }
    }

    /// The rounds of the cascade of the last move.
    pub fn get_chains(&self) -> (r: u8)
        ensures
            r == self@.last_result().chains,
    {
        self.get_result().chains
    }

    /// The obstacles that the last move sends.
    pub fn get_obstacle(&self) -> (r: i32)
        ensures
            r == self@.last_result().obstacle,
    {
        self.get_result().obstacle
    }

    /// For each move, the obstacles that reach the opponent once the
    /// obstacles that wait for `player` are paid off.
    pub fn get_obstacles(&self, player: &Player) -> (v: Vec<i32>)
        ensures
            v@.len() == self@.results.len(),
            forall|i: int|
                0 <= i < v@.len() ==> #[trigger] v@[i] == sent_at(
                    player.obstacle as int,
                    self@.results,
                    i,
                ),
    {
        let ghost res = self.expected_results@;
        let ghost start = player.obstacle as int;
        let mut v: Vec<i32> = Vec::new();
        let mut obstacle: i128 = player.obstacle as i128;
        let mut i: usize = 0;
        while i < self.expected_results.len()
            invariant
                i <= res.len(),
                res == self.expected_results@,
                start == player.obstacle,
                obstacle == stock_after(start, res, i as int),
                -0x8000_0000 <= obstacle <= 0x8000_0000 * (i + 1),
                v@.len() == i,
                forall|j: int| 0 <= j < i ==> #[trigger] v@[j] == sent_at(start, res, j),
            decreases res.len() - i,
        {
            let r = self.expected_results[i];
            if obstacle >= 10 {
                obstacle = obstacle - 10;
            }
            obstacle = obstacle - r.obstacle as i128;
            if obstacle < -2147483647 {
                v.push(2147483647);
                obstacle = 0;
            } else if obstacle < 0 {
                v.push((-obstacle) as i32);
                obstacle = 0;
            } else {
                v.push(0);
            }
            i = i + 1;
        }
        v
    }

    /// For each move, the obstacles that it sends.
    pub fn get_raw_obstacles(&self) -> (v: Vec<i32>)
        ensures
            v@.len() == self@.results.len(),
            forall|i: int| 0 <= i < v@.len() ==> #[trigger] v@[i] == self@.results[i].obstacle,
    {
        let mut v: Vec<i32> = Vec::new();
        let mut i: usize = 0;
        while i < self.expected_results.len()
            invariant
                i <= self.expected_results@.len(),
                v@.len() == i,
                forall|j: int| 0 <= j < i ==> #[trigger] v@[j] == self.expected_results@[j].obstacle,
            decreases self.expected_results@.len() - i,
        {
            v.push(self.expected_results[i].obstacle);
            i = i + 1;
        }
        v
    }

    /// The obstacles that all moves send together, less those that wait
    /// for `player`.
    pub fn get_obstacles_score(&self, player: &Player) -> (r: i32)
        ensures
            r == clamp_i32(
                raw_sum(self@.results, self@.results.len() as int) - player.obstacle,
            ),
    {
        let ghost res = self.expected_results@;
        let mut sum: i128 = 0;
        let mut i: usize = 0;
        while i < self.expected_results.len()
            invariant
                i <= res.len(),
                res == self.expected_results@,
                sum == raw_sum(res, i as int),
                -0x8000_0000 * i <= sum <= 0x8000_0000 * i,
            decreases res.len() - i,
        {
            sum = sum + self.expected_results[i].obstacle as i128;
            i = i + 1;
        }
        let total = sum - player.obstacle as i128;
        if total > 2147483647 {
            2147483647
        } else if total < -2147483648 {
            -2147483648
        } else {
            total as i32
        }
    }
}

} // verus!
