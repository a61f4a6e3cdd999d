//! A player: a board and the counters that a move changes.
use vstd::prelude::*;
use crate::action::{Action, ActionResult};
use crate::board::{pack_of, Board};
use crate::column::valid_cell;
use crate::consts::{GAUGE_FULL, GAUGE_GAIN, W};
use crate::grid::{
    lemma_blast, lemma_chain, lemma_drop_pack, lemma_erase, lemma_fall_obstacles,
    lemma_rotated_valid, pack_columns, rotated, touched, valid_pack, Grid, Outcome, Pack,
};
use crate::score::clamp_i32;

verus! {

/// A player.
#[derive(Clone, Copy, Debug)]
pub struct Player {
    pub board: Board,
    /// Obstacles that are waiting to fall on this player. Ten of them fall
    /// as one row at the start of a move; what the player sends is taken off
    /// first.
    pub obstacle: i32,
    /// The charge of the ability.
    pub skill_guage: i32,
    /// Gauge points taken from the opponent so far.
    pub decrease_skill_guage: i32,
}

/// The model of a player.
pub struct PlayerState {
    pub grid: Grid,
    pub obstacle: int,
    pub skill_guage: int,
    pub decrease_skill_guage: int,
}

/// What a move of a player leaves: the player and the result of the move.
pub struct Turn {
    pub state: PlayerState,
    pub result: ActionResult,
}

impl View for Player {
    type V = PlayerState;

    open spec fn view(&self) -> PlayerState {
        PlayerState {
            grid: self.board@,
            obstacle: self.obstacle as int,
            skill_guage: self.skill_guage as int,
            decrease_skill_guage: self.decrease_skill_guage as int,
        }
    }
}

impl PlayerState {
    pub open spec fn wf(self) -> bool {
        &&& self.grid.wf()
        &&& i32::MIN <= self.obstacle <= i32::MAX
        &&& i32::MIN <= self.skill_guage <= i32::MAX
        &&& i32::MIN <= self.decrease_skill_guage <= i32::MAX
    }

    /// Whether the gauge is full.
    pub open spec fn can_use_skill(self) -> bool {
        self.skill_guage >= 80
    }

    /// The player after a full row of waiting obstacles, if there is one,
    /// has fallen.
    pub open spec fn receive(self) -> PlayerState {
        if self.obstacle >= 10 {
            PlayerState {
                grid: self.grid.fall_obstacles(10),
                obstacle: self.obstacle - 10,
                ..self
            }
        } else {
            self
        }
    }

    /// The player after the board has made the move `o`: a cascade charges
    /// the gauge, and what was sent is taken off the waiting obstacles.
    pub open spec fn placed(self, o: Outcome) -> Turn {
        Turn {
            state: PlayerState {
                grid: o.grid,
                obstacle: clamp_i32(self.obstacle - o.result.obstacle),
                skill_guage: if o.result.chains > 0 {
                    clamp_i32(self.skill_guage + 8)
                } else {
                    self.skill_guage
                },
                decrease_skill_guage: self.decrease_skill_guage,
            },
            result: o.result,
        }
    }

    /// The player after the board has made the ability use `o`: the gauge is
    /// spent, the gauge points taken from the opponent are added up, and what
    /// was sent is taken off the waiting obstacles.
    pub open spec fn fired(self, o: Outcome) -> Turn {
        Turn {
            state: PlayerState {
                grid: o.grid,
                obstacle: clamp_i32(self.obstacle - o.result.obstacle),
                skill_guage: 0,
                decrease_skill_guage: clamp_i32(self.decrease_skill_guage + o.result.skill_guage),
            },
            result: o.result,
        }
    }

    /// One move with the piece `p`.
    pub open spec fn put(self, p: Pack, a: Action) -> Turn {
        let s = self.receive();
        match a {
            Action::PutBlock { pos, rot } => s.placed(s.grid.put(p, pos as int, rot as nat)),
            Action::UseSkill => s.fired(s.grid.use_skill()),
        }
    }

    /// The probe that drops the single value `v` onto column `x`.
    pub open spec fn put_one(self, v: int, x: int) -> Turn {
        let s = self.receive();
        s.placed(s.grid.put_one(v, x))
    }

    /// The player after `n` more obstacles have been sent to them.
    pub open spec fn add_obstacles(self, n: int) -> PlayerState {
        PlayerState { obstacle: clamp_i32(self.obstacle + n), ..self }
    }

    /// The hash of the board and the counters.
    pub open spec fn hash(self) -> u64 {
        self.grid.hash().wrapping_mul(31).wrapping_add(
            (self.obstacle + 0x8000_0000) as u64,
        ).wrapping_mul(31).wrapping_add((self.skill_guage + 0x8000_0000) as u64).wrapping_mul(
            31,
        ).wrapping_add((self.decrease_skill_guage + 0x8000_0000) as u64)
    }
}

/// A move leaves a well-formed player well-formed, and a dead board dead.
pub proof fn lemma_put_wf(s: PlayerState, p: Pack, a: Action)
    requires
        s.wf(),
        valid_pack(p),
        a.legal(),
    ensures
        s.put(p, a).state.wf(),
        s.grid.dead ==> s.put(p, a).state.grid.dead,
{
    lemma_fall_obstacles(s.grid, 10);
    let r = s.receive();
    match a {
        Action::PutBlock { pos, rot } => {
            let q = rotated(p, rot as nat);
            lemma_rotated_valid(p, rot as nat);
            lemma_drop_pack(r.grid, q, pos as int);
            lemma_chain(r.grid.drop_pack(q, pos as int), pack_columns(q, pos as int));
        },
        Action::UseSkill => {
            lemma_blast(r.grid);
            lemma_erase(r.grid, r.grid.blast());
            lemma_chain(r.grid.erase(r.grid.blast()), touched(r.grid.blast()));
        },
    }
}

impl PartialEq for Player {
    /// Two players are equal when their boards and their counters are.
    fn eq(&self, other: &Self) -> (r: bool) {
        self.board == other.board && self.obstacle == other.obstacle && self.skill_guage
            == other.skill_guage && self.decrease_skill_guage == other.decrease_skill_guage
    }
}

impl vstd::std_specs::cmp::PartialEqSpecImpl for Player {
    open spec fn obeys_eq_spec() -> bool {
        true
    }

    open spec fn eq_spec(&self, other: &Self) -> bool {
        self.board@.cols == other.board@.cols && self.obstacle == other.obstacle
            && self.skill_guage == other.skill_guage && self.decrease_skill_guage
            == other.decrease_skill_guage
    }
}

impl Eq for Player {

}

impl Default for Player {
    /// The player with the empty board and nothing counted.
    fn default() -> (p: Self)
        ensures
            p.wf(),
            p@ == (PlayerState {
                grid: Grid::empty(),
                obstacle: 0,
                skill_guage: 0,
                decrease_skill_guage: 0,
            }),
    {
        Self { board: Board::new(), obstacle: 0, skill_guage: 0, decrease_skill_guage: 0 }
    }
}

/// `v`, held within the range of `i32`.
pub fn clamp(v: i64) -> (r: i32)
    ensures
        r == clamp_i32(v as int),
{
    if v > 2147483647 {
        2147483647
    } else if v < -2147483648 {
        -2147483648
    } else {
        v as i32
    }
}

impl Player {
    pub open spec fn wf(&self) -> bool {
        self.board.wf()
    }

    /// A player with the given board and counters, who has taken nothing
    /// from the opponent yet.
    pub fn new(board: Board, obstacle: i32, skill_guage: i32) -> (p: Self)
        ensures
            p.board == board,
            p.obstacle == obstacle,
            p.skill_guage == skill_guage,
            p.decrease_skill_guage == 0,
    {
        Self { board, obstacle, skill_guage, decrease_skill_guage: 0 }
    }

    /// Lets a full row of waiting obstacles fall, if there is one.
    fn receive(&mut self)
        requires
            old(self).wf(),
        ensures
            final(self).wf(),
            final(self)@ == old(self)@.receive(),
            old(self).board@.dead ==> final(self).board@.dead,
    {
        proof {
            lemma_fall_obstacles(self.board@, 10);
        }
        if self.obstacle >= W as i32 {
            proof {
                lemma_fall_obstacles(self.board@, 10);
            }
            self.board.fall_obstacle();
            self.obstacle = self.obstacle - W as i32;
        }
    }

    /// Books the result of a placement.
    fn book(&mut self, result: &ActionResult)
        ensures
            final(self).board == old(self).board,
            final(self)@ == old(self)@.placed(
                Outcome { grid: old(self).board@, result: *result },
            ).state,
    {
        if result.chains > 0 {
            self.skill_guage = clamp(self.skill_guage as i64 + GAUGE_GAIN as i64);
        }
        self.obstacle = clamp(self.obstacle as i64 - result.obstacle as i64);
    }

    /// Makes one move with the piece `pack`.
    pub fn put(&mut self, pack: &[[u8; 2]; 2], action: &Action) -> (result: ActionResult)
        requires
            old(self).wf(),
            valid_pack(pack_of(*pack)),
            action.legal(),
        ensures
            final(self).wf(),
            final(self)@ == old(self)@.put(pack_of(*pack), *action).state,
            result == old(self)@.put(pack_of(*pack), *action).result,
            old(self).board@.dead ==> final(self).board@.dead,
    {
        self.receive();
        match action {
            Action::PutBlock { pos, rot } => {
                let result = self.board.put(pack, *pos, *rot);
                self.book(&result);
                result
            },
            Action::UseSkill => {
                let result = self.board.use_skill();
                self.skill_guage = 0;
                self.decrease_skill_guage = clamp(
                    self.decrease_skill_guage as i64 + result.skill_guage as i64,
                );
                self.obstacle = clamp(self.obstacle as i64 - result.obstacle as i64);
                result
            },
        }
    }

    /// Probes what the single value `v` would set off on column `x`. This is
    /// no move of the game; a search uses it to look one step ahead.
    pub fn put_one(&mut self, v: u8, x: usize) -> (result: ActionResult)
        requires
            old(self).wf(),
            valid_cell(v as int),
            x < 10,
        ensures
            final(self).wf(),
            final(self)@ == old(self)@.put_one(v as int, x as int).state,
            result == old(self)@.put_one(v as int, x as int).result,
    {
        self.receive();
        let result = self.board.put_one(v, x);
        self.book(&result);
        result
    }

    /// Sends `obstacle` more obstacles to the player.
    pub fn add_obstacles(&mut self, obstacle: i32)
        ensures
            final(self).board == old(self).board,
            final(self)@ == old(self)@.add_obstacles(obstacle as int),
    {
        self.obstacle = clamp(self.obstacle as i64 + obstacle as i64);
    }

    /// Whether the gauge is full.
    pub fn can_use_skill(&self) -> (r: bool)
        ensures
            r == self@.can_use_skill(),
    {
        self.skill_guage >= GAUGE_FULL
    }

    /// The hash of the board and the counters.
    pub fn hash(&self) -> (h: u64)
        ensures
            h == self@.hash(),
    {
        let h = self.board.hash();
        let h = h.wrapping_mul(31).wrapping_add((self.obstacle as i64 + 0x8000_0000) as u64);
        let h = h.wrapping_mul(31).wrapping_add((self.skill_guage as i64 + 0x8000_0000) as u64);
        h.wrapping_mul(31).wrapping_add((self.decrease_skill_guage as i64 + 0x8000_0000) as u64)
    }
}

} // verus!
