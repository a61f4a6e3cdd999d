//! The moves of the game, what a move brings about, and the compact codes
//! under which moves and whole sequences of moves are stored.
use vstd::prelude::*;

verus! {

/// One move: drop the piece of the turn with its left half on column `pos`
/// after `rot` quarter turns, or use the ability.
#[derive(Clone, Copy, Debug, PartialEq, Eq, Structural)]
pub enum Action {
    PutBlock { pos: usize, rot: usize },
    UseSkill,
}

/// What one move brought about.
#[derive(Clone, Copy, Debug, PartialEq, Eq, Structural)]
pub struct ActionResult {
    /// Rounds of the cascade.
    pub chains: u8,
    /// Obstacles sent to the opponent.
    pub obstacle: i32,
    /// Gauge points taken from the opponent.
    pub skill_guage: i32,
    /// Height of the first removal in untouched columns minus that in
    /// touched columns.
    pub fire_height: i8,
}

impl ActionResult {
    pub fn new(chains: u8, obstacle: i32, skill_guage: i32, fire_height: i8) -> (r: Self)
        ensures
            r == (ActionResult { chains, obstacle, skill_guage, fire_height }),
    {
        Self { chains, obstacle, skill_guage, fire_height }
    }

    /// The result of a move that brought nothing about.
    pub open spec fn zero() -> ActionResult {
        ActionResult { chains: 0, obstacle: 0, skill_guage: 0, fire_height: 0 }
    }
}

impl Default for ActionResult {
    fn default() -> (r: Self)
        ensures
            r == ActionResult::zero(),
    {
        Self { chains: 0, obstacle: 0, skill_guage: 0, fire_height: 0 }
    }
}

/// The code of the ability use; placements have the codes below it.
pub const SKILL_CODE: u8 = 37;

/// The code of a move: 1 to 36 for the placements, column by column and
/// turn by turn, and 37 for the ability use. 0 is no move.
pub open spec fn action_code(a: Action) -> int {
    match a {
        Action::PutBlock { pos, rot } => pos * 4 + rot + 1,
        Action::UseSkill => 37,
    }
}

/// The move with the code `c`.
pub open spec fn action_of(c: int) -> Action {
    if c == 37 {
        Action::UseSkill
    } else {
        Action::PutBlock { pos: ((c - 1) / 4) as usize, rot: ((c - 1) % 4) as usize }
    }
}

/// The moves of a sequence packed one to a byte, the first move in the
/// lowest byte: the bytes up to the topmost one that is not 0.
pub open spec fn codes(x: u128) -> Seq<int>
    decreases x,
{
    if x == 0 {
        Seq::empty()
    } else {
        seq![(x % 256) as int] + codes(x / 256)
    }
}

/// Every byte of the packed sequence is the code of a move.
pub open spec fn packed_ok(x: u128) -> bool {
    forall|i: int| 0 <= i < codes(x).len() ==> 1 <= #[trigger] codes(x)[i] <= 37
}

/// The moves of a packed sequence.
pub open spec fn unpacked(x: u128) -> Seq<Action> {
    Seq::new(codes(x).len(), |i: int| action_of(codes(x)[i]))
}

impl Action {
    /// A move of the game: a placement within the board, or the ability use.
    pub open spec fn legal(self) -> bool {
        match self {
            Action::PutBlock { pos, rot } => pos < 9 && rot < 4,
            Action::UseSkill => true,
        }
    }

    /// All 37 moves, in the order of their codes.
    pub fn all_actions() -> (actions: Vec<Action>)
        ensures
            actions.len() == 37,
            forall|i: int| 0 <= i < 37 ==> #[trigger] actions[i] == action_of(i + 1),
            forall|i: int| 0 <= i < 37 ==> (#[trigger] actions[i]).legal(),
    {
        let mut actions: Vec<Action> = Vec::new();
        let mut pos: usize = 0;
        while pos < 9
            invariant
                pos <= 9,
                actions.len() == pos * 4,
                forall|i: int| 0 <= i < actions.len() ==> #[trigger] actions[i] == action_of(i + 1),
            decreases 9 - pos,
        {
            let mut rot: usize = 0;
            while rot < 4
                invariant
                    pos < 9,
                    rot <= 4,
                    actions.len() == pos * 4 + rot,
                    forall|i: int|
                        0 <= i < actions.len() ==> #[trigger] actions[i] == action_of(i + 1),
                decreases 4 - rot,
            {
                actions.push(Action::PutBlock { pos, rot });
                rot = rot + 1;
            }
            pos = pos + 1;
        }
        actions.push(Action::UseSkill);
        actions
    }

    /// The code of a legal move.
    pub fn to_code(&self) -> (c: u8)
        requires
            self.legal(),
        ensures
            c == action_code(*self),
            1 <= c <= 37,
    {
        match self {
            Action::PutBlock { pos, rot } => (*pos * 4 + *rot + 1) as u8,
            Action::UseSkill => SKILL_CODE,
        }
    }

    /// The move with the code `c`.
    pub fn from_code(c: u8) -> (a: Action)
        requires
            1 <= c <= 37,
        ensures
            a == action_of(c as int),
            a.legal(),
    {
        let item = c - 1;
        if item == 36 {
            Action::UseSkill
        } else {
            Action::PutBlock { pos: (item / 4) as usize, rot: (item % 4) as usize }
        }
    }
}

/// A legal move is the move of its code, and a code is the code of its move.
pub proof fn lemma_code_round_trip(a: Action, c: int)
    ensures
        a.legal() ==> 1 <= action_code(a) <= 37 && action_of(action_code(a)) == a,
        1 <= c <= 37 ==> action_of(c).legal() && action_code(action_of(c)) == c,
{
}

/// Appending the code `c` to a packed sequence of `n` moves writes it into
/// byte `n`.
pub proof fn lemma_push_code(x: u128, n: nat, c: u128)
    requires
        codes(x).len() == n,
        n < 16,
        1 <= c <= 37,
    ensures
        codes(x | (c << ((8 * n) as u128))) == codes(x).push(c as int),
    decreases n,
{
    let y = x | (c << ((8 * n) as u128));
    if n == 0 {
        assert(x == 0);
        assert(0u128 | (c << 0u128) == c) by (bit_vector);
        assert(c % 256 == c && c / 256 == 0);
        assert(codes(c / 256) =~= Seq::<int>::empty());
        assert(codes(y) =~= seq![c as int]);
        assert(codes(x).push(c as int) =~= seq![c as int]);
    } else {
        let m = (n - 1) as u128;
        assert(x != 0);
        assert(codes(x / 256).len() == n - 1);
        assert((x | (c << (8 * (m + 1)))) % 256 == x % 256 && (x | (c << (8 * (m + 1)))) / 256 == (x
            / 256) | (c << (8 * m)) && (x | (c << (8 * (m + 1)))) != 0) by (bit_vector)
            requires
                m < 15,
                1 <= c <= 37,
        ;
        lemma_push_code(x / 256, (n - 1) as nat, c);
        assert(codes(y) =~= seq![(x % 256) as int] + codes(x / 256).push(c as int));
        assert(codes(x).push(c as int) =~= seq![(x % 256) as int] + codes(x / 256).push(c as int));
    }
}

/// The packed sequence `actions` of `len` moves with the move `a` appended.
pub fn push_action(actions: u128, len: usize, a: &Action) -> (r: u128)
    requires
        packed_ok(actions),
        codes(actions).len() == len,
        len < 16,
        a.legal(),
    ensures
        packed_ok(r),
        unpacked(r) == unpacked(actions).push(*a),
        codes(r).len() == len + 1,
{
    let c = a.to_code() as u128;
    let r = actions | (c << (8 * len));
    proof {
        lemma_push_code(actions, len as nat, c);
        lemma_code_round_trip(*a, 0);
        assert(unpacked(r) =~= unpacked(actions).push(*a));
    }
    r
}

/// The moves of a packed sequence.
pub fn get_actions(actions: u128) -> (v: Vec<Action>)
    requires
        packed_ok(actions),
    ensures
        v@ == unpacked(actions),
        forall|i: int| 0 <= i < v@.len() ==> (#[trigger] v@[i]).legal(),
{
    let mut v: Vec<Action> = Vec::new();
    let mut a = actions;
    while a != 0
        invariant
            packed_ok(actions),
            v@.len() + codes(a).len() == codes(actions).len(),
            forall|i: int| 0 <= i < v@.len() ==> #[trigger] v@[i] == action_of(codes(actions)[i]),
            forall|i: int|
                0 <= i < codes(a).len() ==> #[trigger] codes(a)[i] == codes(actions)[v@.len() + i],
        decreases a,
    {
        assert(a & 0xFF == a % 256 && a >> 8 == a / 256) by (bit_vector);
        let c = (a & 0xFF) as u8;
        proof {
            assert(codes(a)[0] == c);
            assert(1 <= codes(actions)[v@.len() as int] <= 37);
            let rest = codes(a / 256);
            assert forall|i: int| 0 <= i < rest.len() implies #[trigger] rest[i] == codes(actions)[v@.len()
                + 1 + i] by {
                assert(codes(a)[i + 1] == rest[i]);
            }
        }
        v.push(Action::from_code(c));
        a = a >> 8;
    }
    proof {
        assert(v@ =~= unpacked(actions));
    }
    v
}

/// A packed sequence holds the moves that were appended to it, in order:
/// appending a move and unpacking gives the old moves and then the move.
pub proof fn lemma_pack_round_trip(actions: u128, a: Action)
    requires
        packed_ok(actions),
        codes(actions).len() < 16,
        a.legal(),
    ensures
        unpacked(actions | ((action_code(a) as u128) << ((8 * codes(actions).len()) as u128)))
            == unpacked(actions).push(a),
{
    let c = action_code(a) as u128;
    lemma_push_code(actions, codes(actions).len(), c);
    lemma_code_round_trip(a, 0);
    let r = actions | (c << ((8 * codes(actions).len()) as u128));
    assert(unpacked(r) =~= unpacked(actions).push(a));
}

} // verus!
