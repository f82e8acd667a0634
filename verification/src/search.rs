//! What the tree search asks of the battle: the reward of a state, and the
//! choice among scored moves with its reproducible tie-break.

use crate::battle::{Action, Battle};
use crate::chance::{ratio_draw, seeded_rng};
use vstd::prelude::*;

verus! {

/// Maps a state to its reward: the player's health.
#[derive(Clone, Copy, Debug)]
pub struct GameEvaluator;

impl GameEvaluator {
    /// A prior for each move, which says nothing, and the reward of the
    /// state.
    pub fn evaluate_new_state(&self, state: &Battle, moves: &Vec<Action>) -> (evaluation: (
        Vec<()>,
        i64,
    ))
        ensures
            evaluation.0@.len() == moves@.len(),
            evaluation.1 == state.slayer.health,
    {
        let mut priors: Vec<()> = Vec::new();
        let mut count: usize = 0;
        while count < moves.len()
            invariant
                count <= moves@.len(),
                priors@.len() == count,
            decreases moves@.len() - count,
        {
            priors.push(());
            count = count + 1;
        }
        (priors, state.slayer.health as i64)
    }

    /// The reward of a state that was evaluated before: computed anew, the
    /// earlier evaluation is not read.
    pub fn evaluate_existing_state(&self, state: &Battle, existing_evaln: &i64) -> (reward: i64)
        ensures
            reward == state.slayer.health,
    {
        state.slayer.health as i64
    }

    /// The evaluation as the one deciding side sees it: unchanged.
    pub fn interpret_evaluation_for_player(&self, evaluation: &i64, player: &()) -> (reward: i64)
        ensures
            reward == *evaluation,
    {
        *evaluation
    }
}

/// The score of a move: a finite number, or the score above all of them
/// that a move without visits has.
#[derive(Clone, Copy, Debug, PartialEq, Eq, Structural)]
pub enum Score {
    Finite(i64),
    Infinite,
}

/// The place of a score in the order of scores.
pub open spec fn rank(score: Score) -> int {
    match score {
        Score::Finite(value) => value as int,
        Score::Infinite => i64::MAX + 1,
    }
}

/// Whether the first score is above the second.
pub fn above(first: Score, second: Score) -> (higher: bool)
    ensures
        higher == (rank(first) > rank(second)),
{
    match first {
        Score::Infinite => match second {
            Score::Infinite => false,
            Score::Finite(_) => true,
        },
        Score::Finite(value) => match second {
            Score::Infinite => false,
            Score::Finite(other) => value > other,
        },
    }
}

/// The key at `index` is as large as any key of the list.
pub open spec fn is_best(keys: Seq<Score>, index: int) -> bool {
    &&& 0 <= index < keys.len()
    &&& forall|other: int| 0 <= other < keys.len() ==> rank(#[trigger] keys[other]) <= rank(keys[index])
}

/// The keys by which moves are chosen: the infinite score for a move
/// without visits, its own value for every other.
pub open spec fn move_keys(visits: Seq<u64>, values: Seq<i64>) -> Seq<Score> {
    Seq::new(
        visits.len(),
        |index: int|
            if visits[index] == 0 {
                Score::Infinite
            } else {
                Score::Finite(values[index])
            },
    )
}

/// Where one key is above all others, the best key is that one: the choice
/// among such keys does not depend on any draw.
pub proof fn lone_best_is_chosen(keys: Seq<Score>, lone: int, chosen: int)
    requires
        0 <= lone < keys.len(),
        forall|other: int|
            0 <= other < keys.len() && other != lone ==> rank(keys[other]) < rank(keys[lone]),
        is_best(keys, chosen),
    ensures
        chosen == lone,
{
    if chosen != lone {
        assert(rank(keys[chosen]) < rank(keys[lone]));
        assert(rank(keys[lone]) <= rank(keys[chosen]));
    }
}

/// A move without visits is chosen before any move with visits: where the
/// best key belongs to a visited move, every move has visits.
pub proof fn unvisited_goes_first(visits: Seq<u64>, values: Seq<i64>, chosen: int, other: int)
    requires
        visits.len() == values.len(),
        is_best(move_keys(visits, values), chosen),
        0 <= other < visits.len(),
        visits[other] == 0,
    ensures
        visits[chosen] == 0,
{
    let keys = move_keys(visits, values);
    assert(rank(keys[other]) <= rank(keys[chosen]));
}

/// The state of one pass over scored candidates: the choice so far, how
/// many candidates have equalled the best score since it was set, and that
/// score.
#[derive(Clone, Copy, Debug, PartialEq, Eq, Structural)]
pub struct Leader {
    pub choice: Option<usize>,
    pub num_optimal: u32,
    pub best_so_far: Score,
}

/// The pass before its first candidate: no choice, and a best score below
/// which no score lies.
pub open spec fn leader_at_start() -> Leader {
    Leader { choice: None, num_optimal: 0, best_so_far: Score::Finite(i64::MIN) }
}

/// The pass after the candidate at `index` with the given score. A score
/// above the best so far takes the choice and is the first of its kind. A
/// score equal to it is counted, and takes the choice where the draw made
/// for it hit. A score below it changes nothing. The draw is read for an
/// equal score only.
pub open spec fn leader_after(leader: Leader, index: usize, score: Score, hit: bool) -> Leader {
    if rank(score) > rank(leader.best_so_far) {
        Leader { choice: Some(index), num_optimal: 1, best_so_far: score }
    } else if score == leader.best_so_far {
        Leader {
            choice: if hit {
                Some(index)
            } else {
                leader.choice
            },
            num_optimal: (leader.num_optimal + 1) as u32,
            best_so_far: leader.best_so_far,
        }
    } else {
        leader
    }
}

/// The pass has seen the first `seen` keys: its choice is one of them and
/// bears the best score, which no key seen is above.
pub open spec fn leads(leader: Leader, keys: Seq<Score>, seen: int) -> bool {
    &&& leader.num_optimal <= seen
    &&& seen == 0 ==> leader == leader_at_start()
    &&& seen > 0 ==> leader.choice is Some
    &&& leader.choice matches Some(at) ==> at < seen && keys[at as int] == leader.best_so_far
    &&& forall|other: int| 0 <= other < seen ==> rank(#[trigger] keys[other]) <= rank(leader.best_so_far)
}

/// The best score among the keys, and the lowest score of all where there
/// is no key.
pub open spec fn best_of(keys: Seq<Score>) -> Score
    decreases keys.len(),
{
    if keys.len() == 0 {
        Score::Finite(i64::MIN)
    } else {
        let before = best_of(keys.drop_last());
        if rank(keys.last()) > rank(before) {
            keys.last()
        } else {
            before
        }
    }
}

/// The pass over all the keys in order, `hits` holding for each key the
/// outcome of the draw made for it.
pub open spec fn pass_over(keys: Seq<Score>, hits: Seq<bool>) -> Leader
    decreases keys.len(),
{
    if keys.len() == 0 {
        leader_at_start()
    } else {
        leader_after(
            pass_over(keys.drop_last(), hits.drop_last()),
            (keys.len() - 1) as usize,
            keys.last(),
            hits.last(),
        )
    }
}

/// The pass reads the draw made for the key at `at`: the key equals the
/// best of the keys before it.
pub open spec fn draw_is_read(keys: Seq<Score>, at: int) -> bool {
    keys[at] == best_of(keys.take(at))
}

/// Whatever the draws, the best score of a pass is the best of its keys.
pub proof fn pass_tracks_best(keys: Seq<Score>, hits: Seq<bool>)
    requires
        hits.len() == keys.len(),
    ensures
        pass_over(keys, hits).best_so_far == best_of(keys),
    decreases keys.len(),
{
    if keys.len() > 0 {
        pass_tracks_best(keys.drop_last(), hits.drop_last());
    }
}

/// Reproducible selection: two passes over the same keys, whose draws came
/// out alike wherever the pass reads one, end alike and so choose the same
/// candidate.
pub proof fn same_draws_same_choice(keys: Seq<Score>, first: Seq<bool>, second: Seq<bool>)
    requires
        first.len() == keys.len(),
        second.len() == keys.len(),
        forall|at: int|
            0 <= at < keys.len() && #[trigger] draw_is_read(keys, at) ==> first[at] == second[at],
    ensures
        pass_over(keys, first) == pass_over(keys, second),
    decreases keys.len(),
{
    if keys.len() > 0 {
        let shorter = keys.drop_last();
        let last = keys.len() - 1;
        assert forall|at: int| 0 <= at < shorter.len() && #[trigger] draw_is_read(
            shorter,
            at,
        ) implies first.drop_last()[at] == second.drop_last()[at] by {
            assert(shorter.take(at) =~= keys.take(at));
            assert(draw_is_read(keys, at));
        }
        same_draws_same_choice(shorter, first.drop_last(), second.drop_last());
        pass_tracks_best(shorter, first.drop_last());
        assert(keys.take(last) =~= shorter);
        if keys.last() == best_of(shorter) {
            assert(draw_is_read(keys, last));
        }
    }
}

impl Leader {
    pub fn start() -> (leader: Leader)
        ensures
            leader == leader_at_start(),
    {
        Leader { choice: None, num_optimal: 0, best_so_far: Score::Finite(i64::MIN) }
    }

    /// The number of candidates that equal the best score once this one is
    /// counted, where it equals the best score: a draw of one in that many
    /// decides whether it takes the choice.
    pub fn odds(&self, score: Score) -> (odds: Option<u32>)
        requires
            self.num_optimal < u32::MAX,
        ensures
            odds is Some <==> score == self.best_so_far,
            odds matches Some(one_in) ==> one_in == self.num_optimal + 1,
    {
        if score == self.best_so_far {
            Some(self.num_optimal + 1)
        } else {
            None
        }
    }

    /// The pass after one more candidate, `hit` being the outcome of the
    /// draw made for it.
    pub fn meet(self, index: usize, score: Score, hit: bool) -> (leader: Leader)
        requires
            self.num_optimal < u32::MAX,
        ensures
            leader == leader_after(self, index, score, hit),
    {
        if above(score, self.best_so_far) {
            Leader { choice: Some(index), num_optimal: 1, best_so_far: score }
        } else if score == self.best_so_far {
            Leader {
                choice: if hit {
                    Some(index)
                } else {
                    self.choice
                },
                num_optimal: self.num_optimal + 1,
                best_so_far: self.best_so_far,
            }
        } else {
            self
        }
    }
}

/// One more candidate keeps the pass in the lead over what it has seen,
/// provided that the draw for the first candidate to equal the best score
/// hit, as a draw of one in one does.
pub proof fn meeting_keeps_lead(leader: Leader, keys: Seq<Score>, seen: int, hit: bool)
    requires
        leads(leader, keys, seen),
        0 <= seen < keys.len(),
        seen < u32::MAX,
        leader.num_optimal == 0 && keys[seen] == leader.best_so_far ==> hit,
    ensures
        leads(leader_after(leader, seen as usize, keys[seen], hit), keys, seen + 1),
{
    let next = leader_after(leader, seen as usize, keys[seen], hit);
    assert forall|other: int| 0 <= other < seen + 1 implies rank(#[trigger] keys[other]) <= rank(
        next.best_so_far,
    ) by {
        if other < seen {
            assert(rank(keys[other]) <= rank(leader.best_so_far));
        }
    }
}

/// The seed that every tie-breaking generator starts from: the bytes 1, 2,
/// 3, 4, four times over.
pub open spec fn fixed_seed() -> Seq<u8> {
    seq![1u8, 2u8, 3u8, 4u8, 1u8, 2u8, 3u8, 4u8, 1u8, 2u8, 3u8, 4u8, 1u8, 2u8, 3u8, 4u8]
}

/// The generator that breaks ties between equally good moves, with the seed
/// that it was made from. Every one starts from the same seed.
#[derive(Clone)]
pub struct PolicyRng {
    seed: [u8; 16],
    rng: rand::prng::XorShiftRng,
}

impl Default for PolicyRng {
    fn default() -> (policy: Self)
        ensures
            policy.seeded_from() == fixed_seed(),
    {
        Self::new()
    }
}

impl PolicyRng {
    /// The seed that was handed to the generator when it was made.
    pub closed spec fn seeded_from(&self) -> Seq<u8> {
        self.seed@
    }

    /// A generator at the start of its sequence, made from the fixed seed
    /// and not from entropy.
    pub fn new() -> (policy: Self)
        ensures
            policy.seeded_from() == fixed_seed(),
    {
        let seed: [u8; 16] = [1, 2, 3, 4, 1, 2, 3, 4, 1, 2, 3, 4, 1, 2, 3, 4];
        assert(seed@ =~= fixed_seed());
        PolicyRng { seed, rng: seeded_rng(seed) }
    }

    /// The seed that the generator was made from.
    pub fn seed(&self) -> (seed: [u8; 16])
        ensures
            seed@ == self.seeded_from(),
    {
        self.seed
    }

    /// The position of a largest key, or nothing where there is no key. In
    /// one pass, as `leader_after` describes it: the `k`-th key that equals
    /// the best so far takes the choice where a draw of one in `k` hits.
    pub fn select_by_key(&mut self, keys: &Vec<Score>) -> (choice: Option<usize>)
        requires
            keys@.len() <= u32::MAX,
        ensures
            choice is None <==> keys@.len() == 0,
            choice matches Some(index) ==> is_best(keys@, index as int),
            exists|hits: Seq<bool>|
                hits.len() == keys@.len() && choice == (#[trigger] pass_over(keys@, hits)).choice,
            final(self).seeded_from() == old(self).seeded_from(),
    {
        let mut leader = Leader::start();
        let mut index: usize = 0;
        let ghost mut hits: Seq<bool> = Seq::empty();
        while index < keys.len()
            invariant
                index <= keys@.len() <= u32::MAX,
                leads(leader, keys@, index as int),
                hits.len() == index,
                leader == pass_over(keys@.take(index as int), hits),
                self.seeded_from() == old(self).seeded_from(),
            decreases keys@.len() - index,
        {
            let score = keys[index];
            let hit = match leader.odds(score) {
                Some(one_in) => ratio_draw(&mut self.rng, 1, one_in),
                None => false,
            };
            proof {
                meeting_keeps_lead(leader, keys@, index as int, hit);
                assert(keys@.take(index + 1).drop_last() =~= keys@.take(index as int));
                assert(hits.push(hit).drop_last() =~= hits);
                hits = hits.push(hit);
            }
            leader = leader.meet(index, score, hit);
            index = index + 1;
        }
        proof {
            assert(keys@.take(index as int) =~= keys@);
        }
        leader.choice
    }

    /// The move to try next: one without visits where there is one, else one
    /// of the highest value; ties are broken as `select_by_key` breaks them.
    /// `values` holds, for each visited move, the rank of its score.
    pub fn choose_child(&mut self, visits: &Vec<u64>, values: &Vec<i64>) -> (choice: Option<usize>)
        requires
            visits@.len() == values@.len(),
            visits@.len() <= u32::MAX,
        ensures
            choice is None <==> visits@.len() == 0,
            choice matches Some(index) ==> is_best(move_keys(visits@, values@), index as int),
            choice matches Some(index) ==> ((exists|other: int|
                0 <= other < visits@.len() && visits@[other] == 0) ==> visits@[index as int] == 0),
            exists|hits: Seq<bool>|
                hits.len() == visits@.len() && choice == (#[trigger] pass_over(
                    move_keys(visits@, values@),
                    hits,
                )).choice,
            final(self).seeded_from() == old(self).seeded_from(),
    {
        let mut keys: Vec<Score> = Vec::new();
        let mut index: usize = 0;
        while index < visits.len()
            invariant
                index <= visits@.len() == values@.len(),
                keys@ == move_keys(visits@, values@).take(index as int),
            decreases visits@.len() - index,
        {
            let key = if visits[index] == 0 {
                Score::Infinite
            } else {
                Score::Finite(values[index])
            };
            keys.push(key);
            assert(keys@ =~= move_keys(visits@, values@).take(index + 1));
            index = index + 1;
        }
        assert(keys@ =~= move_keys(visits@, values@));
        let choice = self.select_by_key(&keys);
        proof {
            if let Some(chosen) = choice {
                if exists|other: int| 0 <= other < visits@.len() && visits@[other] == 0 {
                    let other = choose|other: int| 0 <= other < visits@.len() && visits@[other] == 0;
                    unvisited_goes_first(visits@, values@, chosen as int, other);
                }
            }
        }
        choice
    }
}

} // verus!
