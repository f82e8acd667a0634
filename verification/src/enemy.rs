//! The opponent: its numbers, its history of intents and the weighted choice
//! of the next one.

use crate::actor::{damaged, scale, Actor, Vitals};
use crate::card::{Effect, EffectPair, Target};
use crate::chance::{entropy_rng, weight_sum, weighted_pick};
use vstd::prelude::*;

verus! {

/// The scripted opponent.
#[derive(Clone, Debug)]
pub struct JawWorm {
    pub health: i32,
    pub block: i32,
    pub strength: i32,
    pub weak: i32,
    /// The ids of the intents chosen so far, oldest first.
    pub last_actions: Vec<usize>,
    /// The effects of the intent that waits for the opponent's turn.
    pub queue: Vec<EffectPair>,
}

/// The weights of the three intents after a history: 45, 30 and 25, with at
/// most one of them taken out. Two buffs in a row exclude a third; else two
/// heavy attacks in a row exclude a third; else three attacks with block in
/// a row exclude a fourth.
pub open spec fn intent_weights(history: Seq<usize>) -> Seq<u32> {
    let n = history.len() as int;
    if n >= 2 && history[n - 1] == 2 && history[n - 2] == 2 {
        seq![45u32, 30u32, 0u32]
    } else if n >= 2 && history[n - 1] == 0 && history[n - 2] == 0 {
        seq![0u32, 30u32, 25u32]
    } else if n >= 3 && history[n - 1] == 1 && history[n - 2] == 1 && history[n - 3] == 1 {
        seq![45u32, 0u32, 25u32]
    } else {
        seq![45u32, 30u32, 25u32]
    }
}

/// An intent that the weighted draw can return after a history.
pub open spec fn intent_allowed(history: Seq<usize>, id: int) -> bool {
    0 <= id < 3 && intent_weights(history)[id] > 0
}

/// The effects of an intent, in the order in which they resolve.
pub open spec fn intent_effects(id: int) -> Seq<EffectPair> {
    if id == 0 {
        seq![EffectPair { effect: Effect::Attack(12), target: Target::Single }]
    } else if id == 1 {
        seq![
            EffectPair { effect: Effect::Attack(7), target: Target::Single },
            EffectPair { effect: Effect::Block(5), target: Target::Player },
        ]
    } else if id == 2 {
        seq![
            EffectPair { effect: Effect::Strength(5), target: Target::Player },
            EffectPair { effect: Effect::Block(9), target: Target::Player },
        ]
    } else {
        Seq::empty()
    }
}

/// The weights of the three intents after a history.
pub fn weights_after(history: &Vec<usize>) -> (weights: Vec<u32>)
    ensures
        weights@ == intent_weights(history@),
{
    let count = history.len();
    let mut heavy: u32 = 45;
    let mut mixed: u32 = 30;
    let mut buff: u32 = 25;
    if count >= 2 {
        if history[count - 1] == 2 && history[count - 2] == 2 {
            buff = buff - 25;
        } else if history[count - 1] == 0 && history[count - 2] == 0 {
            heavy = heavy - 45;
        } else if count >= 3 && history[count - 1] == 1 && history[count - 2] == 1 && history[count
            - 3] == 1 {
            mixed = mixed - 30;
        }
    }
    let mut weights: Vec<u32> = Vec::new();
    weights.push(heavy);
    weights.push(mixed);
    weights.push(buff);
    assert(weights@ =~= intent_weights(history@));
    weights
}

/// After any history the weights add up to at least 55 and at most 100, so a
/// weighted draw is always possible.
pub proof fn weights_leave_a_choice(history: Seq<usize>)
    ensures
        intent_weights(history).len() == 3,
        55 <= weight_sum(intent_weights(history)) <= 100,
{
    let w = intent_weights(history);
    assert(w.drop_last().drop_last().drop_last().len() == 0);
    reveal_with_fuel(weight_sum, 4);
}

/// No intent is repeated beyond its limit: an intent that the weights allow
/// is never a third buff in a row, a third heavy attack in a row, or a
/// fourth attack with block in a row.
pub proof fn repetition_excluded(history: Seq<usize>, id: int)
    requires
        intent_allowed(history, id),
    ensures
        ({
            let n = history.len() as int;
            &&& n >= 2 && history[n - 1] == 2 && history[n - 2] == 2 ==> id != 2
            &&& n >= 2 && history[n - 1] == 0 && history[n - 2] == 0 ==> id != 0
            &&& n >= 3 && history[n - 1] == 1 && history[n - 2] == 1 && history[n - 3] == 1 ==> id
                != 1
        }),
{
}

impl Actor for JawWorm {
    open spec fn vitals(&self) -> Vitals {
        Vitals {
            health: self.health as int,
            block: self.block as int,
            strength: self.strength as int,
            weak: self.weak as int,
        }
    }

    fn take_damage(&mut self, raw_damage: i32)
        ensures
            final(self).last_actions == old(self).last_actions,
            final(self).queue == old(self).queue,
    {
        let after = damaged(self.health, self.block, raw_damage);
        self.health = after.0;
        self.block = after.1;
    }

    fn compute_damage(&self, raw_damage: i32) -> (damage: i32) {
        raw_damage
    }

    fn add_block(&mut self, block: i32)
        ensures
            final(self).last_actions == old(self).last_actions,
            final(self).queue == old(self).queue,
    {
        self.block = self.block + block;
    }

    fn add_strength(&mut self, strength: i32)
        ensures
            final(self).last_actions == old(self).last_actions,
            final(self).queue == old(self).queue,
    {
        self.strength = self.strength + strength;
    }

    fn add_weak(&mut self, weak: i32)
        ensures
            final(self).last_actions == old(self).last_actions,
            final(self).queue == old(self).queue,
    {
        self.weak = self.weak + weak;
    }

    fn scale_attack(&self, base: i32) -> (scaled: i32) {
        scale(base, self.strength, self.weak)
    }
}

impl JawWorm {
    /// Records a drawn intent: the id joins the history and its effects join
    /// the queue. An id that names no intent joins the history alone.
    pub fn record_intent(&mut self, id: usize)
        ensures
            final(self).last_actions@ == old(self).last_actions@.push(id),
            final(self).queue@ == old(self).queue@ + intent_effects(id as int),
            final(self).vitals() == old(self).vitals(),
    {
        self.last_actions.push(id);
        if id == 0 {
            self.queue.push(EffectPair::new_single(Effect::Attack(12)));
        } else if id == 1 {
            self.queue.push(EffectPair::new_single(Effect::Attack(7)));
            self.queue.push(EffectPair::new_player(Effect::Block(5)));
        } else if id == 2 {
            self.queue.push(EffectPair::new_player(Effect::Strength(5)));
            self.queue.push(EffectPair::new_player(Effect::Block(9)));
        }
        assert(self.queue@ =~= old(self).queue@ + intent_effects(id as int));
    }

    /// Draws the next intent by the weights that the history leaves, and
    /// records it. Which of the allowed intents is drawn is left to chance.
    pub fn set_intent(&mut self)
        ensures
            final(self).last_actions@.len() == old(self).last_actions@.len() + 1,
            final(self).last_actions@.drop_last() == old(self).last_actions@,
            intent_allowed(old(self).last_actions@, final(self).last_actions@.last() as int),
            final(self).queue@ == old(self).queue@ + intent_effects(
                final(self).last_actions@.last() as int,
            ),
            final(self).vitals() == old(self).vitals(),
    {
        let weights = weights_after(&self.last_actions);
        proof {
            weights_leave_a_choice(self.last_actions@);
        }
        let mut rng = entropy_rng();
        match weighted_pick(&mut rng, &weights) {
            Some(id) => {
                self.record_intent(id);
                assert(self.last_actions@.drop_last() =~= old(self).last_actions@);
            },
            None => {
                assert(false);
            },
        }
    }

    /// Hands out the queued effects and leaves the queue empty.
    pub fn act(&mut self) -> (effects: Vec<EffectPair>)
        ensures
            effects@ == old(self).queue@,
            final(self).queue@.len() == 0,
            final(self).last_actions == old(self).last_actions,
            final(self).vitals() == old(self).vitals(),
    {
        let mut effects: Vec<EffectPair> = Vec::new();
        core::mem::swap(&mut effects, &mut self.queue);
        effects
    }
}

} // verus!
