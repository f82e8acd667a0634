//! The battle: four piles of cards, the two actors and the queue of forced
//! actions, with the rules by which a move changes them.

use crate::actor::{
    damaged, difference_ready, fits_i32, hit_ready, scale, sum_ready, Actor, Player, Vitals,
};
use crate::card::{card_effects, effects_of, Card, Effect, EffectPair, Target, CATALOG_LEN};
use crate::enemy::{intent_allowed, intent_effects, JawWorm};
use crate::field::{
    after_effect, effect_fits, effects_fit, effects_keep_cards, field_after, is_path, linked,
    piles_after, piles_step, side_vitals, step_fits, Field,
};
use crate::piles::{
    all_cards, card_count, cards_are_counted, draw_keeps_cards, drew, hand_dropped, move_sampled,
    moved, reshuffled, swap_remove_keeps_rest, without_slot, Piles,
};
use vstd::multiset::Multiset;
use vstd::prelude::*;
use vstd::seq_lib::{lemma_multiset_commutative, to_multiset_build, to_multiset_len};

verus! {

/// A move of the player.
#[derive(Clone, Copy, Debug, PartialEq, Eq, Structural)]
pub enum Action {
    /// Play the card in the given slot of the hand.
    Play(usize),
    /// Play the card in the given slot at the given entity. Reserved: no
    /// card of the catalog asks for a target.
    TargetPlay(usize, usize),
    /// Discard the card in the given slot of the hand; as a queue entry, the
    /// number of cards still to discard.
    Discard(usize),
    EndTurn,
}

/// One encounter: the player's four piles of cards, both actors, and the
/// queue of actions that the player is forced to take before any other.
#[derive(Clone, Debug)]
pub struct Battle {
    pub hand: Vec<Card>,
    pub draw: Vec<Card>,
    pub discard: Vec<Card>,
    pub exhaust: Vec<Card>,
    pub enemy: JawWorm,
    pub slayer: Player,
    pub queue: Vec<Action>,
}

/// Health of the player at the start of a battle.
pub const PLAYER_HEALTH: i32 = 100;

/// Health of the opponent at the start of a battle.
pub const ENEMY_HEALTH: i32 = 44;

/// Energy of the player at the start of every turn.
pub const TURN_ENERGY: i32 = 3;

/// Cards drawn at the start of every turn.
pub const HAND_SIZE: usize = 5;

/// The plays that the energy allows: one for each slot whose card costs no
/// more, in the order of the slots.
pub open spec fn affordable(hand: Seq<Card>, energy: int) -> Seq<Action>
    decreases hand.len(),
{
    if hand.len() == 0 {
        Seq::empty()
    } else {
        let before = affordable(hand.drop_last(), energy);
        if hand.last().cost <= energy {
            before.push(Action::Play((hand.len() - 1) as usize))
        } else {
            before
        }
    }
}

/// A discard for each of `slots` slots of the hand, in their order.
pub open spec fn discards(slots: nat) -> Seq<Action> {
    Seq::new(slots, |slot: int| Action::Discard(slot as usize))
}

/// `after` is what playing the card in `slot` can make of `before`: the card
/// leaves the hand, its effects resolve in order with the player as their
/// source, its cost is taken from the energy, and it ends on top of the
/// discard pile.
pub open spec fn played(before: &Battle, after: &Battle, slot: int) -> bool {
    let card = before.hand@[slot];
    let effects = effects_of(card.id as int);
    let start = Piles { hand: without_slot(before.hand@, slot), ..before.piles() };
    let resolved = Piles { discard: after.discard@.drop_last(), ..after.piles() };
    &&& after.discard@.len() > 0
    &&& after.discard@.last() == card
    &&& piles_after(start, effects, resolved)
    &&& after.field() == field_after(before.field(), effects, 0)
    &&& after.slayer.energy == before.slayer.energy - card.cost
    &&& after.enemy.last_actions == before.enemy.last_actions
    &&& after.enemy.queue == before.enemy.queue
}

/// `after` is `before` with the card in `slot` discarded and one discard
/// less owed at the head of the queue; a head that owes no more is dropped.
pub open spec fn discarded(before: &Battle, after: &Battle, slot: int) -> bool {
    &&& after.hand@ == without_slot(before.hand@, slot)
    &&& after.discard@ == before.discard@.push(before.hand@[slot])
    &&& after.draw == before.draw
    &&& after.exhaust == before.exhaust
    &&& after.slayer == before.slayer
    &&& after.enemy == before.enemy
    &&& after.queue@ == match before.queue@[0] {
        Action::Discard(count) => if count > 1 {
            before.queue@.update(0, Action::Discard((count - 1) as usize))
        } else {
            before.queue@.remove(0)
        },
        _ => before.queue@,
    }
}

/// `after` is what ending the turn can make of `before`: the opponent's
/// queued effects resolve in order with the opponent as their source, the
/// hand goes onto the discard pile, five cards are drawn, the energy is
/// back at its start, both blocks are 0, and the opponent has drawn and
/// queued its next intent.
pub open spec fn turn_ended(before: &Battle, after: &Battle) -> bool {
    let effects = before.enemy.queue@;
    let f = field_after(before.field(), effects, 1);
    let id = after.enemy.last_actions@.last() as int;
    &&& exists|mid: Piles|
        #![trigger piles_after(before.piles(), effects, mid)]
        piles_after(before.piles(), effects, mid) && drew(
            hand_dropped(mid),
            after.piles(),
            HAND_SIZE as nat,
        )
    &&& after.slayer.vitals() == Vitals { block: 0, ..f.player }
    &&& after.slayer.energy == TURN_ENERGY
    &&& after.enemy.vitals() == Vitals { block: 0, ..f.enemy }
    &&& after.queue@ == f.pending
    &&& after.enemy.last_actions@.len() == before.enemy.last_actions@.len() + 1
    &&& after.enemy.last_actions@.drop_last() == before.enemy.last_actions@
    &&& intent_allowed(before.enemy.last_actions@, id)
    &&& after.enemy.queue@ == intent_effects(id)
}

/// `after` is what the move can make of `before`.
pub open spec fn move_made(before: &Battle, after: &Battle, mov: Action) -> bool {
    match mov {
        Action::Play(slot) => played(before, after, slot as int),
        Action::Discard(slot) => discarded(before, after, slot as int),
        Action::EndTurn => turn_ended(before, after),
        Action::TargetPlay(_, _) => false,
    }
}

/// A battle is without a legal move exactly when it is over, unless a
/// discard is owed from an empty hand.
pub proof fn no_move_means_over(battle: &Battle)
    requires
        battle.queue@.len() == 0 || battle.hand@.len() > 0,
    ensures
        battle.legal_moves().len() == 0 <==> battle.is_terminal(),
{
}

/// While a discard is owed and the battle goes on, the legal moves are the
/// discards and nothing else.
pub proof fn queue_forces_moves(battle: &Battle, index: int)
    requires
        !battle.is_terminal(),
        battle.queue@.len() > 0,
        0 <= index < battle.legal_moves().len(),
    ensures
        battle.legal_moves().len() == battle.hand@.len(),
        battle.legal_moves()[index] == Action::Discard(index as usize),
{
}

/// The move names a card of the hand where it names one.
pub open spec fn slot_in_hand(before: &Battle, mov: Action) -> bool {
    match mov {
        Action::Play(slot) => slot < before.hand@.len(),
        Action::Discard(slot) => slot < before.hand@.len(),
        _ => true,
    }
}

/// A move only moves cards: whatever it makes of a battle, the four piles
/// together hold the same cards before and after, and the exhaust pile is
/// untouched.
pub proof fn move_keeps_cards(before: &Battle, after: &Battle, mov: Action)
    requires
        slot_in_hand(before, mov),
        move_made(before, after, mov),
    ensures
        all_cards(after.piles()) == all_cards(before.piles()),
        card_count(after.piles()) == card_count(before.piles()),
        after.exhaust@ == before.exhaust@,
{
    broadcast use vstd::multiset::group_multiset_axioms;

    cards_are_counted(before.piles());
    cards_are_counted(after.piles());
    match mov {
        Action::Play(slot) => {
            let card = before.hand@[slot as int];
            let start = Piles { hand: without_slot(before.hand@, slot as int), ..before.piles() };
            let resolved = Piles { discard: after.discard@.drop_last(), ..after.piles() };
            effects_keep_cards(start, effects_of(card.id as int), resolved);
            swap_remove_keeps_rest(before.hand@, slot as int);
            assert(resolved.discard.push(card) =~= after.discard@);
            to_multiset_build(resolved.discard, card);
            assert(all_cards(after.piles()) =~= all_cards(resolved).insert(card));
            assert(all_cards(before.piles()) =~= all_cards(start).insert(card));
        },
        Action::Discard(slot) => {
            swap_remove_keeps_rest(before.hand@, slot as int);
            to_multiset_build(before.discard@, before.hand@[slot as int]);
            assert(all_cards(after.piles()) =~= all_cards(before.piles()));
        },
        Action::EndTurn => {
            let effects = before.enemy.queue@;
            let mid = choose|mid: Piles|
                #![trigger piles_after(before.piles(), effects, mid)]
                piles_after(before.piles(), effects, mid) && drew(
                    hand_dropped(mid),
                    after.piles(),
                    HAND_SIZE as nat,
                );
            effects_keep_cards(before.piles(), effects, mid);
            lemma_multiset_commutative(mid.discard, mid.hand);
            assert(Seq::<Card>::empty().to_multiset() =~= Multiset::<Card>::empty()) by {
                to_multiset_len(Seq::<Card>::empty());
                vstd::multiset::lemma_multiset_empty_len(Seq::<Card>::empty().to_multiset());
            }
            assert(all_cards(hand_dropped(mid)) =~= all_cards(mid));
            draw_keeps_cards(hand_dropped(mid), after.piles(), HAND_SIZE as nat);
        },
        Action::TargetPlay(_, _) => {},
    }
}

/// Step `index` of a game: the move at `index` makes the next state of the
/// state at `index`.
pub open spec fn step_made(states: Seq<Battle>, moves: Seq<Action>, index: int) -> bool {
    &&& slot_in_hand(&states[index], moves[index])
    &&& move_made(&states[index], &states[index + 1], moves[index])
}

/// The states are those of a game in which the moves were made in order.
pub open spec fn is_game(states: Seq<Battle>, moves: Seq<Action>) -> bool {
    &&& states.len() == moves.len() + 1
    &&& forall|index: int| 0 <= index < moves.len() ==> #[trigger] step_made(states, moves, index)
}

/// Card conservation: after any sequence of moves the four piles together
/// hold the cards they held at the start, as many as at the start, and the
/// exhaust pile is as it was.
pub proof fn moves_keep_cards(states: Seq<Battle>, moves: Seq<Action>, upto: int)
    requires
        is_game(states, moves),
        0 <= upto <= moves.len(),
    ensures
        all_cards(states[upto].piles()) == all_cards(states[0].piles()),
        card_count(states[upto].piles()) == card_count(states[0].piles()),
        states[upto].exhaust@ == states[0].exhaust@,
    decreases upto,
{
    if upto > 0 {
        moves_keep_cards(states, moves, upto - 1);
        assert(step_made(states, moves, upto - 1));
        move_keeps_cards(&states[upto - 1], &states[upto], moves[upto - 1]);
    }
}

/// The numbers of one actor while a move is tried out.
#[derive(Clone, Copy)]
struct Numbers {
    health: i32,
    block: i32,
    strength: i32,
    weak: i32,
}

impl Numbers {
    spec fn vitals(&self) -> Vitals {
        Vitals {
            health: self.health as int,
            block: self.block as int,
            strength: self.strength as int,
            weak: self.weak as int,
        }
    }
}

impl Battle {
    pub open spec fn piles(&self) -> Piles {
        Piles {
            hand: self.hand@,
            draw: self.draw@,
            discard: self.discard@,
            exhaust: self.exhaust@,
        }
    }


    pub open spec fn field(&self) -> Field {
        Field { player: self.slayer.vitals(), enemy: self.enemy.vitals(), pending: self.queue@ }
    }

    /// What effects never touch: the player's energy, and the opponent's
    /// history and queued intent.
    pub open spec fn same_rest(&self, other: &Battle) -> bool {
        &&& self.slayer.energy == other.slayer.energy
        &&& self.enemy.last_actions == other.enemy.last_actions
        &&& self.enemy.queue == other.enemy.queue
    }

    /// Moves the whole hand onto the discard pile.
    pub fn end_discard(&mut self)
        ensures
            final(self).discard@ == old(self).discard@ + old(self).hand@,
            final(self).hand@.len() == 0,
            final(self).draw == old(self).draw,
            final(self).exhaust == old(self).exhaust,
            final(self).enemy == old(self).enemy,
            final(self).slayer == old(self).slayer,
            final(self).queue == old(self).queue,
    {
        self.discard.append(&mut self.hand);
    }

    /// Resolves one effect of the side `source_id` against the side
    /// `target_id`; side 0 is the player, every other the opponent.
    pub fn apply_effect(&mut self, eff: &Effect, source_id: usize, target_id: usize)
        requires
            effect_fits(old(self).field(), *eff, source_id as int, target_id as int),
        ensures
            final(self).field() == after_effect(
                old(self).field(),
                *eff,
                source_id as int,
                target_id as int,
            ),
            piles_step(old(self).piles(), final(self).piles(), *eff),
            final(self).same_rest(old(self)),
            card_count(final(self).piles()) == card_count(old(self).piles()),
            all_cards(final(self).piles()) == all_cards(old(self).piles()),
    {
        match *eff {
            Effect::Attack(damage) => {
                let scaled = if source_id == 0 {
                    self.slayer.scale_attack(damage)
                } else {
                    self.enemy.scale_attack(damage)
                };
                if target_id == 0 {
                    self.slayer.take_damage(scaled);
                } else {
                    self.enemy.take_damage(scaled);
                }
            },
            Effect::Block(block) => {
                if target_id == 0 {
                    self.slayer.add_block(block);
                } else {
                    self.enemy.add_block(block);
                }
            },
            Effect::Weak(weak) => {
                if target_id == 0 {
                    self.slayer.add_weak(weak);
                } else {
                    self.enemy.add_weak(weak);
                }
            },
            Effect::Strength(strength) => {
                if target_id == 0 {
                    self.slayer.add_strength(strength);
                } else {
                    self.enemy.add_strength(strength);
                }
            },
            Effect::Discard(count) => {
                self.queue.push(Action::Discard(count));
            },
            Effect::Draw(count) => {
                self.draw_cards(count);
            },
        }
    }

    /// Resolves a list of effects of one side in order. A target of
    /// `Player` is the side itself, a target of `Single` the side opposite.
    pub fn resolve_effects(&mut self, effects: &Vec<EffectPair>, source_id: usize)
        requires
            effects_fit(old(self).field(), effects@, source_id as int),
        ensures
            final(self).field() == field_after(old(self).field(), effects@, source_id as int),
            piles_after(old(self).piles(), effects@, final(self).piles()),
            final(self).same_rest(old(self)),
            card_count(final(self).piles()) == card_count(old(self).piles()),
            all_cards(final(self).piles()) == all_cards(old(self).piles()),
            final(self).exhaust@ == old(self).exhaust@,
    {
        let mut index: usize = 0;
        let ghost mut path: Seq<Piles> = seq![self.piles()];
        while index < effects.len()
            invariant
                index <= effects@.len(),
                is_path(path, old(self).piles(), effects@.take(index as int), self.piles()),
                effects_fit(old(self).field(), effects@, source_id as int),
                self.field() == field_after(
                    old(self).field(),
                    effects@.take(index as int),
                    source_id as int,
                ),
                self.same_rest(old(self)),
            decreases effects@.len() - index,
        {
            assert(step_fits(old(self).field(), effects@, source_id as int, index as int));
            let pair = effects[index];
            let target_id: usize = match pair.target {
                Target::Player => source_id,
                Target::Single => if source_id == 0 {
                    1
                } else {
                    0
                },
                Target::Multi => vstd::pervasive::unreached(),
            };
            self.apply_effect(&pair.effect, source_id, target_id);
            proof {
                let done = effects@.take(index as int);
                let next = effects@.take(index + 1);
                let longer = path.push(self.piles());
                assert(next.drop_last() =~= done);
                assert(next.last() == pair);
                assert forall|at: int| 0 <= at < next.len() implies #[trigger] linked(
                    longer,
                    next,
                    at,
                ) by {
                    if at < index {
                        assert(linked(path, done, at));
                    }
                }
                path = longer;
            }
            index = index + 1;
        }
        proof {
            assert(effects@.take(index as int) =~= effects@);
            effects_keep_cards(old(self).piles(), effects@, self.piles());
        }
    }


    /// The battle is over: one of the two actors has no health left.
    pub open spec fn is_terminal(&self) -> bool {
        self.enemy.health <= 0 || self.slayer.health <= 0
    }

    /// The legal moves. None once the battle is over. With an empty queue,
    /// a play for every card that the energy allows, then the end of the
    /// turn. With a queue, what its head forces: a discard for every card of
    /// the hand.
    pub open spec fn legal_moves(&self) -> Seq<Action> {
        if self.is_terminal() {
            Seq::empty()
        } else if self.queue@.len() == 0 {
            affordable(self.hand@, self.slayer.energy as int).push(Action::EndTurn)
        } else {
            discards(self.hand@.len())
        }
    }

    /// The move can be made: it names a card of the hand where it names one,
    /// a discard is owed where it discards, and the effects it sets off can
    /// be resolved in machine integers.
    pub open spec fn move_fits(&self, mov: Action) -> bool {
        match mov {
            Action::Play(slot) => {
                &&& slot < self.hand@.len()
                &&& self.hand@[slot as int].id < CATALOG_LEN
                &&& effects_fit(self.field(), effects_of(self.hand@[slot as int].id as int), 0)
                &&& fits_i32(self.slayer.energy - self.hand@[slot as int].cost)
            },
            Action::Discard(slot) => {
                &&& slot < self.hand@.len()
                &&& self.queue@.len() > 0
                &&& match self.queue@[0] {
                    Action::Discard(count) => count >= 1,
                    _ => false,
                }
            },
            Action::EndTurn => effects_fit(self.field(), self.enemy.queue@, 1),
            Action::TargetPlay(_, _) => false,
        }
    }

    /// A battle over the given deck: five of its cards, chosen at random,
    /// are the hand and the rest is the draw pile; both actors are fresh and
    /// the opponent has drawn its first intent.
    pub fn new(deck: Vec<Card>) -> (battle: Battle)
        requires
            deck@.len() >= HAND_SIZE,
        ensures
            moved(deck@, Seq::empty(), battle.draw@, battle.hand@, HAND_SIZE as nat),
            battle.discard@.len() == 0,
            battle.exhaust@.len() == 0,
            battle.queue@.len() == 0,
            battle.slayer == (Player {
                health: PLAYER_HEALTH,
                block: 0,
                strength: 0,
                weak: 0,
                energy: TURN_ENERGY,
            }),
            battle.enemy.vitals() == (Vitals { health: ENEMY_HEALTH as int, block: 0, strength: 0, weak: 0 }),
            battle.enemy.last_actions@.len() == 1,
            intent_allowed(Seq::empty(), battle.enemy.last_actions@[0] as int),
            battle.enemy.queue@ == intent_effects(battle.enemy.last_actions@[0] as int),
    {
        let mut deck = deck;
        let mut hand: Vec<Card> = Vec::new();
        move_sampled(&mut deck, &mut hand, HAND_SIZE);
        let mut enemy = JawWorm {
            health: ENEMY_HEALTH,
            block: 0,
            strength: 0,
            weak: 0,
            last_actions: Vec::new(),
            queue: Vec::new(),
        };
        enemy.set_intent();
        let slayer = Player {
            health: PLAYER_HEALTH,
            block: 0,
            strength: 0,
            weak: 0,
            energy: TURN_ENERGY,
        };
        proof {
            assert(enemy.last_actions@.drop_last() =~= Seq::<usize>::empty());
            assert(enemy.queue@ =~= intent_effects(enemy.last_actions@[0] as int));
        }
        Battle {
            hand,
            draw: deck,
            discard: Vec::new(),
            exhaust: Vec::new(),
            enemy,
            slayer,
            queue: Vec::new(),
        }
    }

    /// Whether the battle is over.
    pub fn is_over(&self) -> (over: bool)
        ensures
            over == self.is_terminal(),
    {
        self.enemy.health <= 0 || self.slayer.health <= 0
    }

    /// The side that decides: there is one.
    pub fn current_player(&self) {
    }

    /// The legal moves, in order.
    pub fn available_moves(&self) -> (moves: Vec<Action>)
        requires
            self.is_terminal() || self.queue@.len() == 0 || self.queue@[0] is Discard,
        ensures
            moves@ == self.legal_moves(),
    {
        let mut actions: Vec<Action> = Vec::new();
        if self.is_over() {
            return actions;
        }
        if self.queue.is_empty() {
            let max_cost = self.slayer.energy;
            let mut slot: usize = 0;
            while slot < self.hand.len()
                invariant
                    slot <= self.hand@.len(),
                    max_cost == self.slayer.energy,
                    actions@ == affordable(self.hand@.take(slot as int), max_cost as int),
                decreases self.hand@.len() - slot,
            {
                proof {
                    let next = self.hand@.take(slot + 1);
                    assert(next.drop_last() =~= self.hand@.take(slot as int));
                    assert(next.last() == self.hand@[slot as int]);
                }
                if self.hand[slot].cost <= max_cost {
                    actions.push(Action::Play(slot));
                }
                slot = slot + 1;
            }
            assert(self.hand@.take(slot as int) =~= self.hand@);
            actions.push(Action::EndTurn);
        } else {
            let mut slot: usize = 0;
            while slot < self.hand.len()
                invariant
                    slot <= self.hand@.len(),
                    actions@ == discards(slot as nat),
                decreases self.hand@.len() - slot,
            {
                actions.push(Action::Discard(slot));
                assert(actions@ =~= discards((slot + 1) as nat));
                slot = slot + 1;
            }
        }
        actions
    }

    /// Whether the effects can be resolved in machine integers, found by
    /// running them on a copy of the actors' numbers.
    pub fn effects_ready(&self, effects: &Vec<EffectPair>, source_id: usize) -> (ready: bool)
        ensures
            ready == effects_fit(self.field(), effects@, source_id as int),
    {
        let mut player = Numbers {
            health: self.slayer.health,
            block: self.slayer.block,
            strength: self.slayer.strength,
            weak: self.slayer.weak,
        };
        let mut enemy = Numbers {
            health: self.enemy.health,
            block: self.enemy.block,
            strength: self.enemy.strength,
            weak: self.enemy.weak,
        };
        let ghost start = self.field();
        let ghost source = source_id as int;
        let mut index: usize = 0;
        while index < effects.len()
            invariant
                index <= effects@.len(),
                start == self.field(),
                source == source_id as int,
                player.vitals() == field_after(start, effects@.take(index as int), source).player,
                enemy.vitals() == field_after(start, effects@.take(index as int), source).enemy,
                forall|before: int|
                    0 <= before < index ==> #[trigger] step_fits(start, effects@, source, before),
            decreases effects@.len() - index,
        {
            let pair = effects[index];
            let ghost now = field_after(start, effects@.take(index as int), source);
            proof {
                let next = effects@.take(index + 1);
                assert(next.drop_last() =~= effects@.take(index as int));
                assert(next.last() == pair);
            }
            let target_id: usize = match pair.target {
                Target::Player => source_id,
                Target::Single => if source_id == 0 {
                    1
                } else {
                    0
                },
                Target::Multi => {
                    assert(!step_fits(start, effects@, source, index as int));
                    return false;
                },
            };
            let from = if source_id == 0 {
                player
            } else {
                enemy
            };
            let to = if target_id == 0 {
                player
            } else {
                enemy
            };
            assert(from.vitals() == side_vitals(now, source));
            assert(to.vitals() == side_vitals(now, target_id as int));
            let mut next = to;
            let fits = match pair.effect {
                Effect::Attack(base) => {
                    if sum_ready(base, from.strength) {
                        let scaled = scale(base, from.strength, from.weak);
                        if hit_ready(to.health, to.block, scaled) {
                            let after = damaged(to.health, to.block, scaled);
                            next.health = after.0;
                            next.block = after.1;
                            true
                        } else {
                            false
                        }
                    } else {
                        false
                    }
                },
                Effect::Block(amount) => {
                    if sum_ready(to.block, amount) {
                        next.block = to.block + amount;
                        true
                    } else {
                        false
                    }
                },
                Effect::Weak(amount) => {
                    if sum_ready(to.weak, amount) {
                        next.weak = to.weak + amount;
                        true
                    } else {
                        false
                    }
                },
                Effect::Strength(amount) => {
                    if sum_ready(to.strength, amount) {
                        next.strength = to.strength + amount;
                        true
                    } else {
                        false
                    }
                },
                Effect::Discard(_) => true,
                Effect::Draw(_) => true,
            };
            assert(fits == effect_fits(now, pair.effect, source, target_id as int));
            if !fits {
                assert(!step_fits(start, effects@, source, index as int));
                return false;
            }
            assert(step_fits(start, effects@, source, index as int));
            assert(next.vitals() == side_vitals(
                after_effect(now, pair.effect, source, target_id as int),
                target_id as int,
            ));
            if target_id == 0 {
                player = next;
            } else {
                enemy = next;
            }
            index = index + 1;
        }
        true
    }

    /// Whether the move can be made.
    pub fn move_ready(&self, mov: &Action) -> (ready: bool)
        ensures
            ready == self.move_fits(*mov),
    {
        match *mov {
            Action::Play(slot) => {
                if slot >= self.hand.len() {
                    return false;
                }
                let card = self.hand[slot];
                if card.id >= CATALOG_LEN {
                    return false;
                }
                let effects = card_effects(card.id);
                self.effects_ready(&effects, 0) && difference_ready(self.slayer.energy, card.cost)
            },
            Action::Discard(slot) => {
                if slot >= self.hand.len() || self.queue.len() == 0 {
                    return false;
                }
                match self.queue[0] {
                    Action::Discard(count) => count >= 1,
                    _ => false,
                }
            },
            Action::EndTurn => self.effects_ready(&self.enemy.queue, 1),
            Action::TargetPlay(_, _) => false,
        }
    }

    /// Makes the move where it can be made, and says whether it was. A move
    /// that cannot be made leaves the battle as it is.
    pub fn try_move(&mut self, mov: &Action) -> (made: bool)
        ensures
            made == old(self).move_fits(*mov),
            made ==> move_made(old(self), final(self), *mov),
            !made ==> *final(self) == *old(self),
            card_count(final(self).piles()) == card_count(old(self).piles()),
            all_cards(final(self).piles()) == all_cards(old(self).piles()),
    {
        if self.move_ready(mov) {
            self.make_move(mov);
            true
        } else {
            false
        }
    }

    /// Makes a move: plays a card, discards one that a queued discard asks
    /// for, or ends the turn.
    pub fn make_move(&mut self, mov: &Action)
        requires
            old(self).move_fits(*mov),
        ensures
            move_made(old(self), final(self), *mov),
            card_count(final(self).piles()) == card_count(old(self).piles()),
            all_cards(final(self).piles()) == all_cards(old(self).piles()),
            final(self).exhaust@ == old(self).exhaust@,
    {
        match *mov {
            Action::Play(card_slot) => {
                let card = self.hand.swap_remove(card_slot);
                let effects = card_effects(card.id);
                self.resolve_effects(&effects, 0);
                let ghost resolved = self.piles();
                self.slayer.energy = self.slayer.energy - card.cost;
                self.discard.push(card);
                proof {
                    assert(self.discard@.drop_last() =~= resolved.discard);
                    assert((Piles { discard: self.discard@.drop_last(), ..self.piles() })
                        == resolved);
                }
            },
            Action::EndTurn => {
                let opp_actions = self.enemy.act();
                self.resolve_effects(&opp_actions, 1);
                let ghost resolved = self.piles();
                self.end_discard();
                proof {
                    assert(self.hand@ =~= Seq::<Card>::empty());
                    assert(self.piles() == hand_dropped(resolved));
                }
                self.draw_cards(HAND_SIZE);
                self.slayer.energy = TURN_ENERGY;
                self.slayer.block = 0;
                self.enemy.block = 0;
                self.enemy.set_intent();
                proof {
                    assert(self.enemy.queue@ =~= intent_effects(
                        self.enemy.last_actions@.last() as int,
                    ));
                    assert(piles_after(old(self).piles(), old(self).enemy.queue@, resolved));
                    assert(drew(hand_dropped(resolved), self.piles(), HAND_SIZE as nat));
                }
            },
            Action::Discard(slot) => {
                let out = self.hand.swap_remove(slot);
                self.discard.push(out);
                let head = self.queue[0];
                match head {
                    Action::Discard(num) => {
                        let res = num - 1;
                        if res > 0 {
                            self.queue[0] = Action::Discard(res);
                        } else {
                            self.queue.remove(0);
                        }
                    },
                    _ => {
                        vstd::pervasive::unreached::<()>();
                    },
                }
            },
            Action::TargetPlay(_, _) => {
                vstd::pervasive::unreached::<()>();
            },
        }
        proof {
            move_keeps_cards(old(self), self, *mov);
        }
    }

    /// Draws `number` cards into the hand, turning the discard pile into the
    /// draw pile where the draw pile runs out. Where both run out the hand
    /// gets fewer.
    pub fn draw_cards(&mut self, number: usize)
        ensures
            drew(old(self).piles(), final(self).piles(), number as nat),
            card_count(final(self).piles()) == card_count(old(self).piles()),
            all_cards(final(self).piles()) == all_cards(old(self).piles()),
            final(self).enemy == old(self).enemy,
            final(self).slayer == old(self).slayer,
            final(self).queue == old(self).queue,
        decreases old(self).discard@.len(),
    {
        if self.draw.len() >= number {
            move_sampled(&mut self.draw, &mut self.hand, number);
        } else {
            let rest = number - self.draw.len();
            self.hand.append(&mut self.draw);
            if self.discard.len() > 0 {
                core::mem::swap(&mut self.discard, &mut self.draw);
                let ghost mid = self.piles();
                assert(mid == reshuffled(old(self).piles()));
                self.draw_cards(rest);
            } else {
                let ghost mid = reshuffled(old(self).piles());
                assert(self.draw@ =~= mid.draw);
                assert(self.discard@ =~= mid.discard);
                assert(self.hand@ =~= mid.hand + mid.draw);
                assert(self.piles() == reshuffled(mid));
            }
        }
        proof {
            draw_keeps_cards(old(self).piles(), self.piles(), number as nat);
        }
    }
}

} // verus!
