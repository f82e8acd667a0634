//! How effects resolve: what one effect, and a list of them, does to the
//! numbers of the actors, to the queue of forced actions and to the piles.

use crate::actor::{
    fits_i32, hit, hit_fits, scaled_attack, with_block, with_strength, with_weak, Vitals,
};
use crate::battle::Action;
use crate::card::{Effect, EffectPair, Target};
use crate::piles::{all_cards, card_count, draw_keeps_cards, drew, Piles};
use vstd::prelude::*;

verus! {

/// What the effects other than a draw act on: the numbers of both actors and
/// the queue of forced actions.
pub struct Field {
    pub player: Vitals,
    pub enemy: Vitals,
    pub pending: Seq<Action>,
}

/// The numbers of one side: side 0 is the player, every other the opponent.
pub open spec fn side_vitals(f: Field, side: int) -> Vitals {
    if side == 0 {
        f.player
    } else {
        f.enemy
    }
}

/// The field with the numbers of one side replaced.
pub open spec fn with_side(f: Field, side: int, v: Vitals) -> Field {
    if side == 0 {
        Field { player: v, ..f }
    } else {
        Field { enemy: v, ..f }
    }
}

/// The side that a target stands for when `source` acts: itself, or the
/// side opposite. A target of all opponents stands for no side; `step_fits`
/// rules it out, and here it is given the source's.
pub open spec fn aim(target: Target, source: int) -> int {
    match target {
        Target::Player => source,
        Target::Single => if source == 0 {
            1
        } else {
            0
        },
        Target::Multi => source,
    }
}

/// The effect can be resolved in machine integers.
pub open spec fn effect_fits(f: Field, effect: Effect, source: int, target: int) -> bool {
    let from = side_vitals(f, source);
    let to = side_vitals(f, target);
    match effect {
        Effect::Attack(base) => fits_i32(base + from.strength) && hit_fits(
            to,
            scaled_attack(from, base as int),
        ),
        Effect::Block(amount) => fits_i32(to.block + amount),
        Effect::Weak(amount) => fits_i32(to.weak + amount),
        Effect::Strength(amount) => fits_i32(to.strength + amount),
        Effect::Discard(_) => true,
        Effect::Draw(_) => true,
    }
}

/// The field after one effect. An attack is scaled by its source and hits
/// its target; block, weak and strength are added to the target's; a
/// discard joins the queue of forced actions; a draw leaves the field alone.
pub open spec fn after_effect(f: Field, effect: Effect, source: int, target: int) -> Field {
    let from = side_vitals(f, source);
    let to = side_vitals(f, target);
    match effect {
        Effect::Attack(base) => with_side(f, target, hit(to, scaled_attack(from, base as int))),
        Effect::Block(amount) => with_side(f, target, with_block(to, amount as int)),
        Effect::Weak(amount) => with_side(f, target, with_weak(to, amount as int)),
        Effect::Strength(amount) => with_side(f, target, with_strength(to, amount as int)),
        Effect::Discard(count) => Field { pending: f.pending.push(Action::Discard(count)), ..f },
        Effect::Draw(_) => f,
    }
}

/// What one effect can do to the piles: a draw draws, every other effect
/// leaves them alone.
pub open spec fn piles_step(before: Piles, after: Piles, effect: Effect) -> bool {
    match effect {
        Effect::Draw(count) => drew(before, after, count as nat),
        _ => after == before,
    }
}

/// The field after a list of effects of one source, resolved in order.
pub open spec fn field_after(f: Field, effects: Seq<EffectPair>, source: int) -> Field
    decreases effects.len(),
{
    if effects.len() == 0 {
        f
    } else {
        let pair = effects.last();
        after_effect(
            field_after(f, effects.drop_last(), source),
            pair.effect,
            source,
            aim(pair.target, source),
        )
    }
}

/// The effect at `index` of the list has a target that can be resolved, and
/// fits on the field that the effects before it leave.
pub open spec fn step_fits(f: Field, effects: Seq<EffectPair>, source: int, index: int) -> bool {
    &&& effects[index].target != Target::Multi
    &&& effect_fits(
        field_after(f, effects.take(index), source),
        effects[index].effect,
        source,
        aim(effects[index].target, source),
    )
}

/// Every effect of the list can be resolved in its turn.
pub open spec fn effects_fit(f: Field, effects: Seq<EffectPair>, source: int) -> bool {
    forall|index: int| 0 <= index < effects.len() ==> #[trigger] step_fits(f, effects, source, index)
}

/// The step from entry `index` of the path to the next is one that the
/// effect at `index` can make.
pub open spec fn linked(path: Seq<Piles>, effects: Seq<EffectPair>, index: int) -> bool {
    piles_step(path[index], path[index + 1], effects[index].effect)
}

/// The path holds the piles before the first effect, after each effect, and
/// so after the last.
pub open spec fn is_path(
    path: Seq<Piles>,
    before: Piles,
    effects: Seq<EffectPair>,
    after: Piles,
) -> bool {
    &&& path.len() == effects.len() + 1
    &&& path[0] == before
    &&& path[effects.len() as int] == after
    &&& forall|index: int| 0 <= index < effects.len() ==> #[trigger] linked(path, effects, index)
}

/// `after` is a way in which the list of effects, resolved in order, can
/// leave the piles `before`.
pub open spec fn piles_after(before: Piles, effects: Seq<EffectPair>, after: Piles) -> bool {
    exists|path: Seq<Piles>| is_path(path, before, effects, after)
}

/// No effect of the list is a draw.
pub open spec fn draws_nothing(effects: Seq<EffectPair>) -> bool {
    forall|index: int| 0 <= index < effects.len() ==> !(#[trigger] effects[index].effect is Draw)
}

proof fn path_keeps_cards(
    path: Seq<Piles>,
    before: Piles,
    effects: Seq<EffectPair>,
    after: Piles,
    upto: int,
)
    requires
        is_path(path, before, effects, after),
        0 <= upto <= effects.len(),
    ensures
        all_cards(path[upto]) == all_cards(before),
        card_count(path[upto]) == card_count(before),
        path[upto].exhaust == before.exhaust,
        draws_nothing(effects) ==> path[upto] == before,
    decreases upto,
{
    if upto > 0 {
        path_keeps_cards(path, before, effects, after, upto - 1);
        assert(linked(path, effects, upto - 1));
        match effects[upto - 1].effect {
            Effect::Draw(count) => {
                draw_keeps_cards(path[upto - 1], path[upto], count as nat);
            },
            _ => {},
        }
    }
}

/// Effects only move cards: however a list of effects resolves, the four
/// piles together hold the same cards before and after, and the exhaust
/// pile is untouched.
pub proof fn effects_keep_cards(before: Piles, effects: Seq<EffectPair>, after: Piles)
    requires
        piles_after(before, effects, after),
    ensures
        all_cards(after) == all_cards(before),
        card_count(after) == card_count(before),
        after.exhaust == before.exhaust,
{
    let path = choose|path: Seq<Piles>| is_path(path, before, effects, after);
    path_keeps_cards(path, before, effects, after, effects.len() as int);
}

/// Where no effect of the list is a draw, the piles stay as they are.
pub proof fn no_draw_keeps_piles(before: Piles, effects: Seq<EffectPair>, after: Piles)
    requires
        piles_after(before, effects, after),
        draws_nothing(effects),
    ensures
        after == before,
{
    let path = choose|path: Seq<Piles>| is_path(path, before, effects, after);
    path_keeps_cards(path, before, effects, after, effects.len() as int);
}

} // verus!
