//! Actors: the numbers they carry, the arithmetic of damage and attack
//! scaling, and the player.

use vstd::prelude::*;

verus! {

/// The numbers every actor carries, as mathematical integers.
pub struct Vitals {
    pub health: int,
    pub block: int,
    pub strength: int,
    pub weak: int,
}

pub open spec fn fits_i32(x: int) -> bool {
    i32::MIN <= x <= i32::MAX
}

/// What an actor is after taking `damage`. With block above zero the block
/// drops by the whole damage, below zero if need be, and health drops by the
/// whole damage only where the damage exceeded the block. With no block,
/// health drops by the damage and block stays.
pub open spec fn hit(v: Vitals, damage: int) -> Vitals {
    if v.block > 0 {
        Vitals {
            block: v.block - damage,
            health: if damage - v.block > 0 {
                v.health - damage
            } else {
                v.health
            },
            ..v
        }
    } else {
        Vitals { health: v.health - damage, ..v }
    }
}

/// Every intermediate value of `hit` is a machine integer.
pub open spec fn hit_fits(v: Vitals, damage: int) -> bool {
    if v.block > 0 {
        &&& fits_i32(damage - v.block)
        &&& fits_i32(v.block - damage)
        &&& damage - v.block > 0 ==> fits_i32(v.health - damage)
    } else {
        fits_i32(v.health - damage)
    }
}

/// A quarter of `x`, the quotient taken towards zero, plus one where the
/// division leaves a remainder.
pub open spec fn quarter_up(x: int) -> int {
    if x >= 0 {
        x / 4 + if x % 4 != 0 {
            1int
        } else {
            0int
        }
    } else {
        -((-x) / 4) + if (-x) % 4 != 0 {
            1int
        } else {
            0int
        }
    }
}

/// The damage of an attack of strength `base` made by `v`: the attacker's
/// strength is added, and a weak attacker loses `quarter_up` of the sum.
pub open spec fn scaled_attack(v: Vitals, base: int) -> int {
    let raw = base + v.strength;
    if v.weak > 0 {
        raw - quarter_up(raw)
    } else {
        raw
    }
}

pub open spec fn with_block(v: Vitals, amount: int) -> Vitals {
    Vitals { block: v.block + amount, ..v }
}

pub open spec fn with_strength(v: Vitals, amount: int) -> Vitals {
    Vitals { strength: v.strength + amount, ..v }
}

pub open spec fn with_weak(v: Vitals, amount: int) -> Vitals {
    Vitals { weak: v.weak + amount, ..v }
}

/// What both sides of a battle can do and suffer.
pub trait Actor {
    spec fn vitals(&self) -> Vitals;

    fn take_damage(&mut self, raw_damage: i32)
        requires
            hit_fits(old(self).vitals(), raw_damage as int),
        ensures
            final(self).vitals() == hit(old(self).vitals(), raw_damage as int),
    ;

    fn compute_damage(&self, raw_damage: i32) -> (damage: i32)
        ensures
            damage == raw_damage,
    ;

    fn add_block(&mut self, block: i32)
        requires
            fits_i32(old(self).vitals().block + block),
        ensures
            final(self).vitals() == with_block(old(self).vitals(), block as int),
    ;

    fn add_strength(&mut self, strength: i32)
        requires
            fits_i32(old(self).vitals().strength + strength),
        ensures
            final(self).vitals() == with_strength(old(self).vitals(), strength as int),
    ;

    fn add_weak(&mut self, weak: i32)
        requires
            fits_i32(old(self).vitals().weak + weak),
        ensures
            final(self).vitals() == with_weak(old(self).vitals(), weak as int),
    ;

    fn scale_attack(&self, base: i32) -> (scaled: i32)
        requires
            fits_i32(base + self.vitals().strength),
        ensures
            scaled == scaled_attack(self.vitals(), base as int),
    ;
}

/// Whether the sum of two numbers is a machine integer.
pub fn sum_ready(first: i32, second: i32) -> (ready: bool)
    ensures
        ready == fits_i32(first + second),
{
    let sum: i64 = first as i64 + second as i64;
    -2147483648 <= sum && sum <= 2147483647
}

/// Whether the difference of two numbers is a machine integer.
pub fn difference_ready(first: i32, second: i32) -> (ready: bool)
    ensures
        ready == fits_i32(first - second),
{
    let difference: i64 = first as i64 - second as i64;
    -2147483648 <= difference && difference <= 2147483647
}

/// Whether an actor with this health and block can take the damage in
/// machine integers.
pub fn hit_ready(health: i32, block: i32, damage: i32) -> (ready: bool)
    ensures
        ready == hit_fits(
            Vitals { health: health as int, block: block as int, strength: 0, weak: 0 },
            damage as int,
        ),
{
    if block > 0 {
        difference_ready(damage, block) && difference_ready(block, damage) && (damage <= block
            || difference_ready(health, damage))
    } else {
        difference_ready(health, damage)
    }
}

/// Health and block after a hit.
pub fn damaged(health: i32, block: i32, damage: i32) -> (after: (i32, i32))
    requires
        hit_fits(
            Vitals { health: health as int, block: block as int, strength: 0, weak: 0 },
            damage as int,
        ),
    ensures
        after.0 == hit(
            Vitals { health: health as int, block: block as int, strength: 0, weak: 0 },
            damage as int,
        ).health,
        after.1 == hit(
            Vitals { health: health as int, block: block as int, strength: 0, weak: 0 },
            damage as int,
        ).block,
{
    if block > 0 {
        let mitigated: i32 = damage - block;
        if mitigated > 0 {
            (health - damage, block - damage)
        } else {
            (health, block - damage)
        }
    } else {
        (health - damage, block)
    }
}

/// The scaled damage of an attack, from the attacker's strength and weak.
pub fn scale(base: i32, strength: i32, weak: i32) -> (scaled: i32)
    requires
        fits_i32(base + strength),
    ensures
        scaled == scaled_attack(
            Vitals { health: 0, block: 0, strength: strength as int, weak: weak as int },
            base as int,
        ),
{
    let mut scaled: i32 = base + strength;
    if weak > 0 {
        let quotient: i32 = scaled / 4;
        let rest: i32 = scaled % 4;
        if rest != 0 {
            scaled = scaled - (quotient + 1);
        } else {
            scaled = scaled - quotient;
        }
    }
    scaled
}

/// The player's character.
#[derive(Clone, Copy, Debug, PartialEq, Eq, Structural)]
pub struct Player {
    pub health: i32,
    pub block: i32,
    pub strength: i32,
    pub weak: i32,
    pub energy: i32,
}

impl Actor for Player {
    open spec fn vitals(&self) -> Vitals {
        Vitals {
            health: self.health as int,
            block: self.block as int,
            strength: self.strength as int,
            weak: self.weak as int,
        }
    }

    fn take_damage(&mut self, raw_damage: i32)
        ensures
            final(self).energy == old(self).energy,
    {
        let after = damaged(self.health, self.block, raw_damage);
        self.health = after.0;
        self.block = after.1;
    }

    fn compute_damage(&self, raw_damage: i32) -> (damage: i32) {
        raw_damage
    }

    fn add_block(&mut self, block: i32)
        ensures
            final(self).energy == old(self).energy,
    {
        self.block = self.block + block;
    }

    fn add_strength(&mut self, strength: i32)
        ensures
            final(self).energy == old(self).energy,
    {
        self.strength = self.strength + strength;
    }

    fn add_weak(&mut self, weak: i32)
        ensures
            final(self).energy == old(self).energy,
    {
        self.weak = self.weak + weak;
    }

    fn scale_attack(&self, base: i32) -> (scaled: i32) {
        scale(base, self.strength, self.weak)
    }
}

} // verus!
