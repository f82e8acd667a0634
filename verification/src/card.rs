//! Cards: effects, targets, templates and the fixed catalog.

use vstd::prelude::*;

verus! {

/// Whom an effect is aimed at, seen from the side that acts.
#[derive(Clone, Copy, Debug, PartialEq, Eq, Structural)]
pub enum Target {
    /// The acting side itself.
    Player,
    /// The opposing side.
    Single,
    /// Every opponent; no card of the catalog uses it and it cannot be resolved.
    Multi,
}

/// A debuff with its magnitude.
#[derive(Clone, Copy, Debug, PartialEq, Eq, Structural)]
pub enum Debuff {
    Weak(i32),
}

/// One typed effect of a card or of an opponent's intent.
#[derive(Clone, Copy, Debug, PartialEq, Eq, Structural)]
pub enum Effect {
    Block(i32),
    Attack(i32),
    Weak(i32),
    Draw(usize),
    Discard(usize),
    Strength(i32),
}

#[derive(Clone, Copy, Debug, PartialEq, Eq, Structural)]
pub enum CardType {
    Attack,
    Skill,
    Power,
}

/// An effect together with its target.
#[derive(Clone, Copy, Debug, PartialEq, Eq, Structural)]
pub struct EffectPair {
    pub effect: Effect,
    pub target: Target,
}

impl EffectPair {
    pub fn new(effect: Effect, target: Target) -> (pair: EffectPair)
        ensures
            pair == (EffectPair { effect, target }),
    {
        EffectPair { effect, target }
    }

    pub fn new_single(eff: Effect) -> (pair: EffectPair)
        ensures
            pair == (EffectPair { effect: eff, target: Target::Single }),
    {
        Self::new(eff, Target::Single)
    }

    pub fn new_multi(eff: Effect) -> (pair: EffectPair)
        ensures
            pair == (EffectPair { effect: eff, target: Target::Multi }),
    {
        Self::new(eff, Target::Multi)
    }

    pub fn new_player(eff: Effect) -> (pair: EffectPair)
        ensures
            pair == (EffectPair { effect: eff, target: Target::Player }),
    {
        Self::new(eff, Target::Player)
    }
}

/// An immutable catalog entry. Its id is its position in the catalog.
#[derive(Clone, Debug)]
pub struct CardTemplate {
    pub name: &'static str,
    pub ty: CardType,
    pub effects: Vec<EffectPair>,
    pub base_cost: u32,
    pub ethereal: bool,
    pub exhaust: bool,
}

impl CardTemplate {
    pub fn new(
        name: &'static str,
        ty: CardType,
        effects: Vec<EffectPair>,
        base_cost: u32,
        ethereal: bool,
        exhaust: bool,
    ) -> (template: CardTemplate)
        ensures
            template.name == name,
            template.ty == ty,
            template.effects == effects,
            template.base_cost == base_cost,
            template.ethereal == ethereal,
            template.exhaust == exhaust,
    {
        CardTemplate { name, ty, effects, base_cost, ethereal, exhaust }
    }
}

/// A card in a pile: the id of its template and the energy it costs to play.
#[derive(Clone, Copy, Debug, PartialEq, Eq, Structural)]
pub struct Card {
    pub id: usize,
    pub cost: i32,
}

impl Card {
    pub fn new(id: usize, cost: i32) -> (card: Card)
        ensures
            card == (Card { id, cost }),
    {
        Card { id, cost }
    }
}

/// Number of templates in the catalog.
pub const CATALOG_LEN: usize = 5;

/// The ordered effects of the template with the given id; empty for an id
/// outside the catalog.
pub open spec fn effects_of(id: int) -> Seq<EffectPair> {
    if id == 0 {
        seq![EffectPair { effect: Effect::Block(5), target: Target::Player }]
    } else if id == 1 {
        seq![
            EffectPair { effect: Effect::Attack(3), target: Target::Single },
            EffectPair { effect: Effect::Weak(1), target: Target::Single },
        ]
    } else if id == 2 {
        seq![EffectPair { effect: Effect::Attack(6), target: Target::Single }]
    } else if id == 3 {
        seq![
            EffectPair { effect: Effect::Block(8), target: Target::Player },
            EffectPair { effect: Effect::Discard(1), target: Target::Player },
        ]
    } else if id == 4 {
        seq![
            EffectPair { effect: Effect::Draw(3), target: Target::Player },
            EffectPair { effect: Effect::Discard(1), target: Target::Player },
        ]
    } else {
        Seq::empty()
    }
}

/// The card type of the template with the given id.
pub open spec fn type_of(id: int) -> CardType {
    if id == 1 || id == 2 {
        CardType::Attack
    } else {
        CardType::Skill
    }
}

/// The base energy cost of the template with the given id.
pub open spec fn cost_of(id: int) -> u32 {
    if id == 1 {
        0
    } else {
        1
    }
}

/// The effects of one template, in the order in which they resolve.
pub fn card_effects(id: usize) -> (effects: Vec<EffectPair>)
    requires
        id < CATALOG_LEN,
    ensures
        effects@ == effects_of(id as int),
{
    let mut effects: Vec<EffectPair> = Vec::new();
    if id == 0 {
        effects.push(EffectPair::new_player(Effect::Block(5)));
    } else if id == 1 {
        effects.push(EffectPair::new_single(Effect::Attack(3)));
        effects.push(EffectPair::new_single(Effect::Weak(1)));
    } else if id == 2 {
        effects.push(EffectPair::new_single(Effect::Attack(6)));
    } else if id == 3 {
        effects.push(EffectPair::new_player(Effect::Block(8)));
        effects.push(EffectPair::new_player(Effect::Discard(1)));
    } else {
        effects.push(EffectPair::new_player(Effect::Draw(3)));
        effects.push(EffectPair::new_player(Effect::Discard(1)));
    }
    assert(effects@ =~= effects_of(id as int));
    effects
}

/// The name of the template with the given id; empty for an id outside the
/// catalog.
pub open spec fn name_of(id: int) -> Seq<char> {
    if id == 0 {
        "Defend"@
    } else if id == 1 {
        "Neutralize"@
    } else if id == 2 {
        "Strike"@
    } else if id == 3 {
        "Survivor"@
    } else if id == 4 {
        "Acrobatics"@
    } else {
        Seq::empty()
    }
}

/// The name of one template.
pub fn card_name(id: usize) -> (name: &'static str)
    requires
        id < CATALOG_LEN,
    ensures
        name@ == name_of(id as int),
{
    if id == 0 {
        "Defend"
    } else if id == 1 {
        "Neutralize"
    } else if id == 2 {
        "Strike"
    } else if id == 3 {
        "Survivor"
    } else {
        "Acrobatics"
    }
}

/// The id of the template with the given name: the first id that bears it,
/// or nothing where no template does.
pub fn card_id(name: &str) -> (id: Option<usize>)
    ensures
        match id {
            Some(found) => {
                &&& found < CATALOG_LEN
                &&& name_of(found as int) == name@
                &&& forall|other: int| 0 <= other < found ==> name_of(other) != name@
            },
            None => forall|other: int| 0 <= other < CATALOG_LEN ==> name_of(other) != name@,
        },
{
    let wanted = name.to_owned();
    let mut id: usize = 0;
    while id < CATALOG_LEN
        invariant
            id <= CATALOG_LEN,
            wanted@ == name@,
            forall|other: int| 0 <= other < id ==> name_of(other) != name@,
        decreases CATALOG_LEN - id,
    {
        let known = card_name(id).to_owned();
        if known == wanted {
            return Some(id);
        }
        id += 1;
    }
    None
}

/// The whole catalog, in id order: entry `i` is the template with id `i`.
pub fn catalog() -> (cards: Vec<CardTemplate>)
    ensures
        cards@.len() == CATALOG_LEN,
        forall|i: int|
            0 <= i < CATALOG_LEN ==> {
                &&& (#[trigger] cards@[i]).effects@ == effects_of(i)
                &&& cards@[i].name@ == name_of(i)
                &&& cards@[i].ty == type_of(i)
                &&& cards@[i].base_cost == cost_of(i)
                &&& !cards@[i].ethereal
                &&& !cards@[i].exhaust
            },
{
    let mut cards: Vec<CardTemplate> = Vec::new();
    let mut id: usize = 0;
    while id < CATALOG_LEN
        invariant
            id <= CATALOG_LEN,
            cards@.len() == id,
            forall|i: int|
                0 <= i < id ==> {
                    &&& (#[trigger] cards@[i]).effects@ == effects_of(i)
                    &&& cards@[i].name@ == name_of(i)
                    &&& cards@[i].ty == type_of(i)
                    &&& cards@[i].base_cost == cost_of(i)
                    &&& !cards@[i].ethereal
                    &&& !cards@[i].exhaust
                },
        decreases CATALOG_LEN - id,
    {
        let ty = if id == 1 || id == 2 {
            CardType::Attack
        } else {
            CardType::Skill
        };
        let base_cost: u32 = if id == 1 {
            0
        } else {
            1
        };
        cards.push(CardTemplate::new(card_name(id), ty, card_effects(id), base_cost, false, false));
        id += 1;
    }
    cards
}

} // verus!
