use spire_battle::card::{
    card_effects, card_id, card_name, catalog, Card, CardTemplate, CardType, Effect, EffectPair, Target,
    CATALOG_LEN,
};

#[test]
fn catalog_holds_the_five_cards_in_order() {
    let cards = catalog();
    assert_eq!(cards.len(), CATALOG_LEN);
    let names: Vec<&str> = cards.iter().map(|c| c.name).collect();
    assert_eq!(names, vec!["Defend", "Neutralize", "Strike", "Survivor", "Acrobatics"]);
    let costs: Vec<u32> = cards.iter().map(|c| c.base_cost).collect();
    assert_eq!(costs, vec![1, 0, 1, 1, 1]);
    assert_eq!(cards[0].ty, CardType::Skill);
    assert_eq!(cards[1].ty, CardType::Attack);
    assert_eq!(cards[2].ty, CardType::Attack);
    assert_eq!(cards[3].ty, CardType::Skill);
    assert_eq!(cards[4].ty, CardType::Skill);
    for c in cards.iter() {
        assert!(!c.ethereal);
        assert!(!c.exhaust);
    }
}

#[test]
fn catalog_effects() {
    let cards = catalog();
    assert_eq!(cards[0].effects, vec![EffectPair::new_player(Effect::Block(5))]);
    assert_eq!(
        cards[1].effects,
        vec![EffectPair::new_single(Effect::Attack(3)), EffectPair::new_single(Effect::Weak(1))]
    );
    assert_eq!(cards[2].effects, vec![EffectPair::new_single(Effect::Attack(6))]);
    assert_eq!(
        cards[3].effects,
        vec![EffectPair::new_player(Effect::Block(8)), EffectPair::new_player(Effect::Discard(1))]
    );
    assert_eq!(
        cards[4].effects,
        vec![EffectPair::new_player(Effect::Draw(3)), EffectPair::new_player(Effect::Discard(1))]
    );
    for id in 0..CATALOG_LEN {
        assert_eq!(card_effects(id), cards[id].effects);
        assert_eq!(card_name(id), cards[id].name);
    }
}

#[test]
fn pair_builders_set_the_target() {
    assert_eq!(EffectPair::new_single(Effect::Attack(1)).target, Target::Single);
    assert_eq!(EffectPair::new_multi(Effect::Attack(1)).target, Target::Multi);
    assert_eq!(EffectPair::new_player(Effect::Block(1)).target, Target::Player);
    let pair = EffectPair::new(Effect::Draw(2), Target::Player);
    assert_eq!(pair.effect, Effect::Draw(2));
}

#[test]
fn template_and_card_keep_their_fields() {
    let t = CardTemplate::new(
        "Test",
        CardType::Power,
        vec![EffectPair::new_player(Effect::Strength(2))],
        2,
        true,
        false,
    );
    assert_eq!(t.name, "Test");
    assert_eq!(t.ty, CardType::Power);
    assert_eq!(t.effects.len(), 1);
    assert_eq!(t.base_cost, 2);
    assert!(t.ethereal);
    assert!(!t.exhaust);
    let c = Card::new(2, 1);
    assert_eq!((c.id, c.cost), (2, 1));
}

#[test]
fn ids_and_names_find_each_other() {
    for id in 0..CATALOG_LEN {
        assert_eq!(card_id(card_name(id)), Some(id));
    }
    assert_eq!(card_id("Strike"), Some(2));
    assert_eq!(card_id("Acrobatics"), Some(4));
    assert_eq!(card_id("strike"), None);
    assert_eq!(card_id(""), None);
    assert_eq!(card_id("Bash"), None);
}
