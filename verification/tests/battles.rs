use spire_battle::actor::Player;
use spire_battle::battle::{Action, Battle};
use spire_battle::piles::move_sampled;
use spire_battle::card::{Card, Effect, EffectPair, Target};
use spire_battle::enemy::JawWorm;

fn strike() -> Card {
    Card::new(2, 1)
}

fn defend() -> Card {
    Card::new(0, 1)
}

fn battle(hand: Vec<Card>, draw: Vec<Card>, discard: Vec<Card>) -> Battle {
    Battle {
        hand,
        draw,
        discard,
        exhaust: Vec::new(),
        enemy: JawWorm {
            health: 44,
            block: 0,
            strength: 0,
            weak: 0,
            last_actions: Vec::new(),
            queue: Vec::new(),
        },
        slayer: Player { health: 100, block: 0, strength: 0, weak: 0, energy: 3 },
        queue: Vec::new(),
    }
}

fn sorted_ids(cards: &Vec<Card>) -> Vec<usize> {
    let mut ids: Vec<usize> = cards.iter().map(|c| c.id).collect();
    ids.sort();
    ids
}

fn all_ids(b: &Battle) -> Vec<usize> {
    let mut ids = Vec::new();
    ids.extend(b.hand.iter().map(|c| c.id));
    ids.extend(b.draw.iter().map(|c| c.id));
    ids.extend(b.discard.iter().map(|c| c.id));
    ids.extend(b.exhaust.iter().map(|c| c.id));
    ids.sort();
    ids
}

#[test]
fn three_strikes_then_end_of_turn() {
    let mut b = Battle::new(vec![strike(), strike(), strike(), defend(), defend()]);
    assert_eq!(b.hand.len(), 5);
    assert!(b.draw.is_empty());
    assert_eq!(b.slayer.health, 100);
    assert_eq!(b.slayer.energy, 3);
    assert_eq!(b.enemy.health, 44);
    assert_eq!(b.enemy.last_actions.len(), 1);
    for _ in 0..3 {
        let slot = b.hand.iter().position(|c| c.id == 2).unwrap();
        assert!(b.available_moves().contains(&Action::Play(slot)));
        b.make_move(&Action::Play(slot));
    }
    assert_eq!(b.enemy.health, 26);
    assert_eq!(b.slayer.energy, 0);
    assert_eq!(b.available_moves(), vec![Action::EndTurn]);
    assert_eq!(b.discard.len(), 3);
    b.make_move(&Action::EndTurn);
    assert_eq!(b.slayer.block, 0);
    assert_eq!(b.enemy.block, 0);
    assert_eq!(b.slayer.energy, 3);
    assert_eq!(b.enemy.last_actions.len(), 2);
    assert_eq!(b.hand.len(), 5);
    assert_eq!(all_ids(&b), vec![0, 0, 2, 2, 2]);
}

#[test]
fn new_battle_deals_five_cards() {
    let deck: Vec<Card> = (0..12).map(|i| Card::new(i % 5, (i / 5) as i32)).collect();
    let b = Battle::new(deck.clone());
    assert_eq!(b.hand.len(), 5);
    assert_eq!(b.draw.len(), 7);
    assert!(b.discard.is_empty());
    assert!(b.exhaust.is_empty());
    assert!(b.queue.is_empty());
    assert_eq!(b.slayer, Player { health: 100, block: 0, strength: 0, weak: 0, energy: 3 });
    assert_eq!((b.enemy.health, b.enemy.block, b.enemy.strength, b.enemy.weak), (44, 0, 0, 0));
    assert!(b.enemy.last_actions[0] < 3);
    assert!(!b.enemy.queue.is_empty());
    let mut dealt: Vec<Card> = b.hand.clone();
    dealt.extend(b.draw.iter().cloned());
    let key = |c: &Card| (c.id, c.cost);
    dealt.sort_by_key(key);
    let mut expected = deck;
    expected.sort_by_key(key);
    assert_eq!(dealt, expected);
}

#[test]
fn sampled_cards_are_distinct_cards_of_the_pile() {
    for _ in 0..200 {
        let mut from: Vec<Card> = (0..10).map(|i| Card::new(i, 0)).collect();
        let mut to = vec![Card::new(99, 0)];
        move_sampled(&mut from, &mut to, 4);
        assert_eq!(from.len(), 6);
        assert_eq!(to.len(), 5);
        assert_eq!(to[0], Card::new(99, 0));
        let mut ids = sorted_ids(&from);
        ids.extend(to[1..].iter().map(|c| c.id));
        ids.sort();
        assert_eq!(ids, (0..10).collect::<Vec<usize>>());
    }
}

#[test]
fn sampling_the_whole_pile_empties_it() {
    let mut from: Vec<Card> = (0..6).map(|i| Card::new(i, 0)).collect();
    let mut to = Vec::new();
    move_sampled(&mut from, &mut to, 6);
    assert!(from.is_empty());
    assert_eq!(sorted_ids(&to), vec![0, 1, 2, 3, 4, 5]);
    move_sampled(&mut from, &mut to, 0);
    assert_eq!(to.len(), 6);
}

#[test]
fn draw_from_a_full_pile() {
    let mut b = battle(vec![strike()], (0..8).map(|_| defend()).collect(), vec![strike()]);
    b.draw_cards(3);
    assert_eq!(b.hand.len(), 4);
    assert_eq!(b.draw.len(), 5);
    assert_eq!(b.discard, vec![strike()]);
    assert_eq!(b.hand[0], strike());
}

#[test]
fn draw_of_exactly_the_pile_leaves_the_discard_pile() {
    let mut b = battle(vec![], vec![defend(), defend()], vec![strike()]);
    b.draw_cards(2);
    assert_eq!(b.hand, vec![defend(), defend()]);
    assert!(b.draw.is_empty());
    assert_eq!(b.discard, vec![strike()]);
}

#[test]
fn draw_reshuffles_the_discard_pile() {
    let mut b = battle(vec![], vec![defend()], vec![strike(), strike(), strike()]);
    b.draw_cards(3);
    assert_eq!(b.hand, vec![defend(), strike(), strike()]);
    assert_eq!(b.draw, vec![strike()]);
    assert!(b.discard.is_empty());
}

#[test]
fn draw_gives_fewer_when_both_piles_run_out() {
    let mut b = battle(vec![strike()], vec![defend()], vec![Card::new(1, 0)]);
    b.draw_cards(5);
    assert_eq!(b.hand, vec![strike(), defend(), Card::new(1, 0)]);
    assert!(b.draw.is_empty());
    assert!(b.discard.is_empty());
    let mut b = battle(vec![], vec![defend()], vec![]);
    b.draw_cards(4);
    assert_eq!(b.hand, vec![defend()]);
    let mut b = battle(vec![], vec![], vec![]);
    b.draw_cards(4);
    assert!(b.hand.is_empty());
}

#[test]
fn moves_of_a_finished_battle() {
    let mut b = battle(vec![strike()], vec![], vec![]);
    assert!(!b.is_over());
    b.enemy.health = 0;
    assert!(b.is_over());
    assert!(b.available_moves().is_empty());
    let mut b = battle(vec![strike()], vec![], vec![]);
    b.slayer.health = -2;
    b.queue.push(Action::EndTurn);
    assert!(b.is_over());
    assert!(b.available_moves().is_empty());
}

#[test]
fn moves_name_the_slots_of_affordable_cards() {
    let mut b = battle(
        vec![Card::new(2, 3), Card::new(2, 1), Card::new(0, 2), Card::new(1, 0)],
        vec![],
        vec![],
    );
    b.slayer.energy = 1;
    assert_eq!(b.available_moves(), vec![Action::Play(1), Action::Play(3), Action::EndTurn]);
    b.slayer.energy = 3;
    assert_eq!(
        b.available_moves(),
        vec![Action::Play(0), Action::Play(1), Action::Play(2), Action::Play(3), Action::EndTurn]
    );
    let e = battle(vec![], vec![], vec![]);
    assert_eq!(e.available_moves(), vec![Action::EndTurn]);
}

#[test]
fn a_queued_discard_forces_the_moves() {
    let mut b = battle(vec![strike(), defend(), defend()], vec![], vec![]);
    b.queue.push(Action::Discard(2));
    assert_eq!(
        b.available_moves(),
        vec![Action::Discard(0), Action::Discard(1), Action::Discard(2)]
    );
    b.make_move(&Action::Discard(0));
    assert_eq!(b.hand, vec![defend(), defend()]);
    assert_eq!(b.discard, vec![strike()]);
    assert_eq!(b.queue, vec![Action::Discard(1)]);
    b.make_move(&Action::Discard(1));
    assert_eq!(b.hand, vec![defend()]);
    assert_eq!(b.discard, vec![strike(), defend()]);
    assert!(b.queue.is_empty());
    assert_eq!(b.available_moves(), vec![Action::Play(0), Action::EndTurn]);
}

#[test]
fn playing_defend_adds_block_and_costs_energy() {
    let mut b = battle(vec![strike(), defend(), strike()], vec![], vec![]);
    b.make_move(&Action::Play(1));
    assert_eq!(b.slayer.block, 5);
    assert_eq!(b.slayer.energy, 2);
    assert_eq!(b.hand, vec![strike(), strike()]);
    assert_eq!(b.discard, vec![defend()]);
    assert_eq!(b.enemy.health, 44);
}

#[test]
fn playing_neutralize_hits_and_weakens() {
    let mut b = battle(vec![Card::new(1, 0)], vec![], vec![]);
    b.enemy.block = 2;
    b.make_move(&Action::Play(0));
    assert_eq!(b.enemy.health, 41);
    assert_eq!(b.enemy.block, -1);
    assert_eq!(b.enemy.weak, 1);
    assert_eq!(b.slayer.energy, 3);
}

#[test]
fn playing_survivor_queues_a_discard() {
    let mut b = battle(vec![Card::new(3, 1), strike()], vec![], vec![]);
    b.make_move(&Action::Play(0));
    assert_eq!(b.slayer.block, 8);
    assert_eq!(b.queue, vec![Action::Discard(1)]);
    assert_eq!(b.available_moves(), vec![Action::Discard(0)]);
    b.make_move(&Action::Discard(0));
    assert!(b.queue.is_empty());
    assert!(b.hand.is_empty());
    assert_eq!(b.discard, vec![Card::new(3, 1), strike()]);
}

#[test]
fn playing_acrobatics_draws_three() {
    let mut b = battle(
        vec![Card::new(4, 1)],
        vec![strike(), strike(), defend(), defend()],
        vec![],
    );
    b.make_move(&Action::Play(0));
    assert_eq!(b.hand.len(), 3);
    assert_eq!(b.draw.len(), 1);
    assert_eq!(b.discard, vec![Card::new(4, 1)]);
    assert_eq!(b.queue, vec![Action::Discard(1)]);
    assert_eq!(all_ids(&b), vec![0, 0, 2, 2, 4]);
}

#[test]
fn effects_on_either_side() {
    let mut b = battle(vec![], vec![], vec![]);
    b.apply_effect(&Effect::Strength(5), 1, 1);
    b.apply_effect(&Effect::Attack(7), 1, 0);
    assert_eq!(b.slayer.health, 88);
    b.apply_effect(&Effect::Weak(2), 0, 1);
    b.apply_effect(&Effect::Attack(7), 1, 0);
    assert_eq!(b.slayer.health, 79);
    b.apply_effect(&Effect::Block(4), 0, 0);
    b.apply_effect(&Effect::Block(9), 1, 1);
    assert_eq!((b.slayer.block, b.enemy.block), (4, 9));
    b.apply_effect(&Effect::Strength(2), 0, 0);
    b.apply_effect(&Effect::Attack(6), 0, 1);
    assert_eq!((b.enemy.health, b.enemy.block), (44, 1));
    b.apply_effect(&Effect::Weak(1), 1, 0);
    b.apply_effect(&Effect::Attack(6), 0, 1);
    assert_eq!((b.enemy.health, b.enemy.block), (38, -5));
    b.apply_effect(&Effect::Discard(2), 0, 0);
    assert_eq!(b.queue, vec![Action::Discard(2)]);
}

#[test]
fn the_opponent_acts_at_the_end_of_the_turn() {
    let mut b = battle(vec![strike(), defend()], vec![defend()], vec![strike()]);
    b.slayer.block = 5;
    b.slayer.energy = 1;
    b.enemy.strength = 1;
    b.enemy.queue = vec![
        EffectPair::new(Effect::Attack(7), Target::Single),
        EffectPair::new(Effect::Block(5), Target::Player),
    ];
    b.make_move(&Action::EndTurn);
    assert_eq!(b.slayer.health, 92);
    assert_eq!(b.slayer.block, 0);
    assert_eq!(b.enemy.block, 0);
    assert_eq!(b.enemy.health, 44);
    assert_eq!(b.slayer.energy, 3);
    assert_eq!(b.enemy.last_actions.len(), 1);
    let mut expected = JawWorm {
        health: 0,
        block: 0,
        strength: 0,
        weak: 0,
        last_actions: Vec::new(),
        queue: Vec::new(),
    };
    expected.record_intent(b.enemy.last_actions[0]);
    assert_eq!(b.enemy.queue, expected.queue);
    assert_eq!(b.hand.len(), 4);
    assert!(b.draw.is_empty());
    assert!(b.discard.is_empty());
    assert_eq!(all_ids(&b), vec![0, 0, 2, 2]);
}

#[test]
fn resolving_a_list_of_effects() {
    let mut b = battle(vec![], vec![strike(), defend()], vec![]);
    let effects = vec![
        EffectPair::new(Effect::Strength(5), Target::Player),
        EffectPair::new(Effect::Attack(7), Target::Single),
        EffectPair::new(Effect::Draw(1), Target::Player),
    ];
    b.resolve_effects(&effects, 1);
    assert_eq!(b.enemy.strength, 5);
    assert_eq!(b.slayer.health, 88);
    assert_eq!(b.hand.len(), 1);
    assert_eq!(b.draw.len(), 1);
}

#[test]
fn end_discard_moves_the_hand() {
    let mut b = battle(vec![strike(), defend()], vec![], vec![defend()]);
    b.end_discard();
    assert!(b.hand.is_empty());
    assert_eq!(b.discard, vec![defend(), strike(), defend()]);
}

#[test]
fn cards_are_kept_through_a_long_game() {
    let deck: Vec<Card> = vec![
        Card::new(0, 1),
        Card::new(0, 1),
        Card::new(1, 0),
        Card::new(2, 1),
        Card::new(2, 1),
        Card::new(2, 1),
        Card::new(3, 1),
        Card::new(4, 1),
        Card::new(4, 1),
        Card::new(0, 1),
    ];
    let mut expected: Vec<usize> = deck.iter().map(|c| c.id).collect();
    expected.sort();
    for round in 0..20 {
        let mut b = Battle::new(deck.clone());
        let mut steps = 0;
        loop {
            let moves = b.available_moves();
            if moves.is_empty() || steps > 300 {
                break;
            }
            let pick = (steps * 7 + round) % moves.len();
            b.make_move(&moves[pick]);
            assert_eq!(all_ids(&b), expected);
            assert!(b.exhaust.is_empty());
            steps += 1;
        }
    }
}

#[test]
fn current_player_is_the_one_side() {
    let b = battle(vec![], vec![], vec![]);
    assert_eq!(b.current_player(), ());
}

#[test]
fn a_move_that_cannot_be_made_changes_nothing() {
    let mut b = battle(vec![strike()], vec![defend()], vec![]);
    assert!(!b.move_ready(&Action::Play(1)));
    assert!(!b.try_move(&Action::Play(1)));
    assert!(!b.try_move(&Action::Discard(0)));
    assert!(!b.try_move(&Action::TargetPlay(0, 1)));
    assert_eq!(b.hand, vec![strike()]);
    assert_eq!(b.draw, vec![defend()]);
    assert_eq!(b.enemy.health, 44);
    let mut b = battle(vec![Card::new(7, 1)], vec![], vec![]);
    assert!(!b.try_move(&Action::Play(0)));
    assert_eq!(b.hand, vec![Card::new(7, 1)]);
    let mut b = battle(vec![strike()], vec![], vec![]);
    b.queue.push(Action::Discard(0));
    assert!(!b.try_move(&Action::Discard(0)));
    b.queue[0] = Action::EndTurn;
    assert!(!b.try_move(&Action::Discard(0)));
}

#[test]
fn a_move_beyond_the_machine_integers_is_not_made() {
    let mut b = battle(vec![defend()], vec![], vec![]);
    b.slayer.block = i32::MAX - 4;
    assert!(!b.move_ready(&Action::Play(0)));
    assert!(!b.try_move(&Action::Play(0)));
    assert_eq!(b.slayer.block, i32::MAX - 4);
    b.slayer.block = i32::MAX - 5;
    assert!(b.try_move(&Action::Play(0)));
    assert_eq!(b.slayer.block, i32::MAX);
    let mut b = battle(vec![strike()], vec![], vec![]);
    b.enemy.health = i32::MIN + 5;
    assert!(!b.try_move(&Action::Play(0)));
    b.slayer.energy = i32::MIN;
    b.enemy.health = 10;
    assert!(!b.try_move(&Action::Play(0)));
    let mut b = battle(vec![], vec![], vec![]);
    b.enemy.queue = vec![
        EffectPair::new(Effect::Strength(i32::MAX), Target::Player),
        EffectPair::new(Effect::Attack(12), Target::Single),
    ];
    assert!(!b.move_ready(&Action::EndTurn));
    assert!(!b.try_move(&Action::EndTurn));
    assert_eq!(b.enemy.strength, 0);
    assert_eq!(b.enemy.queue.len(), 2);
}

#[test]
fn a_move_that_can_be_made_is_made() {
    let mut b = battle(vec![strike(), defend()], vec![], vec![]);
    assert!(b.move_ready(&Action::Play(0)));
    assert!(b.try_move(&Action::Play(0)));
    assert_eq!(b.enemy.health, 38);
    assert!(b.move_ready(&Action::EndTurn));
    assert!(b.try_move(&Action::EndTurn));
    assert_eq!(b.enemy.last_actions.len(), 1);
}

#[test]
fn effects_with_a_target_of_all_opponents_are_not_ready() {
    let b = battle(vec![], vec![], vec![]);
    assert!(!b.effects_ready(&vec![EffectPair::new_multi(Effect::Attack(1))], 0));
    assert!(b.effects_ready(&vec![EffectPair::new_single(Effect::Attack(1))], 0));
    assert!(b.effects_ready(&Vec::new(), 1));
    assert!(b.effects_ready(
        &vec![
            EffectPair::new_player(Effect::Draw(3)),
            EffectPair::new_player(Effect::Discard(1)),
            EffectPair::new_single(Effect::Weak(i32::MAX)),
        ],
        0
    ));
    assert!(!b.effects_ready(
        &vec![
            EffectPair::new_single(Effect::Weak(i32::MAX)),
            EffectPair::new_single(Effect::Weak(1)),
        ],
        0
    ));
}
