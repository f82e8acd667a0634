//! The four piles of cards and the ways in which cards move between them.

use crate::card::Card;
use crate::chance::{entropy_rng, sample_indices};
use vstd::multiset::Multiset;
use vstd::prelude::*;
use vstd::seq_lib::{
    lemma_multiset_commutative, to_multiset_build, to_multiset_contains, to_multiset_len,
    to_multiset_remove, to_multiset_update,
};

verus! {

/// The four piles of a battle.
pub struct Piles {
    pub hand: Seq<Card>,
    pub draw: Seq<Card>,
    pub discard: Seq<Card>,
    pub exhaust: Seq<Card>,
}

/// All the cards of the four piles, without their places.
pub open spec fn all_cards(p: Piles) -> Multiset<Card> {
    p.hand.to_multiset().add(p.draw.to_multiset()).add(p.discard.to_multiset()).add(
        p.exhaust.to_multiset(),
    )
}

/// The number of cards in the four piles.
pub open spec fn card_count(p: Piles) -> nat {
    p.hand.len() + p.draw.len() + p.discard.len() + p.exhaust.len()
}

/// `amount` cards have left `from` and stand behind the cards of `to`. Which
/// cards they are, and in what order either pile holds its cards
/// afterwards, is left to chance.
pub open spec fn moved(
    from: Seq<Card>,
    to: Seq<Card>,
    from_after: Seq<Card>,
    to_after: Seq<Card>,
    amount: nat,
) -> bool {
    &&& from_after.len() + amount == from.len()
    &&& to_after.len() == to.len() + amount
    &&& to_after.take(to.len() as int) == to
    &&& to_after.to_multiset().add(from_after.to_multiset()) == to.to_multiset().add(
        from.to_multiset(),
    )
}

/// `amount` cards of the draw pile have gone to the hand.
pub open spec fn sampled(before: Piles, after: Piles, amount: nat) -> bool {
    &&& moved(before.draw, before.hand, after.draw, after.hand, amount)
    &&& after.discard == before.discard
    &&& after.exhaust == before.exhaust
}

/// The piles once the whole draw pile has gone to the hand and the discard
/// pile has taken its place.
pub open spec fn reshuffled(p: Piles) -> Piles {
    Piles { hand: p.hand + p.draw, draw: p.discard, discard: Seq::empty(), exhaust: p.exhaust }
}

/// `after` is a way in which a draw of `number` cards can leave the piles
/// `before`. A draw pile that holds enough gives `number` of its cards. One
/// that holds fewer gives all, the discard pile becomes the draw pile, and
/// what is still owed comes from there, as far as it reaches.
pub open spec fn drew(before: Piles, after: Piles, number: nat) -> bool {
    if before.draw.len() >= number {
        sampled(before, after, number)
    } else {
        let mid = reshuffled(before);
        let rest = (number - before.draw.len()) as nat;
        if mid.draw.len() >= rest {
            sampled(mid, after, rest)
        } else {
            after == reshuffled(mid)
        }
    }
}

/// The four piles hold as many cards as their lengths add up to.
pub proof fn cards_are_counted(p: Piles)
    ensures
        all_cards(p).len() == card_count(p),
{
    broadcast use vstd::multiset::group_multiset_axioms;

    to_multiset_len(p.hand);
    to_multiset_len(p.draw);
    to_multiset_len(p.discard);
    to_multiset_len(p.exhaust);
}

/// A draw keeps every card: the four piles together hold the same cards
/// before and after.
pub proof fn draw_keeps_cards(before: Piles, after: Piles, number: nat)
    requires
        drew(before, after, number),
    ensures
        all_cards(after) == all_cards(before),
        card_count(after) == card_count(before),
{
    broadcast use vstd::multiset::group_multiset_axioms;

    let mid = reshuffled(before);
    let end = reshuffled(mid);
    lemma_multiset_commutative(before.hand, before.draw);
    lemma_multiset_commutative(mid.hand, mid.draw);
    assert(Seq::<Card>::empty().to_multiset() =~= Multiset::<Card>::empty()) by {
        to_multiset_len(Seq::<Card>::empty());
        vstd::multiset::lemma_multiset_empty_len(Seq::<Card>::empty().to_multiset());
    }
    assert(all_cards(mid) =~= all_cards(before));
    assert(all_cards(end) =~= all_cards(before));
    if before.draw.len() >= number {
        assert(all_cards(after) =~= all_cards(before));
    } else if mid.draw.len() >= (number - before.draw.len()) as nat {
        assert(all_cards(after) =~= all_cards(mid));
    }
}

/// `slice::sort_unstable` of std: the same numbers, in ascending order.
#[verifier::external_body]
fn sort_indices(indices: &mut Vec<usize>)
    ensures
        final(indices)@.to_multiset() == old(indices)@.to_multiset(),
        forall|i: int, j: int|
            0 <= i <= j < final(indices)@.len() ==> final(indices)@[i] <= final(indices)@[j],
{
    indices.sort_unstable()
}

/// Taking the card at `index` out of a pile by moving the last card into its
/// place leaves the pile's cards but for the one taken.
pub proof fn swap_remove_keeps_rest(pile: Seq<Card>, index: int)
    requires
        0 <= index < pile.len(),
    ensures
        pile.update(index, pile.last()).drop_last().to_multiset().insert(pile[index])
            == pile.to_multiset(),
{
    broadcast use vstd::multiset::group_multiset_axioms;

    let swapped = pile.update(index, pile.last());
    to_multiset_update(pile, index, pile.last());
    to_multiset_remove(swapped, pile.len() - 1);
    assert(swapped.remove(pile.len() - 1) =~= swapped.drop_last());
    to_multiset_contains(pile, pile[index]);
    to_multiset_contains(pile, pile.last());
    assert(pile.contains(pile[index]));
    assert(pile.contains(pile.last()));
    assert(swapped.drop_last().to_multiset().insert(pile[index]) =~= pile.to_multiset());
}

/// Moves `amount` cards, chosen at random, from one pile to the end of
/// another.
pub fn move_sampled(from: &mut Vec<Card>, to: &mut Vec<Card>, amount: usize)
    requires
        amount <= old(from)@.len(),
    ensures
        moved(old(from)@, old(to)@, final(from)@, final(to)@, amount as nat),
{
    let ghost from_before = from@;
    let ghost to_before = to@;
    let mut rng = entropy_rng();
    let mut indices = sample_indices(&mut rng, from.len(), amount);
    let ghost drawn = indices@;
    sort_indices(&mut indices);
    proof {
        broadcast use vstd::multiset::group_multiset_axioms;

        drawn.lemma_multiset_has_no_duplicates();
        indices@.lemma_multiset_has_no_duplicates_conv();
        assert forall|i: int| 0 <= i < indices@.len() implies #[trigger] indices@[i]
            < from_before.len() by {
            to_multiset_contains(indices@, indices@[i]);
            to_multiset_contains(drawn, indices@[i]);
            assert(indices@.contains(indices@[i]));
        }
        to_multiset_len(indices@);
        to_multiset_len(drawn);
    }
    let mut left: usize = indices.len();
    while left > 0
        invariant
            left <= indices@.len() == amount <= from_before.len(),
            from@.len() + (amount - left) == from_before.len(),
            to@.len() == to_before.len() + (amount - left),
            to@.take(to_before.len() as int) == to_before,
            indices@.no_duplicates(),
            forall|i: int, j: int|
                0 <= i <= j < indices@.len() ==> indices@[i] <= indices@[j],
            forall|i: int| 0 <= i < left ==> #[trigger] indices@[i] < from@.len(),
            to@.to_multiset().add(from@.to_multiset()) == to_before.to_multiset().add(
                from_before.to_multiset(),
            ),
        decreases left,
    {
        left = left - 1;
        let index = indices[left];
        let ghost from_mid = from@;
        let ghost to_mid = to@;
        let card = from.swap_remove(index);
        to.push(card);
        proof {
            broadcast use vstd::multiset::group_multiset_axioms;

            swap_remove_keeps_rest(from_mid, index as int);
            to_multiset_build(to_mid, card);
            assert(to@.to_multiset().add(from@.to_multiset()) =~= to_mid.to_multiset().add(
                from_mid.to_multiset(),
            ));
            assert(to@.take(to_before.len() as int) =~= to_mid.take(to_before.len() as int));
            assert forall|i: int| 0 <= i < left implies #[trigger] indices@[i] < from@.len() by {
                assert(indices@[i] <= indices@[left as int]);
                assert(indices@[i] != indices@[left as int]);
            }
        }
    }
}

/// The hand once the card in `slot` has been taken out, the last card moved
/// into its place.
pub open spec fn without_slot(hand: Seq<Card>, slot: int) -> Seq<Card> {
    hand.update(slot, hand.last()).drop_last()
}

/// The piles once the whole hand has gone onto the discard pile.
pub open spec fn hand_dropped(p: Piles) -> Piles {
    Piles { hand: Seq::empty(), discard: p.discard + p.hand, ..p }
}

} // verus!
