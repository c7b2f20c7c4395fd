//! The course of a whole game: how many cards each round deals, who deals,
//! and how many rounds there are. Everything here is mathematics; the game
//! types keep to it and the theorems below say what follows from it.

use crate::round::ContextView;
use vstd::arithmetic::div_mod::lemma_add_mod_noop_right;
use vstd::arithmetic::div_mod::lemma_fundamental_div_mod_converse;
use vstd::arithmetic::div_mod::lemma_small_mod;
use vstd::prelude::*;

verus! {

/// The most cards that a round ever deals to a player.
pub const MAX_CARDS: usize = 10;

/// The size of the deck that the cards are dealt from.
pub const DECK_SIZE: usize = 52;

/// The most players for whom the deck still has a card each.
pub const MAX_PLAYERS: usize = 52;

/// Cards dealt to each player in the first round: an equal share of the
/// deck, but no more than ten.
pub open spec fn initial_cards(players: nat) -> nat {
    if DECK_SIZE as nat / players < MAX_CARDS as nat {
        DECK_SIZE as nat / players
    } else {
        MAX_CARDS as nat
    }
}

/// Number of rounds in a game: down from the initial card count to one card
/// and up again.
pub open spec fn total_rounds(players: nat) -> nat {
    2 * initial_cards(players)
}

/// The context of the first round of a game.
pub open spec fn opening_context(players: nat) -> ContextView {
    ContextView {
        dealer_index: 0,
        amount_of_cards: initial_cards(players),
        amount_of_players: players,
        incrementing_phase: false,
    }
}

/// The context of round number `round`, counted from zero: the opening
/// context, moved on once for each round played before.
pub open spec fn context_of_round(players: nat, round: nat) -> ContextView
    decreases round,
{
    if round == 0 {
        opening_context(players)
    } else {
        context_of_round(players, (round - 1) as nat).succ()
    }
}

/// Cards dealt in round number `round` of a game that opens with `initial`
/// cards: one fewer each round down to one, then one more each round.
pub open spec fn cards_of_round(initial: nat, round: nat) -> nat {
    if round < initial {
        (initial - round) as nat
    } else {
        (round - initial + 1) as nat
    }
}

/// Whether a game for this many players can be played: there is at least one
/// player and the deck has a card for each.
pub open spec fn playable(players: nat) -> bool {
    1 <= players <= MAX_PLAYERS
}

/// The first round deals ten cards or an equal share of the deck, whichever
/// is less, and at least one card exactly when the game is playable.
pub proof fn lemma_initial_cards_bounds(players: nat)
    requires
        players >= 1,
    ensures
        initial_cards(players) <= MAX_CARDS,
        initial_cards(players) <= DECK_SIZE as nat / players,
        playable(players) <==> initial_cards(players) >= 1,
        initial_cards(players) == MAX_CARDS || initial_cards(players) == DECK_SIZE as nat / players,
{
    if players <= MAX_PLAYERS {
        assert(DECK_SIZE as nat / players >= 1) by (nonlinear_arith)
            requires
                1 <= players <= 52,
                DECK_SIZE == 52,
        ;
    } else {
        assert(DECK_SIZE as nat / players == 0) by (nonlinear_arith)
            requires
                players > 52,
                DECK_SIZE == 52,
        ;
    }
}

/// The first deal read off by the number of players: ten cards for up to
/// five players, fewer as the deck has to go round more of them, none once
/// there are more players than cards.
pub open spec fn first_deal_by_players(players: nat) -> nat {
    if players <= 5 {
        10
    } else if players == 6 {
        8
    } else if players == 7 {
        7
    } else if players == 8 {
        6
    } else if players <= 10 {
        5
    } else if players <= 13 {
        4
    } else if players <= 17 {
        3
    } else if players <= 26 {
        2
    } else if players <= 52 {
        1
    } else {
        0
    }
}

/// The first deal, ten cards or an equal share of the deck, is what
/// `first_deal_by_players` lists.
pub proof fn law_first_deal_by_players(players: nat)
    requires
        players >= 1,
    ensures
        initial_cards(players) == first_deal_by_players(players),
{
    if players <= 5 {
        assert(DECK_SIZE as nat / players >= 10) by (nonlinear_arith)
            requires
                1 <= players <= 5,
                DECK_SIZE == 52,
        ;
    } else {
        let share = first_deal_by_players(players);
        lemma_fundamental_div_mod_converse(
            DECK_SIZE as int,
            players as int,
            share as int,
            DECK_SIZE - share * players,
        );
    }
}

/// The dealer of each round in closed form: the round number modulo the
/// number of players, who stay the same from round to round.
pub proof fn lemma_dealer_of_round(players: nat, round: nat)
    requires
        players >= 1,
    ensures
        context_of_round(players, round).dealer_index == round % players,
        context_of_round(players, round).amount_of_players == players,
    decreases round,
{
    if round == 0 {
        lemma_small_mod(0, players);
    } else {
        let before = (round - 1) as nat;
        lemma_dealer_of_round(players, before);
        lemma_add_mod_noop_right(1, before as int, players as int);
        assert((before % players + 1) % players == round % players);
    }
}

/// Each round's context in closed form: the card count follows
/// `cards_of_round`, the climb has begun once as many rounds are played as
/// the first round dealt cards, the dealer is the round number modulo the
/// number of players, and the number of players never changes.
pub proof fn lemma_context_of_round(players: nat, round: nat)
    requires
        playable(players),
    ensures
        context_of_round(players, round) == (ContextView {
            dealer_index: round % players,
            amount_of_cards: cards_of_round(initial_cards(players), round),
            amount_of_players: players,
            incrementing_phase: round >= initial_cards(players),
        }),
        context_of_round(players, round).wf(),
    decreases round,
{
    lemma_initial_cards_bounds(players);
    lemma_dealer_of_round(players, round);
    if round > 0 {
        lemma_context_of_round(players, (round - 1) as nat);
    }
}

/// Across a game the card count falls by one each round from the initial
/// count to one, stays at one for the round that opens the climb, then rises
/// by one each round, and is back at the initial count in the last of the
/// `total_rounds` rounds.
pub proof fn law_cards_fall_then_rise(players: nat, round: nat)
    requires
        players >= 1,
        round < total_rounds(players),
    ensures
        ({
            let initial = initial_cards(players);
            let cards = context_of_round(players, round).amount_of_cards;
            let next = context_of_round(players, round + 1).amount_of_cards;
            &&& 1 <= cards <= initial
            &&& round == 0 ==> cards == initial
            &&& round + 1 < initial ==> next == cards - 1
            &&& round + 1 == initial ==> cards == 1 && next == 1
            &&& initial <= round && round + 1 < total_rounds(players) ==> next == cards + 1
            &&& round + 1 == total_rounds(players) ==> cards == initial
        }),
{
    lemma_initial_cards_bounds(players);
    lemma_context_of_round(players, round);
    lemma_context_of_round(players, round + 1);
}

/// The deal passes from seat to seat: seat zero deals the first round, each
/// round's dealer sits one seat after the dealer before, and after the last
/// seat the deal returns to seat zero.
pub proof fn law_dealer_rotates(players: nat, round: nat)
    requires
        players >= 1,
    ensures
        ({
            let dealer = context_of_round(players, round).dealer_index;
            let next = context_of_round(players, round + 1).dealer_index;
            &&& dealer == round % players
            &&& dealer < players
            &&& round == 0 ==> dealer == 0
            &&& dealer + 1 < players ==> next == dealer + 1
            &&& dealer + 1 == players ==> next == 0
        }),
{
    lemma_dealer_of_round(players, round);
    lemma_dealer_of_round(players, round + 1);
    let dealer = context_of_round(players, round).dealer_index;
    if dealer + 1 < players {
        lemma_small_mod(dealer + 1, players);
    } else {
        assert((dealer + 1) % players == 0) by (nonlinear_arith)
            requires
                dealer + 1 == players,
                players > 0,
        ;
    }
}

} // verus!
