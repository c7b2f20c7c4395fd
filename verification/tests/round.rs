use rikiki::round::Bet;
use rikiki::round::Context;
use rikiki::round::LockError;
use rikiki::round::NewRound;
use rikiki::round::NoPoints;
use rikiki::round::NoScores;
use rikiki::round::Points;
use rikiki::round::Round;
use rikiki::round::ScoringPhase;

fn cards_over_a_game(initial: usize, players: usize) -> Vec<usize> {
    let mut context = Context::new(0, initial, players);
    let mut cards = vec![context.amount_of_cards];
    for _ in 1..2 * initial {
        context = Context::from_previous(&context);
        cards.push(context.amount_of_cards);
    }
    cards
}

#[test]
fn new_context_starts_in_the_falling_half() {
    let context = Context::new(2, 7, 5);
    assert_eq!(context.dealer_index, 2);
    assert_eq!(context.amount_of_cards, 7);
    assert_eq!(context.amount_of_players, 5);
    assert!(!context.incrementing_phase);
}

#[test]
fn cards_fall_to_one_then_rise_again() {
    let cards = cards_over_a_game(10, 4);
    let expected: Vec<usize> =
        vec![10, 9, 8, 7, 6, 5, 4, 3, 2, 1, 1, 2, 3, 4, 5, 6, 7, 8, 9, 10];
    assert_eq!(cards, expected);
}

#[test]
fn cards_for_a_short_game() {
    assert_eq!(cards_over_a_game(1, 52), vec![1, 1]);
    assert_eq!(cards_over_a_game(2, 20), vec![2, 1, 1, 2]);
}

#[test]
fn climb_begins_after_the_one_card_round() {
    let two = Context::new(0, 2, 3);
    let one = Context::from_previous(&two);
    assert_eq!(one.amount_of_cards, 1);
    assert!(!one.incrementing_phase);
    let again = Context::from_previous(&one);
    assert_eq!(again.amount_of_cards, 1);
    assert!(again.incrementing_phase);
    let up = Context::from_previous(&again);
    assert_eq!(up.amount_of_cards, 2);
    assert!(up.incrementing_phase);
}

#[test]
fn dealer_goes_round_the_table() {
    let mut context = Context::new(0, 10, 4);
    let mut dealers = vec![context.dealer_index];
    for _ in 0..9 {
        context = Context::from_previous(&context);
        dealers.push(context.dealer_index);
    }
    assert_eq!(dealers, vec![0, 1, 2, 3, 0, 1, 2, 3, 0, 1]);
}

#[test]
fn single_player_always_deals() {
    let first = Context::new(0, 10, 1);
    let second = Context::from_previous(&first);
    assert_eq!(second.dealer_index, 0);
    assert_eq!(second.amount_of_players, 1);
}

#[test]
fn players_stay_the_same() {
    let mut context = Context::new(0, 5, 9);
    for _ in 0..9 {
        context = Context::from_previous(&context);
        assert_eq!(context.amount_of_players, 9);
    }
}

#[test]
fn new_round_takes_its_context() {
    let round = NewRound::new(1, 6, 8);
    assert_eq!(round.context.dealer_index, 1);
    assert_eq!(round.context.amount_of_cards, 6);
    assert_eq!(round.context.amount_of_players, 8);
    assert!(!round.context.incrementing_phase);
}

#[test]
fn round_runs_through_its_phases() {
    let round = NewRound::new(0, 10, 4);
    let scoring = round.lock_bets(Bet::from(vec![0, 1, 2, 3])).unwrap();
    assert_eq!(scoring.context.amount_of_cards, 10);
    let finished = scoring.lock_points(Points::from(vec![0, 1, 2, 3])).unwrap();
    assert_eq!(finished.get_scores(), vec![2, 3, 4, 5]);
    assert_eq!(finished.context.amount_of_players, 4);
}

#[test]
fn round_scores_each_player_alone() {
    let round = NewRound::new(1, 9, 4);
    let scoring = round.lock_bets(Bet::from(vec![0, 0, 2, 0])).unwrap();
    let finished = scoring.lock_points(Points::from(vec![0, 5, 2, 3])).unwrap();
    assert_eq!(finished.get_scores(), vec![2, -5, 4, -3]);
}

#[test]
fn next_round_follows_the_finished_one() {
    let round = NewRound::new(3, 2, 4);
    let scoring = round.lock_bets(Bet::from(vec![0, 0, 1, 1])).unwrap();
    let finished = scoring.lock_points(Points::from(vec![1, 0, 1, 0])).unwrap();
    let next = NewRound::from_previous(&finished);
    assert_eq!(next.context.dealer_index, 0);
    assert_eq!(next.context.amount_of_cards, 1);
    assert_eq!(next.context.amount_of_players, 4);
    assert!(!next.context.incrementing_phase);
}

#[test]
fn partial_bets_are_incomplete_and_the_round_stays_lockable() {
    let round = NewRound::new(0, 10, 4);
    let refused = round.lock_bets(Bet::from(vec![0, 1, 2])).unwrap_err();
    assert_eq!(refused.reason, LockError::Incomplete);
    assert_eq!(refused.round.context.amount_of_players, 4);
    assert_eq!(refused.round.context.amount_of_cards, 10);

    let refused = refused.round.lock_bets(Bet::from(vec![])).unwrap_err();
    assert_eq!(refused.reason, LockError::Incomplete);

    let scoring = refused.round.lock_bets(Bet::from(vec![0, 1, 2, 3])).unwrap();
    let finished = scoring.lock_points(Points::from(vec![0, 1, 2, 3])).unwrap();
    assert_eq!(finished.get_scores(), vec![2, 3, 4, 5]);
}

#[test]
fn too_many_bets_are_in_excess() {
    let round = NewRound::new(0, 10, 2);
    let refused = round.lock_bets(Bet::from(vec![0, 1, 2])).unwrap_err();
    assert_eq!(refused.reason, LockError::Excess);
    assert!(refused.round.lock_bets(Bet::from(vec![4, 5])).is_ok());
}

#[test]
fn partial_points_are_incomplete_and_the_round_stays_lockable() {
    let round = NewRound::new(0, 10, 3);
    let scoring = round.lock_bets(Bet::from(vec![1, 2, 3])).unwrap();
    let refused = scoring.lock_points(Points::from(vec![3])).unwrap_err();
    assert_eq!(refused.reason, LockError::Incomplete);
    let finished = refused.round.lock_points(Points::from(vec![3, 2, 1])).unwrap();
    assert_eq!(finished.get_scores(), vec![-2, 4, -2]);
}

#[test]
fn too_many_points_are_in_excess() {
    let round = NewRound::new(0, 10, 3);
    let scoring = round.lock_bets(Bet::from(vec![1, 2, 3])).unwrap();
    let refused = scoring.lock_points(Points::from(vec![3, 2, 1, 0])).unwrap_err();
    assert_eq!(refused.reason, LockError::Excess);
}

#[test]
fn points_do_not_lock_on_missing_bets() {
    let scoring: ScoringPhase = Round {
        context: Context::new(0, 3, 3),
        bets: Bet::from(vec![1]),
        points: NoPoints,
        scores: NoScores,
    };
    let refused = scoring.lock_points(Points::from(vec![0, 1, 2])).unwrap_err();
    assert_eq!(refused.reason, LockError::Incomplete);
}

#[test]
fn empty_round_of_no_players_locks_nothing() {
    let round = NewRound::new(0, 1, 0);
    let scoring = round.lock_bets(Bet::from(vec![])).unwrap();
    let finished = scoring.lock_points(Points::from(vec![])).unwrap();
    assert_eq!(finished.get_scores(), Vec::<i8>::new());
}
