use rikiki::round::Bet;
use rikiki::round::LockError;
use rikiki::round::Points;
use rikiki::Game;
use rikiki::GameBetting;
use rikiki::NewGame;
use rikiki::NextRoundOrGame;
use rikiki::Player;

fn table(amount: usize) -> Vec<Player> {
    (0..amount).map(|seat| Player(format!("player {seat}"))).collect()
}

/// Plays a whole game in which everybody bets and wins nothing, and returns
/// the number of rows on the score sheet seen after each round.
fn play_out(players: usize) -> (Vec<usize>, Game) {
    let mut seen = Vec::new();
    let mut game: GameBetting = NewGame::with_players(table(players));
    loop {
        let scoring = game.lock_bets(Bet::from(vec![0; players])).unwrap();
        let finished = scoring.lock_points(Points::from(vec![0; players])).unwrap();
        seen.push(finished.get_scores().len());
        match finished.next_round() {
            NextRoundOrGame::NextRound(next) => game = next,
            NextRoundOrGame::GameOver(over) => return (seen, over),
        }
    }
}

#[test]
fn player_from_anything_that_names_one() {
    assert_eq!(Player::from("Alice"), Player("Alice".to_string()));
    assert_eq!(Player::from(String::from("Bob")), Player("Bob".to_string()));
    assert_ne!(Player::from("Alice"), Player::from("Bob"));
}

#[test]
fn new_game_has_no_scores() {
    for players in [1usize, 4, 5, 6, 52, 53, 100] {
        let game = Game::new(table(players));
        assert_eq!(game.get_scores(), Vec::<Vec<i8>>::new());
    }
}

#[test]
fn scores_after_two_rounds() {
    let game = NewGame::with_players(vec![
        Player("Alice".to_string()),
        Player("Bob".to_string()),
        Player("Charlie".to_string()),
        Player("Diana".to_string()),
    ]);
    assert_eq!(game.get_scores(), Vec::<Vec<i8>>::new());

    let game = game.lock_bets(Bet::from(vec![0, 1, 2, 3])).unwrap();
    assert_eq!(game.get_scores(), Vec::<Vec<i8>>::new());
    let game = game.lock_points(Points::from(vec![0, 1, 2, 3])).unwrap();
    assert_eq!(game.get_scores(), vec![vec![2, 3, 4, 5]]);

    let game = match game.next_round() {
        NextRoundOrGame::NextRound(game) => game,
        NextRoundOrGame::GameOver(_) => panic!("the game has twenty rounds"),
    };
    assert_eq!(game.get_scores(), vec![vec![2, 3, 4, 5]]);

    let game = game.lock_bets(Bet::from(vec![0, 0, 2, 0])).unwrap();
    let game = game.lock_points(Points::from(vec![0, 5, 2, 3])).unwrap();
    assert_eq!(game.get_scores(), vec![vec![2, 3, 4, 5], vec![2, -5, 4, -3]]);

    match game.next_round() {
        NextRoundOrGame::NextRound(game) => {
            assert_eq!(game.get_scores(), vec![vec![2, 3, 4, 5], vec![2, -5, 4, -3]]);
        }
        NextRoundOrGame::GameOver(_) => panic!("the game has twenty rounds"),
    }
}

#[test]
fn four_players_play_twenty_rounds() {
    let (seen, over) = play_out(4);
    assert_eq!(seen, (1..=20).collect::<Vec<usize>>());
    assert_eq!(over.get_scores(), vec![vec![2i8; 4]; 20]);
}

#[test]
fn rounds_are_twice_the_first_deal() {
    let expected: [(usize, usize); 14] = [
        (1, 20),
        (2, 20),
        (5, 20),
        (6, 16),
        (7, 14),
        (8, 12),
        (9, 10),
        (10, 10),
        (13, 8),
        (17, 6),
        (18, 4),
        (26, 4),
        (27, 2),
        (52, 2),
    ];
    for (players, rounds) in expected {
        let (seen, over) = play_out(players);
        assert_eq!(seen.len(), rounds);
        let sheet = over.get_scores();
        assert_eq!(sheet.len(), rounds);
        for row in sheet {
            assert_eq!(row.len(), players);
        }
    }
}

#[test]
fn score_sheet_grows_with_each_finished_round() {
    let players = 6;
    let mut rounds = 0;
    let mut game = NewGame::with_players(table(players));
    loop {
        assert_eq!(game.get_scores().len(), rounds);
        let scoring = game.lock_bets(Bet::from(vec![1; players])).unwrap();
        assert_eq!(scoring.get_scores().len(), rounds);
        let finished = scoring.lock_points(Points::from(vec![0; players])).unwrap();
        rounds += 1;
        let sheet = finished.get_scores();
        assert_eq!(sheet.len(), rounds);
        for row in sheet {
            assert_eq!(row, vec![-1i8; players]);
        }
        match finished.next_round() {
            NextRoundOrGame::NextRound(next) => game = next,
            NextRoundOrGame::GameOver(over) => {
                assert_eq!(over.get_scores().len(), rounds);
                break;
            }
        }
    }
    assert_eq!(rounds, 16);
}

#[test]
fn game_declines_partial_bets_and_goes_on_with_complete_ones() {
    let game = NewGame::with_players(table(4));
    let refused = game.lock_bets(Bet::from(vec![0, 1])).unwrap_err();
    assert_eq!(refused.reason, LockError::Incomplete);
    assert_eq!(refused.round.get_scores(), Vec::<Vec<i8>>::new());

    let scoring = refused.round.lock_bets(Bet::from(vec![0, 1, 2, 3])).unwrap();
    let finished = scoring.lock_points(Points::from(vec![3, 2, 1, 0])).unwrap();
    assert_eq!(finished.get_scores(), vec![vec![-3, -1, -1, -3]]);
}

#[test]
fn game_declines_surplus_bets() {
    let game = NewGame::with_players(table(2));
    let refused = game.lock_bets(Bet::from(vec![0, 1, 2])).unwrap_err();
    assert_eq!(refused.reason, LockError::Excess);
    assert!(refused.round.lock_bets(Bet::from(vec![0, 1])).is_ok());
}

#[test]
fn game_declines_partial_points_and_goes_on_with_complete_ones() {
    let game = NewGame::with_players(table(3));
    let scoring = game.lock_bets(Bet::from(vec![1, 1, 1])).unwrap();
    let refused = scoring.lock_points(Points::from(vec![1, 1])).unwrap_err();
    assert_eq!(refused.reason, LockError::Incomplete);
    assert_eq!(refused.round.get_scores(), Vec::<Vec<i8>>::new());

    let refused = refused.round.lock_points(Points::from(vec![1, 1, 1, 1])).unwrap_err();
    assert_eq!(refused.reason, LockError::Excess);

    let finished = refused.round.lock_points(Points::from(vec![1, 0, 2])).unwrap();
    assert_eq!(finished.get_scores(), vec![vec![3, -1, -1]]);
}

#[test]
fn one_player_one_card_each_for_fifty_two() {
    let (seen, over) = play_out(52);
    assert_eq!(seen, vec![1, 2]);
    assert_eq!(over.get_scores(), vec![vec![2i8; 52]; 2]);
}
