//! Round-by-round bookkeeping for a trick-taking card game in which every
//! player bets on the number of tricks they will win.
//!
//! A game is played as a fixed number of rounds. Each round takes the
//! players' bets, then the points they won, and derives a score for each
//! player. The number of cards dealt falls by one from round to round until
//! one card is left, then rises again to where it started, and the deal
//! passes from seat to seat. Each phase of the game has a type of its own,
//! so that only the step that is due can be taken.

use crate::round::is_scoring_of;
use crate::round::scores_fit;
use crate::round::Bet;
use crate::round::BettingPhase;
use crate::round::ContextView;
use crate::round::FinishedRound;
use crate::round::LockError;
use crate::round::NewRound;
use crate::round::Points;
use crate::round::Refused;
use crate::round::ScoringPhase;
use crate::schedule::cards_of_round;
use crate::schedule::context_of_round;
use crate::schedule::initial_cards;
use crate::schedule::lemma_context_of_round;
use crate::schedule::lemma_initial_cards_bounds;
use crate::schedule::opening_context;
use crate::schedule::playable;
use crate::schedule::total_rounds;
use crate::schedule::DECK_SIZE;
use crate::schedule::MAX_CARDS;
use vstd::prelude::*;

pub mod round;
pub mod schedule;

verus! {

/// A player, known by a display name. Within a game a player is found by
/// their seat, not by their name.
#[derive(Debug, Clone, Hash, Eq, PartialEq)]
pub struct Player(pub String);

impl View for Player {
    type V = Seq<char>;

    open spec fn view(&self) -> Seq<char> {
        self.0@
    }
}

impl<T: Into<String>> From<T> for Player {
    fn from(t: T) -> (player: Self) {
        Self(t.into())
    }
}

impl<T: Into<String>> vstd::std_specs::convert::FromSpecImpl<T> for Player {
    open spec fn obeys_from_spec() -> bool {
        <T as vstd::std_specs::convert::IntoSpec<String>>::obeys_into_spec()
    }

    open spec fn from_spec(t: T) -> Player {
        Player(<T as vstd::std_specs::convert::IntoSpec<String>>::into_spec(t))
    }
}

/// A round in whichever phase it has reached.
#[derive(Debug, Clone)]
pub enum CurrentRound {
    NewRound(NewRound),
    BettingPhase(BettingPhase),
    ScoringPhase(ScoringPhase),
    FinishedRound(FinishedRound),
}

/// The rounds of a game that are finished, in the order they were played,
/// and the number of rounds the game has in all.
#[derive(Debug)]
pub struct Game {
    amount_of_rounds: usize,
    rounds: Vec<FinishedRound>,
}

/// Where a game starts.
pub struct NewGame;

/// Whether `rounds` are, in order, well-formed finished rounds of a game
/// for `players` players, the first of them its opening round.
pub open spec fn follows_schedule(rounds: Seq<FinishedRound>, players: nat) -> bool {
    forall|i: int|
        0 <= i < rounds.len() ==> {
            &&& (#[trigger] rounds[i]).wf()
            &&& rounds[i].context@ == context_of_round(players, i as nat)
        }
}

/// The score sheet of `rounds`: one row per round, one entry per player.
pub open spec fn score_sheet(rounds: Seq<FinishedRound>) -> Seq<Seq<i8>> {
    Seq::new(rounds.len(), |i: int| rounds[i].scores@)
}

/// The rows of a score sheet as it is handed out.
pub open spec fn rows(sheet: Seq<Vec<i8>>) -> Seq<Seq<i8>> {
    Seq::new(sheet.len(), |i: int| sheet[i]@)
}

impl Game {
    /// The number of rounds the game has in all.
    pub closed spec fn amount_of_rounds(&self) -> nat {
        self.amount_of_rounds as nat
    }

    /// The finished rounds, in the order they were played.
    pub closed spec fn rounds(&self) -> Seq<FinishedRound> {
        self.rounds@
    }

    /// The number of players, read from the first finished round.
    pub open spec fn players(&self) -> nat {
        self.rounds()[0].context@.amount_of_players
    }

    /// No more rounds are finished than the game has, and once a round is
    /// finished the game is one for its number of players and its rounds
    /// follow the schedule.
    #[verifier::type_invariant]
    pub open spec fn wf(&self) -> bool {
        &&& self.rounds().len() <= self.amount_of_rounds()
        &&& self.amount_of_rounds() <= 2 * MAX_CARDS
        &&& self.rounds().len() > 0 ==> {
            &&& playable(self.players())
            &&& self.amount_of_rounds() == total_rounds(self.players())
            &&& follows_schedule(self.rounds(), self.players())
        }
    }

    /// Whether every round of the game is finished.
    pub open spec fn is_over(&self) -> bool {
        self.rounds().len() == self.amount_of_rounds()
    }

    /// A game for `players` with no round finished yet.
    pub fn new(players: Vec<Player>) -> (game: Self)
        requires
            players.len() >= 1,
        ensures
            game.amount_of_rounds() == total_rounds(players.len() as nat),
            game.rounds() == Seq::<FinishedRound>::empty(),
            game.wf(),
    {
        let amount_of_cards: usize = first_deal(players.len());
        let amount_of_rounds: usize = amount_of_cards * 2;

        Self { amount_of_rounds, rounds: Vec::with_capacity(amount_of_rounds) }
    }

    /// The scores of the finished rounds, one row per round in the order
    /// they were played, one entry per player in seat order.
    pub fn get_scores(&self) -> (sheet: Vec<Vec<i8>>)
        ensures
            sheet.len() == self.rounds().len(),
            rows(sheet@) == score_sheet(self.rounds()),
            forall|i: int| 0 <= i < sheet.len() ==> (#[trigger] sheet[i]).len() == self.players(),
    {
        proof {
            use_type_invariant(self);
        }
        let sheet = sheet_of(&self.rounds);
        proof {
            if self.rounds().len() > 0 {
                lemma_rows_have_an_entry_per_player(sheet@, self.rounds(), self.players());
            }
        }
        sheet
    }
}

/// Cards dealt to each of `amount_players` players in the first round.
fn first_deal(amount_players: usize) -> (amount_of_cards: usize)
    requires
        amount_players >= 1,
    ensures
        amount_of_cards == initial_cards(amount_players as nat),
        amount_of_cards <= MAX_CARDS,
{
    let share: usize = DECK_SIZE / amount_players;
    if share < MAX_CARDS {
        share
    } else {
        MAX_CARDS
    }
}

/// Copies the scores out of `rounds`.
fn sheet_of(rounds: &Vec<FinishedRound>) -> (sheet: Vec<Vec<i8>>)
    ensures
        sheet.len() == rounds.len(),
        rows(sheet@) == score_sheet(rounds@),
{
    let mut sheet: Vec<Vec<i8>> = Vec::new();
    let mut i: usize = 0;
    while i < rounds.len()
        invariant
            i <= rounds.len(),
            sheet.len() == i,
            forall|j: int| 0 <= j < i ==> (#[trigger] sheet[j])@ == rounds[j].scores@,
        decreases rounds.len() - i,
    {
        sheet.push(rounds[i].get_scores());
        i += 1;
    }
    assert(rows(sheet@) =~= score_sheet(rounds@));
    sheet
}

/// Whether `context` is that of the round now due in `game`: the game is
/// one for the context's number of players, not all its rounds are finished,
/// those that are follow the schedule, and `context` is what the schedule
/// gives for the round after them.
pub open spec fn in_play(game: Game, context: ContextView) -> bool {
    let players = context.amount_of_players;
    &&& game.wf()
    &&& playable(players)
    &&& game.amount_of_rounds() == total_rounds(players)
    &&& game.rounds().len() < game.amount_of_rounds()
    &&& follows_schedule(game.rounds(), players)
    &&& context == context_of_round(players, game.rounds().len())
}

/// A game whose current round waits for the bets.
#[derive(Debug)]
pub struct GameBetting {
    game: Game,
    current_round: BettingPhase,
}

/// A game whose current round has its bets and waits for the points.
#[derive(Debug)]
pub struct GameScoring {
    game: Game,
    current_round: ScoringPhase,
}

/// A game whose current round is finished and waits to be followed by the
/// next round or by the end of the game.
#[derive(Debug)]
pub struct GameRoundFinished {
    game: Game,
    current_round: FinishedRound,
}

/// What follows a finished round.
pub enum NextRoundOrGame {
    /// The game goes on with the next round, which waits for the bets.
    NextRound(GameBetting),
    /// That was the last round; here is the game with all its rounds.
    GameOver(Game),
}

impl NewGame {
    /// Starts a game: no round is finished and the opening round waits for
    /// the bets.
    pub fn with_players(players: Vec<Player>) -> (start: GameBetting)
        requires
            playable(players.len() as nat),
        ensures
            start.wf(),
            start.game().rounds() == Seq::<FinishedRound>::empty(),
            start.game().amount_of_rounds() == total_rounds(players.len() as nat),
            start.current_round().context@ == opening_context(players.len() as nat),
    {
        let amount_players: usize = players.len();
        let amount_of_cards: usize = first_deal(amount_players);

        proof {
            lemma_initial_cards_bounds(amount_players as nat);
        }
        let game = Game::new(players);
        let current_round = NewRound::new(0, amount_of_cards, amount_players);
        GameBetting { game, current_round }
    }
}

impl GameBetting {
    /// The finished rounds and the number of rounds in all.
    pub closed spec fn game(&self) -> Game {
        self.game
    }

    /// The round that waits for the bets.
    pub closed spec fn current_round(&self) -> BettingPhase {
        self.current_round
    }

    /// The number of players.
    pub open spec fn players(&self) -> nat {
        self.current_round().context@.amount_of_players
    }

    /// The rounds finished so far, in the order they were played.
    pub open spec fn finished_rounds(&self) -> Seq<FinishedRound> {
        self.game().rounds()
    }

    /// The current round is the one now due in the game.
    #[verifier::type_invariant]
    pub open spec fn wf(&self) -> bool {
        in_play(self.game(), self.current_round().context@)
    }

    /// Moves the current round on to scoring with one bet per player, or
    /// declines and hands the game back as it was.
    pub fn lock_bets(self, bets: Bet) -> (outcome: Result<GameScoring, Refused<GameBetting>>)
        ensures
            match outcome {
                Ok(next) => {
                    &&& LockError::of(bets@.len(), self.players()) is None
                    &&& next.game() == self.game()
                    &&& next.current_round().context == self.current_round().context
                    &&& next.current_round().bets == bets
                    &&& next.wf()
                },
                Err(refused) => {
                    &&& LockError::of(bets@.len(), self.players()) == Some(refused.reason)
                    &&& refused.round == self
                },
            },
    {
        proof {
            use_type_invariant(&self);
        }
        let GameBetting { game, current_round } = self;
        match current_round.lock_bets(bets) {
            Ok(current_round) => Ok(GameScoring { game, current_round }),
            Err(refused) => Err(
                Refused {
                    round: GameBetting { game, current_round: refused.round },
                    reason: refused.reason,
                },
            ),
        }
    }

    /// The scores of the finished rounds, one row per round in the order
    /// they were played, one entry per player in seat order.
    pub fn get_scores(&self) -> (sheet: Vec<Vec<i8>>)
        ensures
            sheet.len() == self.finished_rounds().len(),
            rows(sheet@) == score_sheet(self.finished_rounds()),
            forall|i: int| 0 <= i < sheet.len() ==> (#[trigger] sheet[i]).len() == self.players(),
    {
        proof {
            use_type_invariant(self);
        }
        let sheet = sheet_of(&self.game.rounds);
        proof {
            lemma_rows_have_an_entry_per_player(sheet@, self.finished_rounds(), self.players());
        }
        sheet
    }
}

impl GameScoring {
    /// The finished rounds and the number of rounds in all.
    pub closed spec fn game(&self) -> Game {
        self.game
    }

    /// The round that has its bets and waits for the points.
    pub closed spec fn current_round(&self) -> ScoringPhase {
        self.current_round
    }

    /// The number of players.
    pub open spec fn players(&self) -> nat {
        self.current_round().context@.amount_of_players
    }

    /// The rounds finished so far, in the order they were played.
    pub open spec fn finished_rounds(&self) -> Seq<FinishedRound> {
        self.game().rounds()
    }

    /// The current round is the one now due in the game and holds a bet for
    /// each player.
    #[verifier::type_invariant]
    pub open spec fn wf(&self) -> bool {
        &&& in_play(self.game(), self.current_round().context@)
        &&& self.current_round().bets@.len() == self.players()
    }

    /// Finishes the current round with one entry of points per player and
    /// derives the scores, or declines and hands the game back as it was.
    pub fn lock_points(self, points: Points) -> (outcome: Result<
        GameRoundFinished,
        Refused<GameScoring>,
    >)
        requires
            LockError::of(points@.len(), self.players()) is None ==> scores_fit(
                self.current_round().bets@,
                points@,
            ),
        ensures
            match outcome {
                Ok(next) => {
                    &&& LockError::of(points@.len(), self.players()) is None
                    &&& next.game() == self.game()
                    &&& next.current_round().context == self.current_round().context
                    &&& next.current_round().bets == self.current_round().bets
                    &&& next.current_round().points == points
                    &&& is_scoring_of(
                        next.current_round().scores@,
                        self.current_round().bets@,
                        points@,
                    )
                    &&& next.wf()
                },
                Err(refused) => {
                    &&& LockError::of(points@.len(), self.players()) == Some(refused.reason)
                    &&& refused.round == self
                },
            },
    {
        proof {
            use_type_invariant(&self);
        }
        let GameScoring { game, current_round } = self;
        match current_round.lock_points(points) {
            Ok(current_round) => Ok(GameRoundFinished { game, current_round }),
            Err(refused) => Err(
                Refused {
                    round: GameScoring { game, current_round: refused.round },
                    reason: refused.reason,
                },
            ),
        }
    }

    /// The scores of the finished rounds, one row per round in the order
    /// they were played, one entry per player in seat order.
    pub fn get_scores(&self) -> (sheet: Vec<Vec<i8>>)
        ensures
            sheet.len() == self.finished_rounds().len(),
            rows(sheet@) == score_sheet(self.finished_rounds()),
            forall|i: int| 0 <= i < sheet.len() ==> (#[trigger] sheet[i]).len() == self.players(),
    {
        proof {
            use_type_invariant(self);
        }
        let sheet = sheet_of(&self.game.rounds);
        proof {
            lemma_rows_have_an_entry_per_player(sheet@, self.finished_rounds(), self.players());
        }
        sheet
    }
}

impl GameRoundFinished {
    /// The rounds finished before the current one and the number of rounds
    /// in all.
    pub closed spec fn game(&self) -> Game {
        self.game
    }

    /// The round that was just finished.
    pub closed spec fn current_round(&self) -> FinishedRound {
        self.current_round
    }

    /// The number of players.
    pub open spec fn players(&self) -> nat {
        self.current_round().context@.amount_of_players
    }

    /// The rounds finished so far, in the order they were played: the last
    /// of them is the current round.
    pub open spec fn finished_rounds(&self) -> Seq<FinishedRound> {
        self.game().rounds().push(self.current_round())
    }

    /// Whether the current round is the last of the game.
    pub open spec fn is_last_round(&self) -> bool {
        self.finished_rounds().len() == self.game().amount_of_rounds()
    }

    /// The current round is the one now due in the game and holds bets,
    /// points and scores for each player.
    #[verifier::type_invariant]
    pub open spec fn wf(&self) -> bool {
        &&& in_play(self.game(), self.current_round().context@)
        &&& self.current_round().wf()
    }

    /// Files the current round with the finished ones. After the last round
    /// the game is over and comes back with all its rounds; otherwise the
    /// round that the schedule gives next waits for the bets.
    pub fn next_round(self) -> (outcome: NextRoundOrGame)
        ensures
            match outcome {
                NextRoundOrGame::NextRound(next) => {
                    &&& !self.is_last_round()
                    &&& next.game().rounds() == self.finished_rounds()
                    &&& next.game().amount_of_rounds() == self.game().amount_of_rounds()
                    &&& next.current_round().context@ == self.current_round().context@.succ()
                    &&& next.wf()
                },
                NextRoundOrGame::GameOver(game) => {
                    &&& self.is_last_round()
                    &&& game.rounds() == self.finished_rounds()
                    &&& game.amount_of_rounds() == self.game().amount_of_rounds()
                    &&& game.is_over()
                    &&& game.wf()
                },
            },
    {
        proof {
            use_type_invariant(&self);
            lemma_context_of_round(self.players(), self.game().rounds().len());
            lemma_initial_cards_bounds(self.players());
        }
        let GameRoundFinished { game, current_round } = self;
        let Game { amount_of_rounds, mut rounds } = game;

        if amount_of_rounds == rounds.len() + 1 {
            rounds.push(current_round);
            return NextRoundOrGame::GameOver(Game { amount_of_rounds, rounds });
        }
        let next_round = NewRound::from_previous(&current_round);

        rounds.push(current_round);

        NextRoundOrGame::NextRound(
            GameBetting { game: Game { amount_of_rounds, rounds }, current_round: next_round },
        )
    }

    /// The scores of the finished rounds, the current round among them, one
    /// row per round in the order they were played, one entry per player in
    /// seat order.
    pub fn get_scores(&self) -> (sheet: Vec<Vec<i8>>)
        ensures
            sheet.len() == self.finished_rounds().len(),
            rows(sheet@) == score_sheet(self.finished_rounds()),
            forall|i: int| 0 <= i < sheet.len() ==> (#[trigger] sheet[i]).len() == self.players(),
    {
        proof {
            use_type_invariant(self);
        }
        let mut sheet = sheet_of(&self.game.rounds);
        let ghost filed = sheet@;
        sheet.push(self.current_round.get_scores());
        proof {
            let before = self.game().rounds();
            assert(rows(filed).len() == filed.len());
            assert(score_sheet(before).len() == before.len());
            assert forall|i: int| 0 <= i < sheet.len() implies rows(sheet@)[i] == score_sheet(
                self.finished_rounds(),
            )[i] by {
                if i < filed.len() {
                    assert(rows(filed)[i] == filed[i]@);
                    assert(score_sheet(before)[i] == before[i].scores@);
                }
            }
            assert(rows(sheet@) =~= score_sheet(self.finished_rounds()));
            lemma_rows_have_an_entry_per_player(sheet@, self.finished_rounds(), self.players());
        }
        sheet
    }
}

/// Every finished round of a game was played by the same players, dealt the
/// cards and had the dealer that the schedule gives for its number, and has
/// a score for each player.
pub proof fn law_finished_rounds_keep_schedule(game: Game, round: int)
    requires
        game.wf(),
        0 <= round < game.rounds().len(),
    ensures
        ({
            let players = game.players();
            let finished = game.rounds()[round];
            &&& playable(players)
            &&& game.amount_of_rounds() == total_rounds(players)
            &&& finished.context@.amount_of_players == players
            &&& finished.context@.amount_of_cards == cards_of_round(
                initial_cards(players),
                round as nat,
            )
            &&& finished.context@.dealer_index == round as nat % players
            &&& finished.context@.incrementing_phase == (round >= initial_cards(players))
            &&& finished.scores@.len() == players
            &&& is_scoring_of(finished.scores@, finished.bets@, finished.points@)
        }),
{
    assert(game.rounds()[round].wf());
    lemma_context_of_round(game.players(), round as nat);
}

/// In a game that is over, twice as many rounds are finished as the first
/// round dealt cards. The first and the last round dealt the same number of
/// cards; from round to round the cards fell by one until one was left, were
/// one again in the round after, and then rose by one.
pub proof fn law_cards_across_a_finished_game(game: Game, round: int)
    requires
        game.wf(),
        game.is_over(),
        0 <= round < game.rounds().len(),
    ensures
        ({
            let initial = initial_cards(game.players());
            let last = game.rounds().len() - 1;
            let cards = game.rounds()[round].context@.amount_of_cards;
            &&& game.rounds().len() == 2 * initial
            &&& game.rounds()[0].context@.amount_of_cards == initial
            &&& game.rounds()[last].context@.amount_of_cards == initial
            &&& 1 <= cards <= initial
            &&& round < last ==> {
                let next = game.rounds()[round + 1].context@.amount_of_cards;
                &&& round + 1 < initial ==> next == cards - 1
                &&& round + 1 == initial ==> cards == 1 && next == 1
                &&& round >= initial ==> next == cards + 1
            }
        }),
{
    let last = game.rounds().len() - 1;
    law_finished_rounds_keep_schedule(game, 0);
    law_finished_rounds_keep_schedule(game, last);
    law_finished_rounds_keep_schedule(game, round);
    if round < last {
        law_finished_rounds_keep_schedule(game, round + 1);
    }
    lemma_initial_cards_bounds(game.players());
}

/// The round now due in a game deals between one and ten cards, as many as
/// the schedule gives for its number, and has the dealer that the schedule
/// gives for it.
pub proof fn law_round_in_play_keeps_schedule(game: Game, context: ContextView)
    requires
        in_play(game, context),
    ensures
        ({
            let players = context.amount_of_players;
            let round = game.rounds().len();
            &&& context.amount_of_cards == cards_of_round(initial_cards(players), round)
            &&& 1 <= context.amount_of_cards <= initial_cards(players) <= MAX_CARDS
            &&& context.dealer_index == round % players
            &&& context.incrementing_phase == (round >= initial_cards(players))
        }),
{
    lemma_context_of_round(context.amount_of_players, game.rounds().len());
    lemma_initial_cards_bounds(context.amount_of_players);
}

/// A score sheet of rounds that follow the schedule has an entry for each
/// player in every row.
proof fn lemma_rows_have_an_entry_per_player(
    sheet: Seq<Vec<i8>>,
    rounds: Seq<FinishedRound>,
    players: nat,
)
    requires
        playable(players),
        follows_schedule(rounds, players),
        rows(sheet) == score_sheet(rounds),
    ensures
        sheet.len() == rounds.len(),
        forall|i: int| 0 <= i < sheet.len() ==> (#[trigger] sheet[i]).len() == players,
{
    assert(rows(sheet).len() == sheet.len());
    assert(score_sheet(rounds).len() == rounds.len());
    assert forall|i: int| 0 <= i < sheet.len() implies (#[trigger] sheet[i]).len() == players by {
        assert(rows(sheet)[i] == sheet[i]@);
        assert(score_sheet(rounds)[i] == rounds[i].scores@);
        assert(rounds[i].wf());
        lemma_context_of_round(players, i as nat);
    }
}

} // verus!
