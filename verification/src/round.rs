//! A single hand: its context, the facets it gathers phase by phase, and the
//! rule that turns a bet and the points won into a score.

use vstd::math::abs;
use vstd::prelude::*;

verus! {

/// The payoff of one player for one round: two more than the bet when the
/// bet is met exactly, otherwise the distance between bet and points, taken
/// negative.
pub open spec fn score(bet: int, points: int) -> int {
    if bet == points {
        bet + 2
    } else {
        -abs(bet - points)
    }
}

/// Whether the payoff for `bet` and `points` can be held in an `i8`.
pub open spec fn score_fits(bet: int, points: int) -> bool {
    i8::MIN <= score(bet, points) <= i8::MAX
}

/// A bet that is met pays the bet and two on top. A bet that is missed costs
/// what lies between bet and points, whichever of them is the larger, so
/// that every miss scores below zero. Among bets of no less than zero,
/// exactly those that are met score two or more.
pub proof fn law_score_by_hit_or_miss(bet: int, points: int)
    ensures
        bet == points ==> score(bet, points) == bet + 2,
        bet < points ==> score(bet, points) == bet - points,
        bet > points ==> score(bet, points) == points - bet,
        bet != points ==> score(bet, points) < 0,
        bet >= 0 ==> (score(bet, points) >= 2 <==> bet == points),
{
}

/// Where the bet is zero or differs from the points, the score is two
/// exactly when the bet is met.
pub proof fn law_score_two_iff_hit(bet: int, points: int)
    requires
        bet == 0 || bet != points,
    ensures
        score(bet, points) == 2 <==> bet == points,
{
}

/// Bets and points between zero and the number of cards dealt have scores
/// that fit, as long as no more than 125 cards are dealt.
pub proof fn law_entries_within_cards_fit(bets: Seq<i8>, points: Seq<i8>, amount_of_cards: nat)
    requires
        amount_of_cards <= 125,
        forall|i: int| 0 <= i < bets.len() ==> 0 <= #[trigger] bets[i] <= amount_of_cards,
        forall|i: int| 0 <= i < points.len() ==> 0 <= #[trigger] points[i] <= amount_of_cards,
    ensures
        scores_fit(bets, points),
{
}

/// Computes the payoff of one player for one round.
pub fn compute_score(bet: i8, points: i8) -> (result: i8)
    requires
        score_fits(bet as int, points as int),
    ensures
        result == score(bet as int, points as int),
{
    if bet == points {
        bet + 2
    } else if bet < points {
        bet - points
    } else {
        points - bet
    }
}

/// What a round knows about its place in the game. It is fixed when the round
/// starts and never changes afterwards.
#[derive(Debug, Clone)]
pub struct Context {
    /// Position of the dealer among the players, counted from zero.
    pub dealer_index: usize,
    /// Number of cards dealt to each player in this round.
    pub amount_of_cards: usize,
    /// Number of players, the same in every round of a game.
    pub amount_of_players: usize,
    /// Whether the card count has passed its lowest point and climbs again.
    pub incrementing_phase: bool,
}

/// A `Context` as plain numbers.
pub struct ContextView {
    pub dealer_index: nat,
    pub amount_of_cards: nat,
    pub amount_of_players: nat,
    pub incrementing_phase: bool,
}

impl View for Context {
    type V = ContextView;

    open spec fn view(&self) -> ContextView {
        ContextView {
            dealer_index: self.dealer_index as nat,
            amount_of_cards: self.amount_of_cards as nat,
            amount_of_players: self.amount_of_players as nat,
            incrementing_phase: self.incrementing_phase,
        }
    }
}

impl ContextView {
    /// The dealer sits among the players and at least one card is dealt.
    pub open spec fn wf(self) -> bool {
        &&& self.dealer_index < self.amount_of_players
        &&& self.amount_of_cards >= 1
    }

    /// The dealer of the round that follows: the next seat, wrapping round.
    pub open spec fn next_dealer(self) -> nat {
        (self.dealer_index + 1) % self.amount_of_players
    }

    /// The context of the round that follows this one. While the card count
    /// falls it loses one card per round; the round after the one-card round
    /// is again a one-card round and opens the climb, which adds one card per
    /// round.
    pub open spec fn succ(self) -> ContextView {
        ContextView {
            dealer_index: self.next_dealer(),
            amount_of_cards: if self.incrementing_phase {
                self.amount_of_cards + 1
            } else if self.amount_of_cards == 1 {
                1
            } else {
                (self.amount_of_cards - 1) as nat
            },
            amount_of_players: self.amount_of_players,
            incrementing_phase: self.incrementing_phase || self.amount_of_cards == 1,
        }
    }

    /// The numbers from which `succ` can be computed in machine integers.
    pub open spec fn has_succ(self) -> bool {
        &&& self.amount_of_players > 0
        &&& self.dealer_index < usize::MAX
        &&& self.incrementing_phase ==> self.amount_of_cards < usize::MAX
        &&& !self.incrementing_phase ==> self.amount_of_cards >= 1
    }
}

impl Context {
    /// The context of a round in the falling half of the game.
    pub fn new(dealer_index: usize, amount_of_cards: usize, amount_of_players: usize) -> (context: Self)
        ensures
            context@ == (ContextView {
                dealer_index: dealer_index as nat,
                amount_of_cards: amount_of_cards as nat,
                amount_of_players: amount_of_players as nat,
                incrementing_phase: false,
            }),
    {
        Self { dealer_index, amount_of_cards, amount_of_players, incrementing_phase: false }
    }

    /// The context of the round that follows `previous`.
    pub fn from_previous(previous: &Context) -> (context: Self)
        requires
            previous@.has_succ(),
        ensures
            context@ == previous@.succ(),
    {
        let incrementing_phase = previous.incrementing_phase || previous.amount_of_cards == 1;

        let amount_of_cards: usize = if previous.incrementing_phase {
            previous.amount_of_cards + 1
        } else if incrementing_phase {
            1
        } else {
            previous.amount_of_cards - 1
        };

        let dealer_index: usize = previous.next_dealer();
        let amount_of_players: usize = previous.amount_of_players;

        Self { dealer_index, amount_of_cards, amount_of_players, incrementing_phase }
    }

    fn next_dealer(&self) -> (dealer: usize)
        requires
            self.amount_of_players > 0,
            self.dealer_index < usize::MAX,
        ensures
            dealer == self@.next_dealer(),
    {
        (self.dealer_index + 1) % self.amount_of_players
    }
}

/// One hand of play. The three type parameters say which of bets, points
/// and scores the round holds so far, so that each phase has a type of its
/// own and offers only the step that is due.
#[derive(Debug, Clone)]
pub struct Round<B, P, S> {
    pub context: Context,
    pub bets: B,
    pub points: P,
    pub scores: S,
}

/// Stands where a round has no bets yet.
#[derive(Debug, Clone, Default)]
pub struct NoBet;

/// The locked bets of a round, one per player, in seat order.
#[derive(Debug, Clone, Default)]
pub struct Bet(Vec<i8>);

/// Stands where a round has no points yet.
#[derive(Debug, Clone, Default)]
pub struct NoPoints;

/// The locked points of a round, one entry per player, in seat order.
#[derive(Debug, Clone, Default)]
pub struct Points(Vec<i8>);

/// Stands where a round has no scores yet.
#[derive(Debug, Clone, Default)]
pub struct NoScores;

/// The scores of a finished round, one per player, in seat order.
#[derive(Debug, Clone, Default)]
pub struct Scores(Vec<i8>);

pub type NewRound = Round<NoBet, NoPoints, NoScores>;

pub type BettingPhase = Round<NoBet, NoPoints, NoScores>;

pub type ScoringPhase = Round<Bet, NoPoints, NoScores>;

pub type FinishedRound = Round<Bet, Points, Scores>;

impl View for Bet {
    type V = Seq<i8>;

    closed spec fn view(&self) -> Seq<i8> {
        self.0@
    }
}

impl View for Points {
    type V = Seq<i8>;

    closed spec fn view(&self) -> Seq<i8> {
        self.0@
    }
}

impl View for Scores {
    type V = Seq<i8>;

    closed spec fn view(&self) -> Seq<i8> {
        self.0@
    }
}

impl Bet {
    /// Locks `bets`, one per player in seat order.
    pub fn from(bets: Vec<i8>) -> (locked: Self)
        ensures
            locked@ == bets@,
    {
        Self(bets)
    }
}

impl Points {
    /// Locks `points`, one entry per player in seat order.
    pub fn from(points: Vec<i8>) -> (locked: Self)
        ensures
            locked@ == points@,
    {
        Self(points)
    }
}

/// Why a round declined to move on to its next phase.
#[derive(Debug, Clone, Copy, PartialEq, Eq, Structural)]
pub enum LockError {
    /// Some player has no entry yet.
    Incomplete,
    /// There are more entries than players.
    Excess,
}

/// A lock that was declined. The round comes back as it was handed in, so
/// that the lock can be asked for again.
#[derive(Debug)]
pub struct Refused<R> {
    pub round: R,
    pub reason: LockError,
}

impl LockError {
    /// How a sequence of `supplied` entries falls short of, or exceeds, the
    /// `expected` one per player; `None` where it is complete.
    pub open spec fn of(supplied: nat, expected: nat) -> Option<LockError> {
        if supplied < expected {
            Some(LockError::Incomplete)
        } else if supplied > expected {
            Some(LockError::Excess)
        } else {
            None
        }
    }

    fn check(supplied: usize, expected: usize) -> (verdict: Option<LockError>)
        ensures
            verdict == Self::of(supplied as nat, expected as nat),
    {
        if supplied < expected {
            Some(LockError::Incomplete)
        } else if supplied > expected {
            Some(LockError::Excess)
        } else {
            None
        }
    }
}

/// Whether every pair of a bet and the points won at the same position has a
/// payoff that can be held in an `i8`.
pub open spec fn scores_fit(bets: Seq<i8>, points: Seq<i8>) -> bool {
    forall|i: int|
        0 <= i < bets.len() && i < points.len() ==> score_fits(
            #[trigger] bets[i] as int,
            points[i] as int,
        )
}

/// Whether `scores` holds, position by position, the payoff of `bets`
/// against `points`.
pub open spec fn is_scoring_of(scores: Seq<i8>, bets: Seq<i8>, points: Seq<i8>) -> bool {
    &&& scores.len() == bets.len()
    &&& scores.len() == points.len()
    &&& forall|i: int|
        0 <= i < scores.len() ==> #[trigger] scores[i] == score(bets[i] as int, points[i] as int)
}

impl NewRound {
    /// A round in the falling half of the game, ready to take bets.
    pub fn new(dealer_index: usize, amount_of_cards: usize, amount_of_players: usize) -> (round:
        BettingPhase)
        ensures
            round.context@ == (ContextView {
                dealer_index: dealer_index as nat,
                amount_of_cards: amount_of_cards as nat,
                amount_of_players: amount_of_players as nat,
                incrementing_phase: false,
            }),
    {
        BettingPhase {
            context: Context::new(dealer_index, amount_of_cards, amount_of_players),
            bets: NoBet,
            points: NoPoints,
            scores: NoScores,
        }
    }

    /// The round that follows `previous`, ready to take bets.
    pub fn from_previous(previous: &FinishedRound) -> (round: BettingPhase)
        requires
            previous.context@.has_succ(),
        ensures
            round.context@ == previous.context@.succ(),
    {
        BettingPhase {
            context: Context::from_previous(&previous.context),
            bets: NoBet,
            points: NoPoints,
            scores: NoScores,
        }
    }
}

impl BettingPhase {
    /// What `lock_bets` returns.
    pub open spec fn locked(self, bets: Bet) -> Result<ScoringPhase, Refused<BettingPhase>> {
        match LockError::of(bets@.len(), self.context@.amount_of_players) {
            None => Ok(Round { context: self.context, bets, points: NoPoints, scores: NoScores }),
            Some(reason) => Err(Refused { round: self, reason }),
        }
    }

    /// Moves on to scoring with one bet per player, or declines and hands
    /// the round back. Only the number of bets is looked at, not what they
    /// are.
    pub fn lock_bets(self, bets: Bet) -> (outcome: Result<ScoringPhase, Refused<BettingPhase>>)
        ensures
            outcome == self.locked(bets),
    {
        match LockError::check(bets.0.len(), self.context.amount_of_players) {
            None => Ok(ScoringPhase { context: self.context, bets, points: NoPoints, scores: NoScores }),
            Some(reason) => Err(Refused { round: self, reason }),
        }
    }
}

/// A round that is asked to lock fewer bets than it has players declines as
/// incomplete and comes back unchanged; asked again with a bet for each
/// player, it locks them just as if it had never declined.
pub proof fn law_partial_bets_do_not_lock(round: BettingPhase, partial: Bet, complete: Bet)
    requires
        partial@.len() < round.context@.amount_of_players,
        complete@.len() == round.context@.amount_of_players,
    ensures
        round.locked(partial) == Err::<ScoringPhase, Refused<BettingPhase>>(
            Refused { round, reason: LockError::Incomplete },
        ),
        round.locked(partial)->Err_0.round.locked(complete) == round.locked(complete),
        round.locked(complete) == Ok::<ScoringPhase, Refused<BettingPhase>>(
            Round { context: round.context, bets: complete, points: NoPoints, scores: NoScores },
        ),
{
}

impl ScoringPhase {
    /// Why `lock_points` declines `points`; `None` where it goes ahead. The
    /// bets are looked at first.
    pub open spec fn refusal(self, points: Points) -> Option<LockError> {
        match LockError::of(self.bets@.len(), self.context@.amount_of_players) {
            Some(reason) => Some(reason),
            None => LockError::of(points@.len(), self.context@.amount_of_players),
        }
    }

    /// Finishes the round with one entry of points per player and derives
    /// the scores, or declines and hands the round back. Only the number of
    /// entries is looked at: bets and points are not held against the cards
    /// dealt, neither one by one nor in their sum, and each score is derived
    /// from whatever was entered.
    pub fn lock_points(self, points: Points) -> (outcome: Result<FinishedRound, Refused<ScoringPhase>>)
        requires
            self.refusal(points) is None ==> scores_fit(self.bets@, points@),
        ensures
            match outcome {
                Ok(finished) => {
                    &&& self.refusal(points) is None
                    &&& finished.context == self.context
                    &&& finished.bets == self.bets
                    &&& finished.points == points
                    &&& is_scoring_of(finished.scores@, self.bets@, points@)
                    &&& finished.wf()
                },
                Err(refused) => {
                    &&& self.refusal(points) == Some(refused.reason)
                    &&& refused.round == self
                },
            },
    {
        let players: usize = self.context.amount_of_players;
        if let Some(reason) = LockError::check(self.bets.0.len(), players) {
            return Err(Refused { round: self, reason });
        }
        if let Some(reason) = LockError::check(points.0.len(), players) {
            return Err(Refused { round: self, reason });
        }
        let mut scores: Vec<i8> = Vec::new();
        let mut i: usize = 0;
        while i < players
            invariant
                i <= players,
                players == self.bets.0.len(),
                players == points.0.len(),
                scores_fit(self.bets.0@, points.0@),
                is_scoring_of(scores@, self.bets.0@.take(i as int), points.0@.take(i as int)),
            decreases players - i,
        {
            scores.push(compute_score(self.bets.0[i], points.0[i]));
            i += 1;
        }
        Ok(FinishedRound { context: self.context, bets: self.bets, points, scores: Scores(scores) })
    }
}

impl FinishedRound {
    /// Every player has a bet, points and the score that follows from them.
    pub open spec fn wf(self) -> bool {
        &&& self.bets@.len() == self.context@.amount_of_players
        &&& is_scoring_of(self.scores@, self.bets@, self.points@)
    }

    /// The scores of the round, in seat order.
    pub fn get_scores(&self) -> (scores: Vec<i8>)
        ensures
            scores@ == self.scores@,
    {
        self.scores.0.clone()
    }
}

} // verus!
