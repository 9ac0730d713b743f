//! The rules of the game: choices, the outcome of a turn, and the score of a
//! session.

use rand::RngExt;
use vstd::prelude::*;

verus! {

/// Points gained by a winning turn.
pub const WIN_SCORE: u8 = 3;

/// Points taken away by a losing turn.
pub const LOSE_SCORE: u8 = 1;

/// A move in the game, made by the player or by the opponent.
#[derive(Clone, Copy, Debug, PartialEq, Eq, Structural)]
pub enum Option {
    Rock,
    Paper,
    Scissors,
}

/// How a turn ended, seen from the player's side.
#[derive(Clone, Copy, Debug, PartialEq, Eq, Structural)]
pub enum TurnResult {
    Win,
    Lose,
    Draw,
}

/// The score of one session. It starts at zero, never drops below zero and
/// never exceeds `u8::MAX`.
#[derive(Clone, Copy, Debug, PartialEq, Eq, Structural)]
pub struct Game {
    pub score: u8,
}

/// Whether `winner` beats `loser`: rock beats scissors, paper beats rock,
/// and scissors beat paper.
pub open spec fn beats(winner: Option, loser: Option) -> bool {
    ||| winner is Rock && loser is Scissors
    ||| winner is Paper && loser is Rock
    ||| winner is Scissors && loser is Paper
}

/// The outcome of a turn in which the player chose `player` and the opponent
/// chose `opponent`: a win where the player's choice beats the opponent's, a
/// loss where it is beaten, and a draw otherwise.
pub open spec fn outcome(player: Option, opponent: Option) -> TurnResult {
    if beats(player, opponent) {
        TurnResult::Win
    } else if beats(opponent, player) {
        TurnResult::Lose
    } else {
        TurnResult::Draw
    }
}

/// The pairs of a player's and an opponent's choice that end in `result`.
pub open spec fn pairs_ending_in(result: TurnResult) -> Set<(Option, Option)> {
    Set::new(|pair: (Option, Option)| outcome(pair.0, pair.1) == result)
}

/// `turns` losses in a row.
pub open spec fn losing_streak(turns: nat) -> Seq<TurnResult> {
    Seq::new(turns, |i: int| TurnResult::Lose)
}

/// What a turn that ended in `result` adds to the score, before clamping.
pub open spec fn score_delta(result: TurnResult) -> int {
    match result {
        TurnResult::Win => WIN_SCORE as int,
        TurnResult::Lose => -(LOSE_SCORE as int),
        TurnResult::Draw => 0,
    }
}

/// `value` brought into the range of scores, `0..=u8::MAX`.
pub open spec fn clamp_score(value: int) -> int {
    if value < 0 {
        0
    } else if value > u8::MAX as int {
        u8::MAX as int
    } else {
        value
    }
}

/// The score that follows `score` after a turn that ended in `result`.
pub open spec fn score_after(score: int, result: TurnResult) -> int {
    clamp_score(score + score_delta(result))
}

/// The score that follows `start` after the turns `results`, in order.
pub open spec fn score_after_turns(start: int, results: Seq<TurnResult>) -> int
    decreases results.len(),
{
    if results.len() == 0 {
        start
    } else {
        score_after(score_after_turns(start, results.drop_last()), results.last())
    }
}

/// The choice that the number `index` stands for: 0 is rock, 1 is paper, and
/// every other number is scissors.
pub open spec fn choice_at(index: u32) -> Option {
    if index == 0 {
        Option::Rock
    } else if index == 1 {
        Option::Paper
    } else {
        Option::Scissors
    }
}

/// Decides a turn between two choices.
pub fn resolve(player: Option, opponent: Option) -> (result: TurnResult)
    ensures
        result == outcome(player, opponent),
{
    match (player, opponent) {
        (Option::Rock, Option::Scissors)
        | (Option::Paper, Option::Rock)
        | (Option::Scissors, Option::Paper) => TurnResult::Win,
        (Option::Scissors, Option::Rock)
        | (Option::Rock, Option::Paper)
        | (Option::Paper, Option::Scissors) => TurnResult::Lose,
        _ => TurnResult::Draw,
    }
}

impl Option {
    /// The choice that a drawn number stands for.
    pub fn from_index(index: u32) -> (choice: Option)
        ensures
            choice == choice_at(index),
    {
        match index {
            0 => Option::Rock,
            1 => Option::Paper,
            _ => Option::Scissors,
        }
    }
}

impl TurnResult {
    /// The sentence that tells the player how the turn ended.
    pub open spec fn message_text(self) -> Seq<char> {
        match self {
            TurnResult::Win => "You win!"@,
            TurnResult::Lose => "You lose!"@,
            TurnResult::Draw => "It's a draw!"@,
        }
    }

    /// The sentence that tells the player how the turn ended.
    pub fn message(&self) -> (text: String)
        ensures
            text@ == self.message_text(),
    {
        match self {
            TurnResult::Win => "You win!".to_owned(),
            TurnResult::Lose => "You lose!".to_owned(),
            TurnResult::Draw => "It's a draw!".to_owned(),
        }
    }
}

/// Draws a number below `bound` with `RngExt::random_range` on the generator
/// that `rand::rng` hands out for the current thread. Which number comes is
/// left open: the contract claims only that it lies in the range `0..bound`
/// it is drawn from. The range must not be empty, or the draw panics; the
/// generator itself panics only if the system gives it no seed.
#[verifier::external_body]
fn random_below(bound: u32) -> (index: u32)
    requires
        bound > 0,
    ensures
        index < bound,
{
    rand::rng().random_range(0..bound)
}

/// The opponent's choice for one turn, drawn afresh on every call from the
/// numbers below three.
fn get_random() -> (choice: Option)
    ensures
        exists|index: u32| index < 3 && choice == choice_at(index),
{
    Option::from_index(random_below(3))
}

impl Game {
    /// A session that has not played a turn yet.
    pub fn new() -> (game: Game)
        ensures
            game.score == 0,
    {
        Game { score: 0 }
    }

    /// Books a turn that ended in `result`: a win adds `WIN_SCORE`, a loss
    /// takes `LOSE_SCORE` away, a draw changes nothing, and the score stays
    /// within `0..=u8::MAX`.
    pub fn record(&mut self, result: TurnResult)
        ensures
            final(self).score == score_after(old(self).score as int, result),
    {
        match result {
            TurnResult::Win => {
                self.score = self.score.saturating_add(WIN_SCORE);
            },
            TurnResult::Lose => {
                self.score = self.score.saturating_sub(LOSE_SCORE);
            },
            TurnResult::Draw => {},
        }
    }

    /// Plays one turn against a given opponent choice and books its outcome.
    pub fn play_against(&mut self, player_choice: Option, opponent_choice: Option) -> (result:
        TurnResult)
        ensures
            result == outcome(player_choice, opponent_choice),
            final(self).score == score_after(old(self).score as int, result),
    {
        let result = resolve(player_choice, opponent_choice);
        self.record(result);
        result
    }

    /// Plays one turn against an opponent whose choice is drawn at random,
    /// and books its outcome. Whatever the opponent chose, the new score is
    /// the old one moved by the returned outcome.
    pub fn process_turn(&mut self, player_choice: Option) -> (result: TurnResult)
        ensures
            exists|opponent_choice: Option| result == outcome(player_choice, opponent_choice),
            final(self).score == score_after(old(self).score as int, result),
    {
        let opponent_choice = get_random();
        self.play_against(player_choice, opponent_choice)
    }
}

/// The numbers below three stand for the three choices one to one, so a
/// number drawn evenly from them gives each choice as often as the others.
pub proof fn lemma_choices_match_indices(choice: Option)
    ensures
        exists|index: u32| index < 3 && choice_at(index) == choice,
        forall|first: u32, second: u32|
            first < 3 && second < 3 && choice_at(first) == choice_at(second) ==> first == second,
{
    let index: u32 = match choice {
        Option::Rock => 0,
        Option::Paper => 1,
        Option::Scissors => 2,
    };
    assert(index < 3 && choice_at(index) == choice);
}

/// A turn is drawn exactly where both sides made the same choice, and one
/// side wins exactly where the other loses.
pub proof fn lemma_outcome_symmetry(player: Option, opponent: Option)
    ensures
        outcome(player, opponent) is Draw <==> player == opponent,
        outcome(player, opponent) is Win <==> outcome(opponent, player) is Lose,
{
}

/// Of the nine pairs of choices exactly three end in a win, three in a loss
/// and three in a draw.
pub proof fn lemma_outcomes_are_balanced()
    ensures
        pairs_ending_in(TurnResult::Win).finite(),
        pairs_ending_in(TurnResult::Lose).finite(),
        pairs_ending_in(TurnResult::Draw).finite(),
        pairs_ending_in(TurnResult::Win).len() == 3,
        pairs_ending_in(TurnResult::Lose).len() == 3,
        pairs_ending_in(TurnResult::Draw).len() == 3,
{
    broadcast use vstd::set::group_set_axioms;

    assert(pairs_ending_in(TurnResult::Win) =~= set![
        (Option::Rock, Option::Scissors),
        (Option::Paper, Option::Rock),
        (Option::Scissors, Option::Paper),
    ]);
    assert(pairs_ending_in(TurnResult::Lose) =~= set![
        (Option::Scissors, Option::Rock),
        (Option::Rock, Option::Paper),
        (Option::Paper, Option::Scissors),
    ]);
    assert(pairs_ending_in(TurnResult::Draw) =~= set![
        (Option::Rock, Option::Rock),
        (Option::Paper, Option::Paper),
        (Option::Scissors, Option::Scissors),
    ]);
}

/// Through any sequence of turns the score after each turn is the score
/// before it, moved by that turn's points and clamped to `0..=u8::MAX`.
pub proof fn lemma_score_after_each_turn(start: int, results: Seq<TurnResult>, turn: int)
    requires
        0 <= turn < results.len(),
    ensures
        score_after_turns(start, results.take(turn + 1)) == clamp_score(
            score_after_turns(start, results.take(turn)) + score_delta(results[turn]),
        ),
{
    assert(results.take(turn + 1).drop_last() =~= results.take(turn));
}

/// A score that starts within `0..=u8::MAX` stays there, whatever turns are
/// played: it never goes negative and never passes the maximum.
pub proof fn lemma_score_stays_in_range(start: int, results: Seq<TurnResult>)
    requires
        0 <= start <= u8::MAX,
    ensures
        0 <= score_after_turns(start, results) <= u8::MAX,
    decreases results.len(),
{
    if results.len() > 0 {
        lemma_score_stays_in_range(start, results.drop_last());
    }
}

/// Losses in a row take one point each until the score is zero, and leave it
/// at zero from then on.
pub proof fn lemma_losing_streak_stops_at_zero(start: int, turns: nat)
    requires
        0 <= start <= u8::MAX,
    ensures
        score_after_turns(start, losing_streak(turns)) == if start >= turns {
            start - turns
        } else {
            0
        },
    decreases turns,
{
    if turns > 0 {
        lemma_losing_streak_stops_at_zero(start, (turns - 1) as nat);
        assert(losing_streak(turns).drop_last() =~= losing_streak((turns - 1) as nat));
    }
}

} // verus!
