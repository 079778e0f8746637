//! The judge of the guessing game.
//!
//! A `Game` owns a secret number between 1 and 100 and the text of the last
//! guess that was a number. It classifies one guess at a time.

use crate::text::{
    all_whitespace, decimal_string, decimal_text, decimal_value, is_decimal,
    lemma_parse_decimal_text, lemma_trim_decimal_text, parse_trimmed, parse_u32, trim,
};
use vstd::prelude::*;

verus! {

/// Why a provider has no guess to give.
#[derive(Clone, Copy, Debug, PartialEq, Eq, Structural)]
pub enum ProvidesGuessError {
    /// Nothing was submitted.
    Empty,
}

/// How one guess was classified.
#[derive(Clone, Copy, Debug, PartialEq, Eq, Structural)]
pub enum GameState {
    /// No guess was submitted.
    GuessNotMade,
    /// What was submitted is not a number.
    GuessIsInvalid,
    /// The guess is below the secret.
    GuessIsLow,
    /// The guess is above the secret.
    GuessIsHigh,
    /// The guess is the secret.
    GuessWon,
}

/// The least secret a game can hold.
pub const SECRET_MIN: u32 = 1;

/// The greatest secret a game can hold.
pub const SECRET_MAX: u32 = 100;

/// Anything that can hand over a raw guess, or say that there is none.
pub trait ProvidesGuess {
    /// Hands over the raw guess.
    fn guess(&self) -> Result<String, ProvidesGuessError>;
}

/// A provider's answer, its text taken as a sequence of characters.
pub open spec fn raw_text(raw: Result<String, ProvidesGuessError>) -> Result<
    Seq<char>,
    ProvidesGuessError,
> {
    match raw {
        Ok(text) => Ok(text@),
        Err(reason) => Err(reason),
    }
}

/// What a game is, seen from outside: its secret and the text of the last
/// guess that was a number.
pub struct GameView {
    pub secret: nat,
    pub guess: Seq<char>,
}

/// Where a guess stands against the secret. Equality wins; a guess is not
/// held to the range of the secret.
pub open spec fn compare(guess: nat, secret: nat) -> GameState {
    if guess < secret {
        GameState::GuessIsLow
    } else if guess > secret {
        GameState::GuessIsHigh
    } else {
        GameState::GuessWon
    }
}

/// How a raw text is classified against the secret: a text that, white
/// space at its ends set aside, is no number is invalid, whatever the
/// secret; a number is compared.
pub open spec fn judge_text(secret: nat, raw: Seq<char>) -> GameState {
    match parse_u32(trim(raw)) {
        None => GameState::GuessIsInvalid,
        Some(guess) => compare(guess as nat, secret),
    }
}

/// How a provider's answer is classified against the secret.
pub open spec fn judge(secret: nat, provided: Result<Seq<char>, ProvidesGuessError>) -> GameState {
    match provided {
        Err(_) => GameState::GuessNotMade,
        Ok(raw) => judge_text(secret, raw),
    }
}

/// The text that a game keeps of a provider's answer: the decimal text of
/// the number guessed, and nothing where no number was guessed.
pub open spec fn kept_text(provided: Result<Seq<char>, ProvidesGuessError>) -> Seq<char> {
    match provided {
        Err(_) => Seq::empty(),
        Ok(raw) => match parse_u32(trim(raw)) {
            None => Seq::empty(),
            Some(guess) => decimal_text(guess as nat),
        },
    }
}

/// The game after one guess: the secret stays, the kept text is that of
/// this guess alone.
pub open spec fn after_guess(
    game: GameView,
    provided: Result<Seq<char>, ProvidesGuessError>,
) -> GameView {
    GameView { secret: game.secret, guess: kept_text(provided) }
}

/// Whether `text` can be the kept text of a game: empty, or the decimal
/// text of a 32-bit number.
pub open spec fn is_kept_text(text: Seq<char>) -> bool {
    text.len() == 0 || exists|n: u32| text == #[trigger] decimal_text(n as nat)
}

/// What holds of every game: the secret is between 1 and 100, and the kept
/// text is empty or the decimal text of a number.
pub open spec fn is_valid(game: GameView) -> bool {
    &&& SECRET_MIN <= game.secret <= SECRET_MAX
    &&& is_kept_text(game.guess)
}

/// A guess that is a number is won exactly where it equals the secret, low
/// exactly where it is below, and high exactly where it is above.
pub proof fn lemma_number_is_compared(secret: nat, raw: Seq<char>, guess: u32)
    requires
        SECRET_MIN <= secret <= SECRET_MAX,
        parse_u32(trim(raw)) == Some(guess),
    ensures
        judge(secret, Ok(raw)) == GameState::GuessWon <==> guess == secret,
        judge(secret, Ok(raw)) == GameState::GuessIsLow <==> guess < secret,
        judge(secret, Ok(raw)) == GameState::GuessIsHigh <==> guess > secret,
{
}

/// A guess counts as not made exactly where the provider has none to give,
/// whatever the secret.
pub proof fn lemma_not_made_iff_none_provided(
    secret: nat,
    provided: Result<Seq<char>, ProvidesGuessError>,
)
    ensures
        judge(secret, provided) == GameState::GuessNotMade <==> provided is Err,
{
}

/// A guess is invalid exactly where its text, white space at the ends set
/// aside, is not an unsigned decimal number that fits 32 bits. The secret
/// has no part in it, nor has the size of a number that fits.
pub proof fn lemma_invalid_iff_no_number(secret: nat, raw: Seq<char>)
    ensures
        judge(secret, Ok(raw)) == GameState::GuessIsInvalid <==> !(is_decimal(trim(raw))
            && decimal_value(trim(raw)) <= u32::MAX),
{
}

/// The same guess, made again with no reset between, is classified as it
/// was the first time, and leaves the game as the first time left it.
pub proof fn lemma_repeated_guess(game: GameView, provided: Result<Seq<char>, ProvidesGuessError>)
    ensures
        judge(after_guess(game, provided).secret, provided) == judge(game.secret, provided),
        after_guess(after_guess(game, provided), provided) == after_guess(game, provided),
{
}

/// The text kept of a guess that is a number is the decimal text of that
/// number: it reads as the same number, and has no white space at its
/// ends, whatever white space stood around the guess.
pub proof fn lemma_kept_text_round_trip(raw: Seq<char>, guess: u32)
    requires
        parse_u32(trim(raw)) == Some(guess),
    ensures
        kept_text(Ok(raw)) == decimal_text(guess as nat),
        trim(kept_text(Ok(raw))) == kept_text(Ok(raw)),
        parse_u32(kept_text(Ok(raw))) == Some(guess),
{
    let empty = Seq::<char>::empty();
    lemma_parse_decimal_text(guess, empty, empty);
    lemma_trim_decimal_text(guess as nat);
    assert(empty + decimal_text(guess as nat) + empty =~= decimal_text(guess as nat));
}

/// Of a number written in decimal with white space around it, the text
/// kept is the decimal text alone.
pub proof fn lemma_kept_text_of_padded_number(before: Seq<char>, guess: u32, after: Seq<char>)
    requires
        all_whitespace(before),
        all_whitespace(after),
    ensures
        kept_text(Ok(before + decimal_text(guess as nat) + after)) == decimal_text(guess as nat),
{
    lemma_parse_decimal_text(guess, before, after);
}

/// A guess leaves a valid game valid.
pub proof fn lemma_after_guess_is_valid(
    game: GameView,
    provided: Result<Seq<char>, ProvidesGuessError>,
)
    requires
        is_valid(game),
    ensures
        is_valid(after_guess(game, provided)),
{
}

/// The judge: it owns the secret and the text of the last guess that was a
/// number.
pub struct Game {
    secret: u32,
    guess: String,
}

impl View for Game {
    type V = GameView;

    closed spec fn view(&self) -> GameView {
        GameView { secret: self.secret as nat, guess: self.guess@ }
    }
}

/// Draws a number with `rand::Rng::gen_range` on `rand::thread_rng()`. The
/// result lies between `low`, inclusive, and `high`, exclusive; which number
/// of these it is, is left open. `gen_range` panics unless `low < high`.
#[verifier::external_body]
fn random_between(low: u32, high: u32) -> (n: u32)
    requires
        low < high,
    ensures
        low <= n < high,
{
    rand::Rng::gen_range(&mut rand::thread_rng(), low, high)
}

impl Game {
    #[verifier::type_invariant]
    closed spec fn well_formed(&self) -> bool {
        is_valid(self@)
    }

    /// Draws a secret for a game: a number between 1 and 100, each time
    /// anew.
    pub fn draw_secret() -> (drawn: u32)
        ensures
            SECRET_MIN <= drawn <= SECRET_MAX,
    {
        random_between(SECRET_MIN, SECRET_MAX + 1)
    }

    /// A new game with a secret drawn at random and no guess kept.
    pub fn new() -> (game: Game)
        ensures
            is_valid(game@),
            game@.guess.len() == 0,
    {
        let mut game = Game { secret: SECRET_MIN, guess: String::new() };
        game.reset();
        game
    }

    /// A game with the given secret and no guess kept, where the secret is
    /// between 1 and 100; nothing otherwise.
    pub fn with_secret(secret: u32) -> (made: Option<Game>)
        ensures
            made is Some <==> SECRET_MIN <= secret <= SECRET_MAX,
            made is Some ==> made->0@ == (GameView { secret: secret as nat, guess: Seq::empty() }),
    {
        if SECRET_MIN <= secret && secret <= SECRET_MAX {
            Some(Game { secret, guess: String::new() })
        } else {
            None
        }
    }

    /// Starts over: draws a new secret at random, whatever the old one was,
    /// and forgets the guess kept.
    pub fn reset(&mut self)
        ensures
            is_valid(final(self)@),
            final(self)@.guess.len() == 0,
    {
        let drawn: u32 = Game::draw_secret();
        self.reset_to(drawn);
    }

    /// Starts over with the number drawn: it is the secret from now on,
    /// whatever the secret was before, and the guess kept is forgotten.
    pub fn reset_to(&mut self, drawn: u32)
        requires
            SECRET_MIN <= drawn <= SECRET_MAX,
        ensures
            final(self)@ == (GameView { secret: drawn as nat, guess: Seq::empty() }),
    {
        proof {
            use_type_invariant(&*self);
        }
        self.secret = drawn;
        self.guess = String::new();
    }

    /// The text of the last guess that was a number, as the game keeps it:
    /// empty, or the decimal text of a number.
    pub fn guess(&self) -> (text: String)
        ensures
            text@ == self@.guess,
            is_valid(self@),
    {
        proof {
            use_type_invariant(self);
        }
        self.guess.clone()
    }

    /// Classifies the guess that `provider` hands over: the outcome and the
    /// game afterwards are those of an answer that `provider` can give, as
    /// far as its own `guess` says what it gives. The secret stays as it
    /// is, also on a win: to start over is the caller's part.
    pub fn make_guess<P: ProvidesGuess + ?Sized>(&mut self, provider: &P) -> (outcome: GameState)
        ensures
            exists|answer: Result<String, ProvidesGuessError>|
                {
                    &&& call_ensures(P::guess, (provider,), answer)
                    &&& outcome == judge(old(self)@.secret, #[trigger] raw_text(answer))
                    &&& final(self)@ == after_guess(old(self)@, raw_text(answer))
                },
            is_valid(final(self)@),
    {
        let answer = provider.guess();
        let outcome = self.judge_answer(&answer);
        assert(call_ensures(P::guess, (provider,), answer));
        outcome
    }

    /// Classifies what a provider handed over. No guess is a guess not
    /// made; a text that is no number is invalid; a number is compared with
    /// the secret. The kept text is that of this guess alone: the decimal
    /// text of the number, and nothing where there is none.
    pub fn judge_answer(&mut self, answer: &Result<String, ProvidesGuessError>) -> (outcome:
        GameState)
        ensures
            outcome == judge(old(self)@.secret, raw_text(*answer)),
            final(self)@ == after_guess(old(self)@, raw_text(*answer)),
            is_valid(final(self)@),
    {
        proof {
            use_type_invariant(&*self);
        }
        self.guess = String::new();
        match answer {
            Err(_) => GameState::GuessNotMade,
            Ok(raw) => self.parse_guess(raw),
        }
    }

    /// Classifies a raw text. A number is kept as its decimal text; a text
    /// that is no number leaves the game as it is.
    pub fn parse_guess(&mut self, guess: &String) -> (outcome: GameState)
        ensures
            outcome == judge_text(old(self)@.secret, guess@),
            final(self)@.secret == old(self)@.secret,
            final(self)@.guess == match parse_u32(trim(guess@)) {
                Some(number) => decimal_text(number as nat),
                None => old(self)@.guess,
            },
            is_valid(final(self)@),
    {
        proof {
            use_type_invariant(&*self);
        }
        match parse_trimmed(guess.as_str()) {
            None => GameState::GuessIsInvalid,
            Some(number) => self.compare_guess(&number),
        }
    }

    /// Classifies a number and keeps its decimal text.
    pub fn compare_guess(&mut self, guess: &u32) -> (outcome: GameState)
        ensures
            outcome == compare(*guess as nat, old(self)@.secret),
            final(self)@ == (GameView {
                secret: old(self)@.secret,
                guess: decimal_text(*guess as nat),
            }),
            is_valid(final(self)@),
    {
        proof {
            use_type_invariant(&*self);
        }
        self.guess = decimal_string(*guess);
        if *guess < self.secret {
            GameState::GuessIsLow
        } else if *guess > self.secret {
            GameState::GuessIsHigh
        } else {
            GameState::GuessWon
        }
    }
}

} // verus!
