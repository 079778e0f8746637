//! Playing over HTTP: the guess is read from a form body, and each outcome
//! is answered with a page.
//!
//! Nothing here touches a socket. A server hands over the body of a request
//! as text and sends back the page it is given.

use crate::game::{
    after_guess, is_valid, judge, kept_text, raw_text, Game, GameState, GameView, ProvidesGuess,
    ProvidesGuessError, SECRET_MAX, SECRET_MIN,
};
use crate::text::{chars_of, decimal_text, parse_digits, parse_u32, push_decimal};
use vstd::prelude::*;

verus! {

/// The character that stands between a key and its value in a form body.
pub const DELIMITER: char = '=';

/// The port that the server listens on where none is asked for.
pub const DEFAULT_PORT: u32 = 9090;

/// Where the last segment of `body` starts: behind its last delimiter, and
/// at 0 where it holds none.
pub open spec fn last_segment_start(body: Seq<char>) -> nat
    decreases body.len(),
{
    if body.len() == 0 {
        0
    } else if body.last() == DELIMITER {
        body.len()
    } else {
        last_segment_start(body.drop_last())
    }
}

/// What stands behind the last delimiter of `body`; all of `body` where it
/// holds none. Nothing is trimmed and nothing decoded.
pub open spec fn last_segment(body: Seq<char>) -> Seq<char> {
    body.skip(last_segment_start(body) as int)
}

/// What a form body provides: no guess where it is empty, its last segment
/// otherwise.
pub open spec fn provided_by(body: Seq<char>) -> Result<Seq<char>, ProvidesGuessError> {
    if body.len() == 0 {
        Err(ProvidesGuessError::Empty)
    } else {
        Ok(last_segment(body))
    }
}

/// The last segment starts inside the body, right behind a delimiter or at
/// the start, and no delimiter follows.
pub proof fn lemma_last_segment_start(body: Seq<char>)
    ensures
        last_segment_start(body) <= body.len(),
        last_segment_start(body) > 0 ==> body[last_segment_start(body) - 1] == DELIMITER,
        !last_segment(body).contains(DELIMITER),
    decreases body.len(),
{
    let start = last_segment_start(body) as int;
    if body.len() > 0 && body.last() != DELIMITER {
        let shorter = body.drop_last();
        lemma_last_segment_start(shorter);
        assert forall|i: int| 0 <= i < last_segment(body).len() implies last_segment(body)[i]
            != DELIMITER by {
            if start + i < shorter.len() {
                assert(last_segment(shorter)[i] == body[start + i]);
                assert(last_segment(shorter).contains(body[start + i]));
            }
        }
    }
}

/// The last segment of a body that ends in a delimiter and a value without
/// one is that value, whatever stands before.
pub proof fn lemma_last_segment_of_pair(before: Seq<char>, value: Seq<char>)
    requires
        !value.contains(DELIMITER),
    ensures
        last_segment_start(before.push(DELIMITER) + value) == before.len() + 1,
        last_segment(before.push(DELIMITER) + value) == value,
    decreases value.len(),
{
    let body = before.push(DELIMITER) + value;
    if value.len() == 0 {
        assert(body =~= before.push(DELIMITER));
    } else {
        let shorter = value.drop_last();
        assert(value.contains(value[value.len() - 1]));
        assert(body.last() == value.last());
        assert(body.drop_last() =~= before.push(DELIMITER) + shorter);
        assert forall|i: int| 0 <= i < shorter.len() implies shorter[i] != DELIMITER by {
            assert(value.contains(value[i]));
        }
        lemma_last_segment_of_pair(before, shorter);
    }
    assert(body.skip(before.len() as int + 1) =~= value);
}

/// The text of a request's body: the empty text where the request has no
/// body.
pub open spec fn body_text(body: Option<String>) -> Seq<char> {
    match body {
        Some(text) => text@,
        None => Seq::empty(),
    }
}

/// The body of a request, as text.
pub struct HttpData {
    data: String,
}

impl View for HttpData {
    type V = Seq<char>;

    closed spec fn view(&self) -> Seq<char> {
        self.data@
    }
}

impl HttpData {
    /// Wraps the body of a request: a request without a body counts as
    /// one with the empty text, and a body is taken as it is.
    pub fn new(body: Option<String>) -> (data: HttpData)
        ensures
            data@ == body_text(body),
    {
        match body {
            Some(text) => HttpData { data: text },
            None => HttpData { data: String::new() },
        }
    }

    /// The last segment of the body.
    pub fn read_guess(&self) -> (segment: String)
        ensures
            segment@ == last_segment(self@),
    {
        let chars: Vec<char> = chars_of(self.data.as_str());
        let mut start: usize = 0;
        let mut i: usize = 0;
        while i < chars.len()
            invariant
                start <= i <= chars.len(),
                start == last_segment_start(chars@.take(i as int)),
            decreases chars.len() - i,
        {
            proof {
                let longer = chars@.take(i + 1);
                assert(longer.drop_last() =~= chars@.take(i as int));
                assert(longer.last() == chars@[i as int]);
            }
            if chars[i] == DELIMITER {
                start = i + 1;
            }
            i += 1;
        }
        proof {
            assert(chars@.take(i as int) =~= chars@);
            assert(self@.subrange(start as int, chars.len() as int) =~= self@.skip(start as int));
        }
        self.data.as_str().substring_char(start, chars.len()).to_owned()
    }
}

impl ProvidesGuess for HttpData {
    /// Hands over the last segment of the body; an empty body holds no
    /// guess.
    fn guess(&self) -> (raw: Result<String, ProvidesGuessError>)
        ensures
            raw_text(raw) == provided_by(self@),
    {
        if self.data.as_str().is_empty() {
            Err(ProvidesGuessError::Empty)
        } else {
            Ok(self.read_guess())
        }
    }
}

/// The form that every page ends with: a number field named `guess` and a
/// button, posting to the address the page came from.
pub const FORM: &'static str =
    "<form method=\"post\"><input name=\"guess\" type=\"number\" /><button>Submit</button></form>";

/// The content type that every page is sent with.
pub const CONTENT_TYPE: &'static str = "text/html";

/// The raw text that a provider's answer holds; none where it holds no
/// guess.
pub open spec fn raw_of(provided: Result<Seq<char>, ProvidesGuessError>) -> Seq<char> {
    match provided {
        Ok(raw) => raw,
        Err(_) => Seq::empty(),
    }
}

/// What the player is told of an outcome. `kept` is the text that the game
/// keeps of the guess, `raw` the text as it was submitted: a guess that is
/// no number is quoted as it came.
pub open spec fn message(outcome: GameState, kept: Seq<char>, raw: Seq<char>) -> Seq<char> {
    match outcome {
        GameState::GuessNotMade => "<p>Guess a number between 1 and 100:</p>"@,
        GameState::GuessIsInvalid => "<p>You guessed &ldquo;"@ + raw
            + "&rdquo;, that isn't actually a number...</p>"@,
        GameState::GuessIsLow => "<p>You guessed "@ + kept + ", which is too small...</p>"@,
        GameState::GuessIsHigh => "<p>You guessed "@ + kept + ", which is too big...</p>"@,
        GameState::GuessWon =>
            "<p>You guessed the number correctly! Guess a new number between 1 and 100:</p>"@,
    }
}

/// How the guess in a form body is classified by a game.
pub open spec fn outcome_of(game: GameView, body: Seq<char>) -> GameState {
    judge(game.secret, provided_by(body))
}

/// What the player is told of the guess in a form body: the message for its
/// outcome, with the text that the game keeps of it, or the text as it was
/// submitted where that is no number.
pub open spec fn answer_to(game: GameView, body: Seq<char>) -> Seq<char> {
    message(outcome_of(game, body), kept_text(provided_by(body)), raw_of(provided_by(body)))
}

/// The game once the guess in a form body is answered. A win starts the
/// game over with the number drawn and no guess kept; any other outcome
/// leaves the secret and keeps the text of this guess.
pub open spec fn game_after(game: GameView, body: Seq<char>, drawn: nat) -> GameView {
    if outcome_of(game, body) == GameState::GuessWon {
        GameView { secret: drawn, guess: Seq::empty() }
    } else {
        after_guess(game, provided_by(body))
    }
}

/// A request is answered with the invitation to guess exactly where its
/// body is empty, whatever the secret.
pub proof fn lemma_not_made_iff_empty_body(game: GameView, body: Seq<char>)
    ensures
        outcome_of(game, body) == GameState::GuessNotMade <==> body.len() == 0,
        body.len() == 0 ==> answer_to(game, body) == message(
            GameState::GuessNotMade,
            Seq::empty(),
            Seq::empty(),
        ),
{
}

/// A win starts the game over with the number drawn, whatever the secret
/// was and whether or not the number differs from it; the game that comes
/// of it is valid.
pub proof fn lemma_win_starts_over(game: GameView, body: Seq<char>, drawn: nat)
    requires
        outcome_of(game, body) == GameState::GuessWon,
        SECRET_MIN <= drawn <= SECRET_MAX,
    ensures
        game_after(game, body, drawn) == (GameView { secret: drawn, guess: Seq::empty() }),
        is_valid(game_after(game, body, drawn)),
{
}

/// Plays the game for the requests of a server: one shared game, one page
/// per request.
pub struct HttpWorker {
    game: Game,
}

impl View for HttpWorker {
    type V = GameView;

    closed spec fn view(&self) -> GameView {
        self.game@
    }
}

impl HttpWorker {
    /// A worker that plays the given game.
    pub fn new(game: Game) -> (worker: HttpWorker)
        ensures
            worker@ == game@,
    {
        HttpWorker { game }
    }

    /// The page that answers a request with the given body: the message for
    /// the outcome of its guess, then the form. A win starts the game over
    /// with a secret drawn at random.
    pub fn handle(&mut self, data: HttpData) -> (page: String)
        ensures
            page@ == answer_to(old(self)@, data@) + FORM@,
            exists|drawn: u32|
                SECRET_MIN <= drawn <= SECRET_MAX && final(self)@ == #[trigger] game_after(
                    old(self)@,
                    data@,
                    drawn as nat,
                ),
            is_valid(final(self)@),
    {
        let drawn: u32 = Game::draw_secret();
        self.handle_with(data, drawn)
    }

    /// The page that answers a request with the given body, `drawn` being
    /// the number to start over with on a win.
    pub fn handle_with(&mut self, data: HttpData, drawn: u32) -> (page: String)
        requires
            SECRET_MIN <= drawn <= SECRET_MAX,
        ensures
            page@ == answer_to(old(self)@, data@) + FORM@,
            final(self)@ == game_after(old(self)@, data@, drawn as nat),
            is_valid(final(self)@),
    {
        let mut page: String = self.make_guess_with(data, drawn);
        page.append(FORM);
        page
    }

    /// Judges the guess in the given body and says what came of it. A win
    /// starts the game over with a secret drawn at random. The number is
    /// drawn beforehand and serves on a win only.
    pub fn make_guess(&mut self, data: HttpData) -> (html: String)
        ensures
            html@ == answer_to(old(self)@, data@),
            exists|drawn: u32|
                SECRET_MIN <= drawn <= SECRET_MAX && final(self)@ == #[trigger] game_after(
                    old(self)@,
                    data@,
                    drawn as nat,
                ),
            is_valid(final(self)@),
    {
        let drawn: u32 = Game::draw_secret();
        self.make_guess_with(data, drawn)
    }

    /// Judges the guess in the given body and says what came of it, `drawn`
    /// being the number to start over with on a win: the secret is then
    /// `drawn`, whatever it was, and no guess is kept. Any other outcome
    /// leaves the secret as it is.
    pub fn make_guess_with(&mut self, data: HttpData, drawn: u32) -> (html: String)
        requires
            SECRET_MIN <= drawn <= SECRET_MAX,
        ensures
            html@ == answer_to(old(self)@, data@),
            final(self)@ == game_after(old(self)@, data@, drawn as nat),
            is_valid(final(self)@),
    {
        match self.game.make_guess(&data) {
            GameState::GuessNotMade => self.guess_not_made(),
            GameState::GuessIsInvalid => match data.guess() {
                Ok(raw) => self.guess_is_invalid(raw.as_str()),
                Err(_) => self.guess_is_invalid(""),
            },
            GameState::GuessIsLow => self.guess_is_low(),
            GameState::GuessIsHigh => self.guess_is_high(),
            GameState::GuessWon => self.guess_won_with(drawn),
        }
    }

    /// The invitation to guess.
    pub fn guess_not_made(&mut self) -> (html: String)
        ensures
            html@ == message(GameState::GuessNotMade, old(self)@.guess, Seq::empty()),
            final(self)@ == old(self)@,
    {
        String::from_str("<p>Guess a number between 1 and 100:</p>")
    }

    /// Says that `raw`, quoted as it was submitted, is no number.
    pub fn guess_is_invalid(&mut self, raw: &str) -> (html: String)
        ensures
            html@ == message(GameState::GuessIsInvalid, old(self)@.guess, raw@),
            final(self)@ == old(self)@,
    {
        let mut html: String = String::from_str("<p>You guessed &ldquo;");
        html.append(raw);
        html.append("&rdquo;, that isn't actually a number...</p>");
        html
    }

    /// Says that the guess kept is too small.
    pub fn guess_is_low(&mut self) -> (html: String)
        ensures
            html@ == message(GameState::GuessIsLow, old(self)@.guess, Seq::empty()),
            final(self)@ == old(self)@,
    {
        let mut html: String = String::from_str("<p>You guessed ");
        html.append(self.game.guess().as_str());
        html.append(", which is too small...</p>");
        html
    }

    /// Says that the guess kept is too big.
    pub fn guess_is_high(&mut self) -> (html: String)
        ensures
            html@ == message(GameState::GuessIsHigh, old(self)@.guess, Seq::empty()),
            final(self)@ == old(self)@,
    {
        let mut html: String = String::from_str("<p>You guessed ");
        html.append(self.game.guess().as_str());
        html.append(", which is too big...</p>");
        html
    }

    /// Starts the game over with a secret drawn at random and says that the
    /// guess was right.
    pub fn guess_won(&mut self) -> (html: String)
        ensures
            html@ == message(GameState::GuessWon, old(self)@.guess, Seq::empty()),
            is_valid(final(self)@),
            final(self)@.guess.len() == 0,
    {
        let drawn: u32 = Game::draw_secret();
        self.guess_won_with(drawn)
    }

    /// Starts the game over with the number drawn and says that the guess
    /// was right.
    pub fn guess_won_with(&mut self, drawn: u32) -> (html: String)
        requires
            SECRET_MIN <= drawn <= SECRET_MAX,
        ensures
            html@ == message(GameState::GuessWon, old(self)@.guess, Seq::empty()),
            final(self)@ == (GameView { secret: drawn as nat, guess: Seq::empty() }),
    {
        self.game.reset_to(drawn);
        String::from_str(
            "<p>You guessed the number correctly! Guess a new number between 1 and 100:</p>",
        )
    }
}

/// The character that may stand before the digits of a port.
pub const PLUS: char = '+';

/// A text without the one plus sign that it may start with.
pub open spec fn unsigned_part(text: Seq<char>) -> Seq<char> {
    if text.len() > 0 && text[0] == PLUS {
        text.drop_first()
    } else {
        text
    }
}

/// The port that a port argument asks for: the default where there is no
/// argument; the number that the argument reads as where it is an unsigned
/// decimal number of 32 bits, one plus sign before it or none; and none
/// otherwise.
pub open spec fn port_of(arg: Option<Seq<char>>) -> Option<u32> {
    match arg {
        None => Some(DEFAULT_PORT),
        Some(text) => parse_u32(unsigned_part(text)),
    }
}

/// Reads the port argument of the command line. Nothing is trimmed.
pub fn port_from_arg(arg: Option<&str>) -> (port: Option<u32>)
    ensures
        port == port_of(
            match arg {
                Some(text) => Some(text@),
                None => None,
            },
        ),
{
    match arg {
        None => Some(DEFAULT_PORT),
        Some(text) => {
            let chars: Vec<char> = chars_of(text);
            let start: usize = if chars.len() > 0 && chars[0] == PLUS {
                1
            } else {
                0
            };
            assert(chars@.subrange(start as int, chars.len() as int) =~= unsigned_part(text@));
            parse_digits(&chars, start, chars.len())
        },
    }
}

/// The address that the server binds for a port: every interface of the
/// machine.
pub fn bind_address(port: u32) -> (address: String)
    ensures
        address@ == "0.0.0.0:"@ + decimal_text(port as nat),
{
    let mut address: String = String::from_str("0.0.0.0:");
    push_decimal(&mut address, port);
    address
}

/// What the operator is told of a port argument that is no number.
pub fn invalid_port_message() -> (line: String)
    ensures
        line@ == "Invalid value for --port."@,
{
    String::from_str("Invalid value for --port.")
}

/// What the operator is told where the server cannot listen on `port`.
pub fn bind_failure_message(port: u32) -> (line: String)
    ensures
        line@ == "Could not start port using --port "@ + decimal_text(port as nat) + "."@,
{
    let mut line: String = String::from_str("Could not start port using --port ");
    push_decimal(&mut line, port);
    line.append(".");
    line
}

/// What the operator is told once the server listens on `port`.
pub fn startup_message(port: u32) -> (line: String)
    ensures
        line@ == "Game available on http://127.0.0.1:"@ + decimal_text(port as nat) + "/."@,
{
    let mut line: String = String::from_str("Game available on http://127.0.0.1:");
    push_decimal(&mut line, port);
    line.append("/.");
    line
}

} // verus!
