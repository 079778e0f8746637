use guessing_game::game::{Game, GameState, ProvidesGuess, ProvidesGuessError};

/// A provider that hands over a fixed text, or none.
struct Fixed(Option<String>);

impl ProvidesGuess for Fixed {
    fn guess(&self) -> Result<String, ProvidesGuessError> {
        match &self.0 {
            Some(text) => Ok(text.clone()),
            None => Err(ProvidesGuessError::Empty),
        }
    }
}

fn said(text: &str) -> Fixed {
    Fixed(Some(String::from(text)))
}

fn silent() -> Fixed {
    Fixed(None)
}

fn game_with(secret: u32) -> Game {
    Game::with_secret(secret).unwrap()
}

#[test]
fn a_guess_below_the_secret_is_low() {
    let mut game = game_with(50);
    assert_eq!(game.make_guess(&said("49")), GameState::GuessIsLow);
    assert_eq!(game.guess(), "49");
    assert_eq!(game.make_guess(&said("0")), GameState::GuessIsLow);
    assert_eq!(game.guess(), "0");
}

#[test]
fn a_guess_above_the_secret_is_high() {
    let mut game = game_with(50);
    assert_eq!(game.make_guess(&said("51")), GameState::GuessIsHigh);
    assert_eq!(game.guess(), "51");
}

#[test]
fn a_guess_equal_to_the_secret_wins() {
    let mut game = game_with(50);
    assert_eq!(game.make_guess(&said("50")), GameState::GuessWon);
    assert_eq!(game.guess(), "50");
}

#[test]
fn every_secret_is_won_by_itself_and_by_nothing_else() {
    for secret in 1u32..=100 {
        for guess in 0u32..=101 {
            let mut game = game_with(secret);
            let outcome = game.make_guess(&said(&guess.to_string()));
            let expected = if guess < secret {
                GameState::GuessIsLow
            } else if guess > secret {
                GameState::GuessIsHigh
            } else {
                GameState::GuessWon
            };
            assert_eq!(outcome, expected);
        }
    }
}

#[test]
fn a_guess_is_not_held_to_the_range_of_the_secret() {
    let mut game = game_with(100);
    assert_eq!(game.make_guess(&said("500")), GameState::GuessIsHigh);
    assert_eq!(game.guess(), "500");
    assert_eq!(game.make_guess(&said("4294967295")), GameState::GuessIsHigh);
    assert_eq!(game.guess(), "4294967295");
}

#[test]
fn no_guess_is_not_made_whatever_the_secret() {
    for secret in [1u32, 50, 100] {
        let mut game = game_with(secret);
        assert_eq!(game.make_guess(&silent()), GameState::GuessNotMade);
        assert_eq!(game.guess(), "");
    }
}

#[test]
fn an_empty_text_that_was_provided_is_invalid_not_unmade() {
    let mut game = game_with(50);
    assert_eq!(game.make_guess(&said("")), GameState::GuessIsInvalid);
    assert_eq!(game.make_guess(&said("   ")), GameState::GuessIsInvalid);
}

#[test]
fn text_that_is_no_number_is_invalid() {
    for secret in [1u32, 50, 100] {
        for raw in ["abc", "12a", "a12", "1 2", "-5", "+5", "1_000", "5.0", "0x10", "\u{663}"] {
            let mut game = game_with(secret);
            assert_eq!(game.make_guess(&said(raw)), GameState::GuessIsInvalid);
            assert_eq!(game.guess(), "");
        }
    }
}

#[test]
fn a_number_beyond_32_bits_is_invalid() {
    let mut game = game_with(50);
    assert_eq!(game.make_guess(&said("4294967296")), GameState::GuessIsInvalid);
    assert_eq!(game.guess(), "");
    assert_eq!(game.make_guess(&said("99999999999999999999")), GameState::GuessIsInvalid);
    assert_eq!(game.make_guess(&said("4294967295")), GameState::GuessIsHigh);
}

#[test]
fn an_invalid_guess_clears_the_kept_text() {
    let mut game = game_with(50);
    assert_eq!(game.make_guess(&said("30")), GameState::GuessIsLow);
    assert_eq!(game.guess(), "30");
    assert_eq!(game.make_guess(&said("abc")), GameState::GuessIsInvalid);
    assert_eq!(game.guess(), "");
}

#[test]
fn no_guess_clears_the_kept_text() {
    let mut game = game_with(50);
    assert_eq!(game.make_guess(&said("30")), GameState::GuessIsLow);
    assert_eq!(game.make_guess(&silent()), GameState::GuessNotMade);
    assert_eq!(game.guess(), "");
}

#[test]
fn the_same_guess_gives_the_same_outcome_every_time() {
    let mut game = game_with(50);
    for _ in 0..5 {
        assert_eq!(game.make_guess(&said("30")), GameState::GuessIsLow);
        assert_eq!(game.guess(), "30");
    }
    for _ in 0..5 {
        assert_eq!(game.make_guess(&said("70")), GameState::GuessIsHigh);
        assert_eq!(game.guess(), "70");
    }
}

#[test]
fn a_win_does_not_reset_the_game_by_itself() {
    let mut game = game_with(50);
    assert_eq!(game.make_guess(&said("50")), GameState::GuessWon);
    assert_eq!(game.make_guess(&said("50")), GameState::GuessWon);
    assert_eq!(game.make_guess(&said("49")), GameState::GuessIsLow);
}

#[test]
fn the_kept_text_is_the_decimal_text_of_the_number() {
    let mut game = game_with(50);
    assert_eq!(game.make_guess(&said(" 42 ")), GameState::GuessIsLow);
    assert_eq!(game.guess(), "42");
    assert_eq!(game.make_guess(&said("\t\n42\r\n")), GameState::GuessIsLow);
    assert_eq!(game.guess(), "42");
    assert_eq!(game.make_guess(&said("\u{3000}42\u{2003}\u{a0}")), GameState::GuessIsLow);
    assert_eq!(game.guess(), "42");
    assert_eq!(game.make_guess(&said("007")), GameState::GuessIsLow);
    assert_eq!(game.guess(), "7");
    assert_eq!(game.make_guess(&said("000")), GameState::GuessIsLow);
    assert_eq!(game.guess(), "0");
    assert_eq!(game.make_guess(&said("0000000000000050")), GameState::GuessWon);
    assert_eq!(game.guess(), "50");
}

#[test]
fn the_kept_text_reads_as_the_same_number() {
    for number in [0u32, 1, 9, 10, 99, 100, 101, 65535, 4294967295] {
        let mut game = game_with(50);
        let padded = format!("  {}\t", number);
        game.make_guess(&said(&padded));
        let kept = game.guess();
        assert_eq!(kept, number.to_string());
        assert_eq!(kept.parse::<u32>(), Ok(number));
    }
}

#[test]
fn a_new_game_keeps_no_guess() {
    let game = Game::new();
    assert_eq!(game.guess(), "");
}

#[test]
fn a_new_game_has_its_secret_between_1_and_100() {
    for _ in 0..500 {
        let mut game = Game::new();
        assert_eq!(game.make_guess(&said("0")), GameState::GuessIsLow);
        assert_eq!(game.make_guess(&said("101")), GameState::GuessIsHigh);
    }
}

#[test]
fn new_games_do_not_all_share_one_secret() {
    let mut wins_of_1: u32 = 0;
    let mut wins_of_100: u32 = 0;
    for _ in 0..500 {
        let mut game = Game::new();
        if game.make_guess(&said("1")) == GameState::GuessWon {
            wins_of_1 += 1;
        }
        if game.make_guess(&said("100")) == GameState::GuessWon {
            wins_of_100 += 1;
        }
    }
    assert!(wins_of_1 < 500);
    assert!(wins_of_100 < 500);
}

#[test]
fn a_reset_draws_a_secret_between_1_and_100() {
    let mut game = game_with(50);
    for _ in 0..500 {
        game.reset();
        assert_eq!(game.make_guess(&said("0")), GameState::GuessIsLow);
        assert_eq!(game.make_guess(&said("101")), GameState::GuessIsHigh);
    }
}

#[test]
fn a_reset_changes_the_secret_sooner_or_later() {
    let mut kept: u32 = 0;
    for _ in 0..300 {
        let mut game = game_with(50);
        game.reset();
        if game.make_guess(&said("50")) == GameState::GuessWon {
            kept += 1;
        }
    }
    assert!(kept < 300);
}

#[test]
fn resets_do_not_all_draw_one_secret() {
    let mut game = game_with(50);
    let mut wins_of_1: u32 = 0;
    let mut wins_of_100: u32 = 0;
    for _ in 0..500 {
        game.reset();
        if game.make_guess(&said("1")) == GameState::GuessWon {
            wins_of_1 += 1;
        }
        if game.make_guess(&said("100")) == GameState::GuessWon {
            wins_of_100 += 1;
        }
    }
    assert!(wins_of_1 < 500);
    assert!(wins_of_100 < 500);
}

#[test]
fn a_reset_makes_the_number_drawn_the_secret() {
    let mut game = game_with(50);
    game.make_guess(&said("30"));
    game.reset_to(7);
    assert_eq!(game.guess(), "");
    assert_eq!(game.make_guess(&said("50")), GameState::GuessIsHigh);
    assert_eq!(game.make_guess(&said("6")), GameState::GuessIsLow);
    assert_eq!(game.make_guess(&said("8")), GameState::GuessIsHigh);
    assert_eq!(game.make_guess(&said("7")), GameState::GuessWon);
}

#[test]
fn a_reset_may_draw_the_old_secret_again() {
    let mut game = game_with(50);
    assert_eq!(game.make_guess(&said("50")), GameState::GuessWon);
    game.reset_to(50);
    assert_eq!(game.guess(), "");
    assert_eq!(game.make_guess(&said("50")), GameState::GuessWon);
}

#[test]
fn a_reset_takes_every_number_from_1_to_100() {
    let mut game = game_with(50);
    for drawn in 1u32..=100 {
        game.reset_to(drawn);
        assert_eq!(game.make_guess(&said(&(drawn - 1).to_string())), GameState::GuessIsLow);
        assert_eq!(game.make_guess(&said(&drawn.to_string())), GameState::GuessWon);
        assert_eq!(game.make_guess(&said(&(drawn + 1).to_string())), GameState::GuessIsHigh);
    }
}

#[test]
fn a_secret_is_drawn_between_1_and_100() {
    let mut least: u32 = u32::MAX;
    let mut greatest: u32 = 0;
    for _ in 0..2000 {
        let drawn: u32 = Game::draw_secret();
        assert!(1 <= drawn && drawn <= 100);
        least = least.min(drawn);
        greatest = greatest.max(drawn);
    }
    assert!(least < greatest);
}

#[test]
fn a_reset_forgets_the_kept_guess() {
    let mut game = game_with(50);
    assert_eq!(game.make_guess(&said("50")), GameState::GuessWon);
    assert_eq!(game.guess(), "50");
    game.reset();
    assert_eq!(game.guess(), "");
}

#[test]
fn a_secret_outside_1_to_100_makes_no_game() {
    assert!(Game::with_secret(0).is_none());
    assert!(Game::with_secret(101).is_none());
    assert!(Game::with_secret(u32::MAX).is_none());
    assert!(Game::with_secret(1).is_some());
    assert!(Game::with_secret(100).is_some());
}

#[test]
fn the_least_and_the_greatest_secret_can_be_won() {
    let mut least = game_with(1);
    assert_eq!(least.make_guess(&said("0")), GameState::GuessIsLow);
    assert_eq!(least.make_guess(&said("1")), GameState::GuessWon);
    assert_eq!(least.make_guess(&said("2")), GameState::GuessIsHigh);
    let mut greatest = game_with(100);
    assert_eq!(greatest.make_guess(&said("99")), GameState::GuessIsLow);
    assert_eq!(greatest.make_guess(&said("100")), GameState::GuessWon);
    assert_eq!(greatest.make_guess(&said("101")), GameState::GuessIsHigh);
}

#[test]
fn parsing_a_text_that_is_no_number_leaves_the_kept_text() {
    let mut game = game_with(50);
    assert_eq!(game.parse_guess(&String::from("30")), GameState::GuessIsLow);
    assert_eq!(game.guess(), "30");
    assert_eq!(game.parse_guess(&String::from("abc")), GameState::GuessIsInvalid);
    assert_eq!(game.guess(), "30");
    assert_eq!(game.parse_guess(&String::from(" 70 ")), GameState::GuessIsHigh);
    assert_eq!(game.guess(), "70");
}

#[test]
fn comparing_a_number_keeps_its_decimal_text() {
    let mut game = game_with(50);
    assert_eq!(game.compare_guess(&49), GameState::GuessIsLow);
    assert_eq!(game.guess(), "49");
    assert_eq!(game.compare_guess(&50), GameState::GuessWon);
    assert_eq!(game.guess(), "50");
    assert_eq!(game.compare_guess(&4294967295), GameState::GuessIsHigh);
    assert_eq!(game.guess(), "4294967295");
}

#[test]
fn a_provider_behind_a_trait_object_is_judged_alike() {
    let mut game = game_with(50);
    let provider: Box<dyn ProvidesGuess> = Box::new(said("30"));
    assert_eq!(game.make_guess(provider.as_ref()), GameState::GuessIsLow);
    let nothing: &dyn ProvidesGuess = &silent();
    assert_eq!(game.make_guess(nothing), GameState::GuessNotMade);
}

#[test]
fn an_answer_is_judged_without_a_provider() {
    let mut game = game_with(50);
    assert_eq!(game.judge_answer(&Ok(String::from("30"))), GameState::GuessIsLow);
    assert_eq!(game.guess(), "30");
    assert_eq!(game.judge_answer(&Err(ProvidesGuessError::Empty)), GameState::GuessNotMade);
    assert_eq!(game.guess(), "");
    assert_eq!(game.judge_answer(&Ok(String::from(" 70 "))), GameState::GuessIsHigh);
    assert_eq!(game.guess(), "70");
    assert_eq!(game.judge_answer(&Ok(String::from("seventy"))), GameState::GuessIsInvalid);
    assert_eq!(game.guess(), "");
    assert_eq!(game.judge_answer(&Ok(String::from("50"))), GameState::GuessWon);
    assert_eq!(game.guess(), "50");
}
