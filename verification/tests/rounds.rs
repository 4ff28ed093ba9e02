use wordle::game::common::KeyStatus;
use wordle::game::keyboard::Keyboard;
use wordle::game::word_set::WordSet;
use wordle::game::Game;
use wordle::game::GameLevel;
use wordle::game::GuessError;
use wordle::game::Round;

fn small_set() -> WordSet {
    let finals: Vec<String> = ["CRANE", "ALLOY"].iter().map(|s| s.to_string()).collect();
    let acc: Vec<String> = ["CRANE", "ALLOY", "LOLLY", "TRAIN", "BONUS", "CONES", "SALLY", "LABEL"]
        .iter()
        .map(|s| s.to_string())
        .collect();
    WordSet::new(finals, acc).unwrap()
}

#[test]
fn round_classifies_and_counts_win() {
    let mut round = Round::new();
    round.set_ans(String::from("ALLOY"));
    let res = round.take_guess(String::from("LOLLY"));
    assert_eq!(res.render(), "YYGRG");
    assert!(!round.is_won());
    let res2 = round.take_guess(String::from("ALLOY"));
    assert_eq!(res2.render(), "GGGGG");
    assert!(round.is_won());
    assert_eq!(round.win_count_exec(), 2);
}

#[test]
fn won_round_keeps_first_winning_attempt() {
    let mut round = Round::new();
    round.set_ans(String::from("CRANE"));
    round.take_guess(String::from("TRAIN"));
    round.take_guess(String::from("CRANE"));
    assert_eq!(round.win_count_exec(), 2);
    assert!(round.is_won());
}

#[test]
fn keyboard_updates_only_upward() {
    let mut kb = Keyboard::new();
    assert_eq!(kb.render(), "XXXXXXXXXXXXXXXXXXXXXXXXXX");
    assert!(kb.update_status('C', KeyStatus::Hit));
    assert!(!kb.update_status('C', KeyStatus::Missed));
    assert_eq!(kb.key(2), KeyStatus::Hit);
    assert!(kb.update_status('D', KeyStatus::Close));
    assert!(kb.update_status('D', KeyStatus::Hit));
    assert_eq!(kb.key(3), KeyStatus::Hit);
}

#[test]
fn game_wins_a_round() {
    let mut game = Game::new(GameLevel::Default, small_set(), 7);
    game.start_new_round(String::from("ALLOY"));
    let (st, _kb) = game.guess(&String::from("LOLLY")).unwrap();
    assert_eq!(st.render(), "YYGRG");
    assert!(!game.is_round_end());
    let (st2, kb) = game.guess(&String::from("ALLOY")).unwrap();
    assert_eq!(st2.render(), "GGGGG");
    assert!(game.is_round_end());
    // The keyboard keeps the best knowledge of each letter.
    assert_eq!(kb.key(('L' as u8 - b'A') as usize), KeyStatus::Hit);
    let (won, answer, used) = game.end_cur_round();
    assert!(won);
    assert_eq!(answer, "ALLOY");
    assert_eq!(used, 2);
}

#[test]
fn game_rejects_guesses_after_the_round_ends() {
    let mut game = Game::new(GameLevel::Default, small_set(), 7);
    game.start_new_round(String::from("ALLOY"));
    game.guess(&String::from("ALLOY")).unwrap();
    let r = game.guess(&String::from("LOLLY"));
    assert!(matches!(r, Err(GuessError::OverTry)));
}

#[test]
fn game_loses_after_six_wrong_guesses() {
    let mut game = Game::new(GameLevel::Default, small_set(), 7);
    game.start_new_round(String::from("ALLOY"));
    for _ in 0..6 {
        game.guess(&String::from("TRAIN")).unwrap();
    }
    assert!(game.is_round_end());
    let r = game.guess(&String::from("ALLOY"));
    assert!(matches!(r, Err(GuessError::OverTry)));
    let (won, answer, used) = game.end_cur_round();
    assert!(!won);
    assert_eq!(answer, "ALLOY");
    assert_eq!(used, 0);
}

#[test]
fn invalid_guess_consumes_no_attempt() {
    let mut game = Game::new(GameLevel::Default, small_set(), 7);
    game.start_new_round(String::from("ALLOY"));
    // Not in the acceptable list.
    let r = game.guess(&String::from("ZZZZZ"));
    assert!(matches!(r, Err(GuessError::Invalid)));
    for _ in 0..6 {
        game.guess(&String::from("TRAIN")).unwrap();
    }
    assert!(game.is_round_end());
}

#[test]
fn hard_mode_round_rejects_broken_locks() {
    let mut game = Game::new(GameLevel::Hard, small_set(), 7);
    game.start_new_round(String::from("CONES"));
    // CRANE against CONES: C is an exact hit at position 0.
    game.guess(&String::from("CRANE")).unwrap();
    let r = game.guess(&String::from("TRAIN"));
    assert!(matches!(r, Err(GuessError::Invalid)));
    assert!(game.guess(&String::from("CONES")).is_ok());
}

#[test]
fn round_hard_mode_follows_last_result() {
    // LABEL against SALLY: A is exact at its position and both L's are
    // marked present-elsewhere, so a candidate must keep the A in place and
    // carry at least two L's.
    let mut round = Round::new();
    round.set_ans(String::from("SALLY"));
    let res = round.take_guess(String::from("LABEL"));
    assert_eq!(res.render(), "YGRRY");
    assert!(round.is_valid_guess(&String::from("SALLY"), &GameLevel::Hard));
    // Keeps the A but carries only one L: the per-letter minimum is two.
    assert!(!round.is_valid_guess(&String::from("MANLY"), &GameLevel::Hard));
    // Carries two L's but moves the exact A.
    assert!(!round.is_valid_guess(&String::from("LOLLY"), &GameLevel::Hard));
    // No L at all and the A moved.
    assert!(!round.is_valid_guess(&String::from("TRAIN"), &GameLevel::Hard));
    // Easy mode constrains nothing.
    assert!(round.is_valid_guess(&String::from("MANLY"), &GameLevel::Default));
}

#[test]
fn word_set_requires_final_inside_acceptable() {
    let r = WordSet::new(
        vec![String::from("CRANE")],
        vec![String::from("ALLOY")],
    );
    assert!(r.is_err());
    let r2 = WordSet::new(
        vec![String::from("CRANE"), String::from("CRANE")],
        vec![String::from("CRANE")],
    );
    assert!(r2.is_err());
}

#[test]
fn game_words_helpers() {
    assert!(Game::is_word(&String::from("CRANE")));
    assert!(!Game::is_word(&String::from("crane")));
    assert!(!Game::is_word(&String::from("CRAN")));
    assert!(!Game::is_word(&String::from("CRANES")));
    let game = Game::new(GameLevel::Default, small_set(), 7);
    let w = game.gen_answer_from(1);
    assert!(w == "CRANE" || w == "ALLOY");
}

#[test]
fn game_statistics_across_rounds() {
    let mut game = Game::new(GameLevel::Default, small_set(), 7);
    game.start_new_round(String::from("ALLOY"));
    game.guess(&String::from("LOLLY")).unwrap();
    game.guess(&String::from("ALLOY")).unwrap();
    game.end_cur_round();
    game.start_new_round(String::from("CRANE"));
    for _ in 0..6 {
        game.guess(&String::from("TRAIN")).unwrap();
    }
    game.end_cur_round();
    let (wins, losses, total) = game.show_analyse();
    assert_eq!((wins, losses, total), (1, 1, 2));
    let top = game.show_most_used_words();
    assert_eq!(top[0], (String::from("TRAIN"), 6));
    assert_eq!(top[1], (String::from("ALLOY"), 1));
    assert_eq!(top[2], (String::from("LOLLY"), 1));
}
