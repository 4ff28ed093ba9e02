use wordle::engine::classify;
use wordle::engine::render_alphabet;
use wordle::engine::render_statuses;
use wordle::engine::update_state;
use wordle::errors::GameError;
use wordle::status::Status;

#[test]
fn classify_all_green_on_exact_match() {
    let r = classify("CRANE", "CRANE").unwrap();
    assert_eq!(r, vec![Status::GREEN; 5]);
}

#[test]
fn classify_length_mismatch_is_error() {
    let r = classify("CRANES", "CRANE");
    assert!(matches!(r, Err(GameError::LengthMismatch)));
}

#[test]
fn classify_lolly_against_alloy() {
    // ALLOY holds two L's and one O.  LOLLY holds three L's: the first
    // non-exact L keeps the budget, the exact L consumes one, the last
    // non-exact L finds the budget spent.
    let r = classify("LOLLY", "ALLOY").unwrap();
    assert_eq!(
        r,
        vec![Status::YELLOW, Status::YELLOW, Status::GREEN, Status::RED, Status::GREEN]
    );
}

#[test]
fn classify_duplicate_letters_budget() {
    // CLASS holds two S's; SASSY holds three.  The exact S consumes one,
    // the first wrong-place S takes the last one, the second reads absent.
    let r = classify("SASSY", "CLASS").unwrap();
    assert_eq!(
        r,
        vec![Status::YELLOW, Status::YELLOW, Status::RED, Status::GREEN, Status::RED]
    );
}

#[test]
fn classify_counts_min_rule() {
    // Per letter, green-or-yellow positions number exactly
    // min(count in guess, count in answer).
    let r = classify("GEESE", "EERIE").unwrap();
    let hits = |c: char, g: &str, r: &Vec<Status>| -> usize {
        g.chars()
            .zip(r.iter())
            .filter(|(gc, st)| *gc == c && (**st == Status::GREEN || **st == Status::YELLOW))
            .count()
    };
    // E: three in GEESE, three in EERIE.
    assert_eq!(hits('E', "GEESE", &r), 3);
    // S: one in GEESE, none in EERIE.
    assert_eq!(hits('S', "GEESE", &r), 0);
    // G: one in GEESE, none in EERIE.
    assert_eq!(hits('G', "GEESE", &r), 0);
}

#[test]
fn update_state_fills_word_and_alphabet() {
    let guess = String::from("LOLLY");
    let answer = String::from("ALLOY");
    let mut word_state = [Status::UNKNOWN; 5];
    let mut alphabet_state = [Status::UNKNOWN; 26];
    update_state(&guess, &answer, &mut word_state, &mut alphabet_state);
    assert_eq!(
        word_state,
        [Status::YELLOW, Status::YELLOW, Status::GREEN, Status::RED, Status::GREEN]
    );
    // L earned GREEN at one position: the best status wins.
    assert_eq!(alphabet_state[('L' as u8 - b'A') as usize], Status::GREEN);
    assert_eq!(alphabet_state[('O' as u8 - b'A') as usize], Status::YELLOW);
    assert_eq!(alphabet_state[('Y' as u8 - b'A') as usize], Status::GREEN);
    assert_eq!(alphabet_state[('A' as u8 - b'A') as usize], Status::UNKNOWN);
}

#[test]
fn alphabet_knowledge_never_downgrades() {
    // After L is known GREEN, a guess where L scores worse keeps GREEN.
    let answer = String::from("ALLOY");
    let mut alphabet_state = [Status::UNKNOWN; 26];
    let mut word_state = [Status::UNKNOWN; 5];
    update_state(&String::from("LOLLY"), &answer, &mut word_state, &mut alphabet_state);
    let before = alphabet_state;
    let mut word_state2 = [Status::UNKNOWN; 5];
    update_state(&String::from("LILTS"), &answer, &mut word_state2, &mut alphabet_state);
    for k in 0..26 {
        let rank = |s: Status| match s {
            Status::UNKNOWN => 0,
            Status::RED => 1,
            Status::YELLOW => 2,
            Status::GREEN => 3,
        };
        assert!(rank(alphabet_state[k]) >= rank(before[k]));
    }
}

#[test]
fn render_status_lines() {
    let guess = String::from("LOLLY");
    let answer = String::from("ALLOY");
    let mut word_state = [Status::UNKNOWN; 5];
    let mut alphabet_state = [Status::UNKNOWN; 26];
    update_state(&guess, &answer, &mut word_state, &mut alphabet_state);
    assert_eq!(render_statuses(&word_state), "YYGRG");
    let line = render_alphabet(&alphabet_state);
    assert_eq!(line.len(), 26);
    assert_eq!(&line[('L' as u8 - b'A') as usize..('L' as u8 - b'A') as usize + 1], "G");
    assert_eq!(&line[0..1], "X");
}
