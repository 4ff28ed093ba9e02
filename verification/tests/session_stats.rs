use wordle::cli::Cli;
use wordle::errors::GameError;
use wordle::session::check_subset;
use wordle::session::find_most_frequent_strings;
use wordle::session::pick_answer;
use wordle::session::sort_words;
use wordle::session::str_lex_le;
use wordle::session::validate_word_list;
use wordle::state::Game;
use wordle::state::State;

fn words(ws: &[&str]) -> Vec<String> {
    ws.iter().map(|s| s.to_string()).collect()
}

#[test]
fn frequency_counts_and_order() {
    let strings = words(&["APPLE", "BERRY", "APPLE", "CIGAR", "BERRY", "APPLE"]);
    let top = find_most_frequent_strings(&strings, 2);
    assert_eq!(top, vec![(String::from("APPLE"), 3), (String::from("BERRY"), 2)]);
    let all = find_most_frequent_strings(&strings, 10);
    assert_eq!(
        all,
        vec![
            (String::from("APPLE"), 3),
            (String::from("BERRY"), 2),
            (String::from("CIGAR"), 1),
        ]
    );
}

#[test]
fn frequency_ties_break_lexically() {
    let strings = words(&["BBBBB", "AAAAA", "CCCCC"]);
    let top = find_most_frequent_strings(&strings, 2);
    assert_eq!(top, vec![(String::from("AAAAA"), 1), (String::from("BBBBB"), 1)]);
}

#[test]
fn statistics_recomputation_is_identical() {
    // Re-running every statistics computation on unchanged history yields
    // identical output.
    let strings = words(&["APPLE", "BERRY", "APPLE"]);
    assert_eq!(
        find_most_frequent_strings(&strings, 5),
        find_most_frequent_strings(&strings, 5)
    );
    let state = State {
        total_rounds: 2,
        games: vec![
            Game { answer: String::from("ALLOY"), guesses: words(&["LOLLY", "ALLOY"]) },
            Game { answer: String::from("CRANE"), guesses: words(&["TRAIN"]) },
        ],
    };
    assert_eq!(state.resume_stats(), state.resume_stats());
}

#[test]
fn resume_stats_reads_the_snapshot() {
    let state = State {
        total_rounds: 2,
        games: vec![
            Game { answer: String::from("ALLOY"), guesses: words(&["LOLLY", "ALLOY"]) },
            Game { answer: String::from("CRANE"), guesses: words(&["TRAIN"]) },
        ],
    };
    let (wins, total, win_guesses, all_guesses) = state.resume_stats();
    assert_eq!(wins, 1);
    assert_eq!(total, 2);
    assert_eq!(win_guesses, 2);
    assert_eq!(all_guesses, words(&["LOLLY", "ALLOY", "TRAIN"]));
    let empty = State::default();
    assert_eq!(empty.total_rounds, 0);
    assert_eq!(empty.resume_stats(), (0, 0, 0, Vec::new()));
}

#[test]
fn word_list_validation() {
    assert!(validate_word_list(&words(&["CRANE", "ALLOY"])).is_ok());
    assert_eq!(
        validate_word_list(&words(&["CRANE", "CRANE"])),
        Err(GameError::Configuration)
    );
    assert_eq!(
        validate_word_list(&words(&["crane"])),
        Err(GameError::Configuration)
    );
    assert_eq!(
        validate_word_list(&words(&["CRAN"])),
        Err(GameError::Configuration)
    );
}

#[test]
fn subset_check() {
    let fin = words(&["CRANE", "ALLOY"]);
    let acc = words(&["ALLOY", "CRANE", "TRAIN"]);
    assert!(check_subset(&fin, &acc));
    assert!(!check_subset(&acc, &fin));
}

#[test]
fn sorting_words() {
    let mut v = words(&["CIGAR", "APPLE", "BERRY"]);
    sort_words(&mut v);
    assert_eq!(v, words(&["APPLE", "BERRY", "CIGAR"]));
    assert!(str_lex_le("APPLE", "APPLE"));
    assert!(str_lex_le("APPLE", "APPLY"));
    assert!(!str_lex_le("BERRY", "APPLE"));
}

#[test]
fn seeded_answer_is_deterministic() {
    // The same seed and day must pick the same answer twice.
    let list: Vec<String> = (b'A'..=b'Z')
        .map(|c| String::from_utf8(vec![c; 5]).unwrap())
        .collect();
    let first = pick_answer(&list, 19260817, 1, 0);
    let second = pick_answer(&list, 19260817, 1, 0);
    assert_eq!(first, second);
    assert!(list.contains(&first));
}

#[test]
fn seeded_shuffle_permutes_the_list() {
    // Walking every day of the shuffled order visits each word exactly once,
    // and the order differs from the unshuffled list.
    let list: Vec<String> = (b'A'..=b'Z')
        .map(|c| String::from_utf8(vec![c; 5]).unwrap())
        .collect();
    let picks: Vec<String> = (1..=26).map(|d| pick_answer(&list, 19260817, d, 0)).collect();
    let mut sorted_picks = picks.clone();
    sorted_picks.sort();
    assert_eq!(sorted_picks, list);
    assert_ne!(picks, list);
    // Advancing the bias walks the same sequence.
    assert_eq!(pick_answer(&list, 19260817, 1, 3), picks[3]);
}

#[test]
fn frequency_edge_cases() {
    let empty: Vec<String> = Vec::new();
    assert_eq!(find_most_frequent_strings(&empty, 5), Vec::new());
    let strings = words(&["APPLE", "BERRY"]);
    assert_eq!(find_most_frequent_strings(&strings, 0), Vec::new());
}

#[test]
fn cli_merge_prefers_the_command_line() {
    let mut cli = Cli {
        word: None,
        random: false,
        difficult: true,
        stats: false,
        day: Some(3),
        seed: None,
        final_set: None,
        acceptable_set: Some(String::from("acc.txt")),
        state: None,
        config: None,
    };
    let from = Cli {
        word: Some(String::from("CRANE")),
        random: true,
        difficult: false,
        stats: true,
        day: Some(9),
        seed: Some(42),
        final_set: Some(String::from("fin.txt")),
        acceptable_set: Some(String::from("other.txt")),
        state: Some(String::from("state.json")),
        config: None,
    };
    cli.merge(from);
    assert_eq!(cli.word, Some(String::from("CRANE")));
    assert!(cli.random);
    assert!(cli.difficult);
    assert!(cli.stats);
    assert_eq!(cli.day, Some(3));
    assert_eq!(cli.seed, Some(42));
    assert_eq!(cli.final_set, Some(String::from("fin.txt")));
    assert_eq!(cli.acceptable_set, Some(String::from("acc.txt")));
    assert_eq!(cli.state, Some(String::from("state.json")));
    assert_eq!(cli.config, None);
}
