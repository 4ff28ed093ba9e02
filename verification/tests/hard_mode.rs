use wordle::engine::is_valid;
use wordle::status::Status;

fn acceptable() -> Vec<String> {
    ["CRANE", "CONES", "BONUS", "TRAIN", "LLAMA", "LABEL", "ALLOY", "SALLY"]
        .iter()
        .map(|s| s.to_string())
        .collect()
}

#[test]
fn first_guess_needs_only_the_list() {
    let acc = acceptable();
    assert!(is_valid(&String::from("CRANE"), true, &None, &None, &acc));
    assert!(!is_valid(&String::from("XXXXX"), true, &None, &None, &acc));
}

#[test]
fn easy_mode_ignores_previous_result() {
    let acc = acceptable();
    let prev = String::from("CRANE");
    let state = [Status::GREEN, Status::RED, Status::RED, Status::RED, Status::RED];
    assert!(is_valid(&String::from("BONUS"), false, &Some(&prev), &Some(&state), &acc));
}

#[test]
fn exact_lock_rejects_moved_letter() {
    // Previous guess CRANE scored GREEN at position 0 only: every candidate
    // not starting with C is rejected.
    let acc = acceptable();
    let prev = String::from("CRANE");
    let state = [Status::GREEN, Status::RED, Status::RED, Status::RED, Status::RED];
    assert!(!is_valid(&String::from("BONUS"), true, &Some(&prev), &Some(&state), &acc));
    assert!(!is_valid(&String::from("TRAIN"), true, &Some(&prev), &Some(&state), &acc));
    assert!(is_valid(&String::from("CONES"), true, &Some(&prev), &Some(&state), &acc));
}

#[test]
fn previous_guess_is_always_legal_again() {
    // Resubmitting the previous guess satisfies its own locks and counts.
    let acc = acceptable();
    let prev = String::from("LLAMA");
    let state = [Status::YELLOW, Status::GREEN, Status::YELLOW, Status::RED, Status::YELLOW];
    assert!(is_valid(&prev, true, &Some(&prev), &Some(&state), &acc));
}

#[test]
fn yellow_letters_must_keep_their_count() {
    // Both L's of LABEL were marked present-elsewhere: a candidate with a
    // single L is rejected, one with two L's passes.
    let acc = acceptable();
    let prev = String::from("LABEL");
    let state = [Status::YELLOW, Status::RED, Status::RED, Status::RED, Status::YELLOW];
    assert!(!is_valid(&String::from("CONES"), true, &Some(&prev), &Some(&state), &acc));
    assert!(is_valid(&String::from("ALLOY"), true, &Some(&prev), &Some(&state), &acc));
    assert!(is_valid(&String::from("SALLY"), true, &Some(&prev), &Some(&state), &acc));
}
