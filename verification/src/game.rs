//! The round machinery: one secret answer, up to six guesses, per-guess
//! results, per-letter knowledge, and the hard-mode legality rule, together
//! with the game manager that strings rounds into a session.

pub mod common;
pub mod keyboard;
pub mod player;
pub mod word_set;

use vstd::prelude::*;
use vstd::string::StrSliceExecFns;

use self::common::word_result;
use self::common::upgrade_keys;
use self::common::KeyStatus;
use self::common::Word;
use self::common::WordStatus;
use self::keyboard::Keyboard;
use self::player::Player;
use self::word_set::WordSet;
use crate::model::classify_spec;
use crate::model::hard_legal;
use crate::model::wf_word;
use crate::model::WORD_LENGTH;

verus! {

/// One may guess at most `MAX_GUESS_NUM` times in a round.
pub const MAX_GUESS_NUM: usize = 6;

/// Whether the hard-mode rule constrains guesses after the first.
#[derive(Clone, Copy, Debug, PartialEq, Eq, Structural)]
pub enum GameLevel {
    Default,
    Hard,
}

/// How each round's answer is chosen.
#[derive(Clone, Copy, Debug, PartialEq, Eq, Structural)]
pub enum GameMode {
    /// Answer is picked from the shuffled candidate list.
    Random,
    /// Answer is explicitly assigned.
    Assigned,
}

/// Where the word lists come from.
pub enum WordsPath {
    /// Use the built-in words.
    Default,
    /// First the path to the final words, second to the acceptable words.
    Customized(String, String),
}

/// Why a submitted guess was not played.
#[derive(Clone, Copy, Debug, PartialEq, Eq, Structural)]
pub enum GuessError {
    /// Not in the acceptable list, or rejected by the hard-mode rule; no
    /// attempt is consumed.
    Invalid,
    /// The round is already over.
    OverTry,
}

/// The attempt, counted from one, on which the first winning guess was
/// played; zero when no guess matches the answer.
pub open spec fn win_attempt(gs: Seq<String>, ans: Seq<char>) -> int
    decreases gs.len(),
{
    if gs.len() == 0 {
        0
    } else if gs[0]@ == ans {
        1
    } else {
        let rest = win_attempt(gs.drop_first(), ans);
        if rest == 0 {
            0
        } else {
            rest + 1
        }
    }
}

/// How one more guess moves the winning attempt: an earlier win stands, a
/// fresh win is charged the new attempt number, otherwise there is still
/// none.
pub proof fn lemma_win_attempt_push(gs: Seq<String>, ans: Seq<char>, g: String)
    ensures
        win_attempt(gs, ans) != 0 ==> win_attempt(gs.push(g), ans) == win_attempt(gs, ans),
        win_attempt(gs, ans) == 0 && g@ == ans ==> win_attempt(gs.push(g), ans) == gs.len() + 1,
        win_attempt(gs, ans) == 0 && g@ != ans ==> win_attempt(gs.push(g), ans) == 0,
    decreases gs.len(),
{
    if gs.len() > 0 {
        assert(gs.push(g)[0] == gs[0]);
        assert(gs.push(g).drop_first() =~= gs.drop_first().push(g));
        lemma_win_attempt_push(gs.drop_first(), ans, g);
        lemma_win_attempt_spec(gs.drop_first(), ans);
    } else {
        assert(gs.push(g)[0] == g);
        assert(gs.push(g).drop_first() =~= Seq::<String>::empty());
        assert(win_attempt(Seq::<String>::empty(), ans) == 0);
    }
}

/// The winning attempt is in range, marks a winning guess, and exists
/// exactly when some guess equals the answer.
pub proof fn lemma_win_attempt_spec(gs: Seq<String>, ans: Seq<char>)
    ensures
        0 <= win_attempt(gs, ans) <= gs.len(),
        (win_attempt(gs, ans) != 0) <==> exists|i: int| 0 <= i < gs.len() && (#[trigger] gs[i])@
            == ans,
        win_attempt(gs, ans) != 0 ==> gs[win_attempt(gs, ans) - 1]@ == ans,
    decreases gs.len(),
{
    if gs.len() > 0 {
        lemma_win_attempt_spec(gs.drop_first(), ans);
        if gs[0]@ == ans {
        } else {
            let rest = gs.drop_first();
            if win_attempt(rest, ans) != 0 {
                assert(gs[win_attempt(gs, ans) - 1] == rest[win_attempt(rest, ans) - 1]);
                assert(exists|i: int| 0 <= i < gs.len() && (#[trigger] gs[i])@ == ans) by {
                    let i = choose|i: int| 0 <= i < rest.len() && (#[trigger] rest[i])@ == ans;
                    assert(gs[i + 1] == rest[i]);
                }
            } else {
                if exists|i: int| 0 <= i < gs.len() && (#[trigger] gs[i])@ == ans {
                    let i = choose|i: int| 0 <= i < gs.len() && (#[trigger] gs[i])@ == ans;
                    assert(rest[i - 1] == gs[i]);
                }
            }
        }
    }
}

/// One round of the game: a secret answer, the guesses accepted so far with
/// their results, and the keyboard knowledge.  The hard-mode constraint set
/// is not stored: it is derived on demand from the most recent guess and its
/// result.
#[derive(Debug)]
pub struct Round {
    answer: Word,
    input: Vec<Word>,
    input_status: Vec<WordStatus>,
    is_success: bool,
    pub success_cnt: usize,
    pub keyboard: Keyboard,
}

impl Round {
    /// The secret answer.
    pub closed spec fn ans(self) -> Seq<char> {
        self.answer@
    }

    /// The guesses accepted so far, in order.
    pub closed spec fn guesses(self) -> Seq<String> {
        self.input@
    }

    /// The result each accepted guess earned, in order.
    pub closed spec fn results(self) -> Seq<WordStatus> {
        self.input_status@
    }

    /// Whether some guess hit the answer.
    pub closed spec fn success(self) -> bool {
        self.is_success
    }

    /// The attempt the round was won on, zero while it is not won.
    pub closed spec fn win_count(self) -> int {
        self.success_cnt as int
    }

    /// The keyboard knowledge gathered this round.
    pub closed spec fn kb(self) -> Keyboard {
        self.keyboard
    }

    /// The round has a playable answer.
    pub open spec fn has_answer(self) -> bool {
        wf_word(self.ans())
    }

    /// Whether a candidate may be played now: the first guess of a round is
    /// always legal, easy mode constrains nothing further, and hard mode
    /// holds the candidate to the exact locks and per-letter minimum counts
    /// of the previous guess's result — which, by the round's invariant, is
    /// the classification of that guess against the answer.
    pub open spec fn guess_allowed(self, g: Seq<char>, level: GameLevel) -> bool {
        self.guesses().len() == 0 || level is Default || hard_legal(
            g,
            self.guesses().last()@,
            classify_spec(self.guesses().last()@, self.ans()),
        )
    }

    /// The round's internal invariant: results match the classification of
    /// their guesses and the win bookkeeping matches the guess history.
    pub closed spec fn wf(self) -> bool {
        &&& self.input_status@.len() == self.input@.len()
        &&& self.input@.len() <= MAX_GUESS_NUM
        &&& (self.input@.len() > 0 ==> wf_word(self.answer@))
        &&& (forall|i: int| 0 <= i < self.input@.len() ==> wf_word((#[trigger] self.input@[i])@))
        &&& (forall|i: int|
            0 <= i < self.input@.len() ==> (#[trigger] self.input_status@[i]).data@ == word_result(
                self.input@[i]@,
                self.answer@,
            ))
        &&& self.is_success == (win_attempt(self.input@, self.answer@) != 0)
        &&& self.success_cnt as int == win_attempt(self.input@, self.answer@)
    }

    /// A fresh round with no answer set and nothing learnt.
    pub fn new() -> (r: Round)
        ensures
            r.wf(),
            r.ans() == Seq::<char>::empty(),
            r.guesses() == Seq::<String>::empty(),
            r.results() == Seq::<WordStatus>::empty(),
            !r.success(),
            r.win_count() == 0,
            r.kb().spec_keys() =~= Seq::new(common::KEYS_NUM as nat, |i: int| KeyStatus::Unknown),
    {
        Round {
            answer: String::new(),
            input: Vec::new(),
            input_status: Vec::new(),
            is_success: false,
            success_cnt: 0,
            keyboard: Keyboard::new(),
        }
    }

    /// Installs the round's secret answer; only allowed before any guess.
    pub fn set_ans(&mut self, ans: Word)
        requires
            old(self).wf(),
            old(self).guesses().len() == 0,
        ensures
            final(self).wf(),
            final(self).ans() == ans@,
            final(self).guesses() == old(self).guesses(),
            final(self).results() == old(self).results(),
            final(self).success() == old(self).success(),
            final(self).win_count() == old(self).win_count(),
            final(self).kb() == old(self).kb(),
    {
        self.answer = ans;
    }

    /// Whether the candidate may be played now, by the level's rule: in
    /// hard mode it is judged against the most recent guess and its result
    /// alone.
    pub fn is_valid_guess(&self, guess: &Word, level: &GameLevel) -> (r: bool)
        requires
            self.wf(),
            wf_word(guess@),
        ensures
            r == self.guess_allowed(guess@, *level),
    {
        if self.input.len() == 0 {
            return true;
        }
        match level {
            GameLevel::Default => true,
            GameLevel::Hard => {
                let n = self.input.len();
                let last = &self.input[n - 1];
                let statuses = crate::engine::classify_statuses(
                    last.as_str(),
                    self.answer.as_str(),
                );
                crate::engine::hard_mode_check(guess.as_str(), last.as_str(), &statuses)
            },
        }
    }

    /// How many guesses have been accepted.
    pub fn input_count(&self) -> (n: usize)
        ensures
            n == self.guesses().len(),
    {
        self.input.len()
    }

    /// Whether some guess hit the answer.
    pub fn is_won(&self) -> (r: bool)
        ensures
            r == self.success(),
    {
        self.is_success
    }

    /// The attempt the round was won on, zero while it is not won.
    pub fn win_count_exec(&self) -> (c: usize)
        ensures
            c as int == self.win_count(),
    {
        self.success_cnt
    }

    /// A copy of the `i`-th accepted guess.
    pub fn guess_at(&self, i: usize) -> (w: Word)
        requires
            i < self.guesses().len(),
        ensures
            w == self.guesses()[i as int],
    {
        self.input[i].clone()
    }

    /// The round's answer.
    pub fn show_answer(&self) -> (r: &Word)
        ensures
            r@ == self.ans(),
    {
        &self.answer
    }

    /// Plays one legal guess: classifies it against the answer, folds the
    /// result into the keyboard, appends guess and result to the history,
    /// and detects a win.
    pub fn take_guess(&mut self, guess: Word) -> (res: WordStatus)
        requires
            old(self).wf(),
            old(self).has_answer(),
            wf_word(guess@),
            old(self).guesses().len() < MAX_GUESS_NUM,
        ensures
            final(self).wf(),
            final(self).ans() == old(self).ans(),
            final(self).guesses() == old(self).guesses().push(guess),
            final(self).results() == old(self).results().push(res),
            res.data@ == word_result(guess@, old(self).ans()),
            final(self).success() == (old(self).success() || guess@ == old(self).ans()),
            final(self).win_count() == (if old(self).success() {
                old(self).win_count()
            } else if guess@ == old(self).ans() {
                old(self).guesses().len() as int + 1
            } else {
                0
            }),
            final(self).kb().spec_keys() == upgrade_keys(
                old(self).kb().spec_keys(),
                guess@,
                classify_spec(guess@, old(self).ans()),
                WORD_LENGTH as int,
            ),
    {
        let ghost a = self.answer@;
        let ghost result = classify_spec(guess@, a);
        let statuses = crate::engine::classify_statuses(guess.as_str(), self.answer.as_str());
        let won_now = guess.eq(&self.answer);
        let mut data = [KeyStatus::Unknown; WORD_LENGTH];
        let mut i: usize = 0;
        while i < WORD_LENGTH
            invariant
                i <= WORD_LENGTH,
                self.answer == old(self).answer,
                self.input == old(self).input,
                self.input_status == old(self).input_status,
                self.is_success == old(self).is_success,
                self.success_cnt == old(self).success_cnt,
                a == self.answer@,
                wf_word(guess@),
                wf_word(a),
                result == classify_spec(guess@, a),
                statuses@ == result,
                self.keyboard.spec_keys() == upgrade_keys(
                    old(self).keyboard.spec_keys(),
                    guess@,
                    result,
                    i as int,
                ),
                data@.len() == WORD_LENGTH,
                forall|j: int| 0 <= j < i ==> data@[j] == KeyStatus::of_status(result[j]),
            decreases WORD_LENGTH - i,
        {
            let c = guess.as_str().get_char(i);
            let st = statuses[i];
            let ks = KeyStatus::from_status(st);
            self.keyboard.update_status(c, ks);
            data[i] = ks;
            i = i + 1;
        }
        let res = WordStatus { data };
        proof {
            assert(res.data@ =~= word_result(guess@, a));
        }
        let ghost input0 = self.input@;
        self.input.push(guess);
        self.input_status.push(res);
        proof {
            lemma_win_attempt_push(input0, a, guess);
            lemma_win_attempt_spec(input0, a);
        }
        if won_now {
            self.is_success = true;
            if self.success_cnt == 0 {
                self.success_cnt = self.input.len();
            }
        }
        res
    }
}

/// A round is won exactly when some accepted guess equals the answer; the
/// recorded winning attempt then marks the first such guess, counted from
/// one, and an unwon round records none.  A round whose full attempt budget
/// is spent without a winning guess is lost.
pub proof fn lemma_round_outcome(r: Round)
    requires
        r.wf(),
    ensures
        r.success() <==> exists|i: int|
            0 <= i < r.guesses().len() && (#[trigger] r.guesses()[i])@ == r.ans(),
        r.success() ==> 1 <= r.win_count() <= r.guesses().len() && r.guesses()[r.win_count() - 1]@
            == r.ans(),
        !r.success() ==> r.win_count() == 0,
        r.guesses().len() <= MAX_GUESS_NUM,
{
    lemma_win_attempt_spec(r.guesses(), r.ans());
}

/// The game manager: word lists, difficulty, the current round, the answers
/// already used, and the player's cross-round record.
#[derive(Debug)]
pub struct Game {
    word_set: WordSet,
    level: GameLevel,
    round: Round,
    used_ans: Vec<Word>,
    player: Player,
}

impl Game {
    /// The configured word lists.
    pub closed spec fn words(self) -> WordSet {
        self.word_set
    }

    /// The configured difficulty.
    pub closed spec fn game_level(self) -> GameLevel {
        self.level
    }

    /// The round being played.
    pub closed spec fn cur_round(self) -> Round {
        self.round
    }

    /// The answers of the rounds started so far.
    pub closed spec fn used_answers(self) -> Seq<String> {
        self.used_ans@
    }

    /// The player's record.
    pub closed spec fn the_player(self) -> Player {
        self.player
    }

    /// The game's invariant: usable word lists, a well-formed round, and a
    /// well-formed player record.
    pub open spec fn wf(self) -> bool {
        &&& self.words().wf()
        &&& self.cur_round().wf()
        &&& self.the_player().wf()
    }

    /// Builds a game over a usable word set: the candidate answers are
    /// shuffled deterministically by the seed, so the same seed always plays
    /// the same sequence of answers.
    pub fn new(level: GameLevel, word_set: WordSet, seed: u64) -> (g: Game)
        requires
            word_set.wf(),
        ensures
            g.wf(),
            g.game_level() == level,
            g.words().final_words@ == crate::session::shuffled_of(seed, word_set.final_words@),
            g.words().acceptable() == word_set.acceptable(),
            g.cur_round().guesses().len() == 0,
            !g.cur_round().success(),
            g.used_answers().len() == 0,
            g.the_player().words().len() == 0,
            g.the_player().records().len() == 0,
    {
        let ghost fin0 = word_set.final_words@;
        let mut word_set = word_set;
        crate::session::shuffle_seeded(&mut word_set.final_words, seed);
        proof {
            word_set::lemma_permutation_wf(fin0, word_set.final_words@);
            word_set::lemma_permutation_subset(
                fin0,
                word_set.final_words@,
                word_set.acceptable(),
                word_set.acceptable(),
            );
        }
        Game {
            level,
            word_set,
            round: Round::new(),
            used_ans: Vec::new(),
            player: Player::new(),
        }
    }

    /// Whether the guess may be played now: it must be an acceptable word
    /// and obey the level's rule for this round.
    fn is_valid_guess(&self, w: &Word) -> (r: bool)
        requires
            self.wf(),
            wf_word(w@),
        ensures
            r == (crate::engine::list_contains_word(self.words().acceptable(), w@)
                && self.cur_round().guess_allowed(w@, self.game_level())),
    {
        self.word_set.is_valid_guess(w) && self.round.is_valid_guess(w, &self.level)
    }

    /// Whether the round has ended: the answer was hit, or all attempts are
    /// used.
    pub fn is_round_end(&self) -> (r: bool)
        ensures
            r == (self.cur_round().guesses().len() == MAX_GUESS_NUM || self.cur_round().success()),
    {
        self.round.input_count() == MAX_GUESS_NUM || self.round.is_won()
    }

    /// Whether the string is a playable word: exactly `WORD_LENGTH`
    /// uppercase letters.
    pub fn is_word(s: &String) -> (r: bool)
        ensures
            r == wf_word(s@),
    {
        crate::engine::is_word(s)
    }

    /// The answer of day `d`, counted from one: the `d`-th word of the
    /// shuffled candidate list.
    pub fn gen_answer_from(&self, d: usize) -> (r: Word)
        requires
            1 <= d <= self.words().final_words@.len(),
        ensures
            r == self.words().final_words@[d - 1],
    {
        self.word_set.final_words[d - 1].clone()
    }

    /// Begins a fresh round with the given answer and remembers the answer
    /// as used.
    pub fn start_new_round(&mut self, ans: Word)
        requires
            old(self).wf(),
            wf_word(ans@),
        ensures
            final(self).wf(),
            final(self).cur_round().ans() == ans@,
            final(self).cur_round().guesses().len() == 0,
            final(self).cur_round().results().len() == 0,
            !final(self).cur_round().success(),
            final(self).cur_round().win_count() == 0,
            final(self).cur_round().kb().spec_keys() == Seq::new(
                common::KEYS_NUM as nat,
                |i: int| KeyStatus::Unknown,
            ),
            final(self).used_answers() == old(self).used_answers().push(ans),
            final(self).words() == old(self).words(),
            final(self).game_level() == old(self).game_level(),
            final(self).the_player() == old(self).the_player(),
    {
        let ans_copy = ans.clone();
        self.round = Round::new();
        self.round.set_ans(ans);
        self.used_ans.push(ans_copy);
    }

    /// Closes the finished round: every guess of the round is appended to
    /// the player's word record, the outcome is recorded, and the round's
    /// result is returned as (won, answer, attempts used to win).
    pub fn end_cur_round(&mut self) -> (r: (bool, Word, usize))
        requires
            old(self).wf(),
        ensures
            final(self).wf(),
            final(self).the_player().words() == old(self).the_player().words() + old(
                self,
            ).cur_round().guesses(),
            final(self).the_player().records() == old(self).the_player().records().push(
                (old(self).cur_round().win_count() as usize, old(self).cur_round().success()),
            ),
            r.0 == old(self).cur_round().success(),
            r.1@ == old(self).cur_round().ans(),
            r.2 as int == old(self).cur_round().win_count(),
            final(self).cur_round() == old(self).cur_round(),
            final(self).words() == old(self).words(),
            final(self).game_level() == old(self).game_level(),
            final(self).used_answers() == old(self).used_answers(),
    {
        let n = self.round.input_count();
        let mut i: usize = 0;
        while i < n
            invariant
                i <= n,
                n == self.cur_round().guesses().len(),
                self.round == old(self).round,
                self.word_set == old(self).word_set,
                self.level == old(self).level,
                self.used_ans == old(self).used_ans,
                self.player.words() == old(self).player.words() + self.cur_round().guesses().take(
                    i as int,
                ),
                self.player.records() == old(self).player.records(),
            decreases n - i,
        {
            let w = self.round.guess_at(i);
            self.player.recode_input(w);
            proof {
                assert(old(self).player.words() + self.cur_round().guesses().take(i as int + 1)
                    =~= (old(self).player.words() + self.cur_round().guesses().take(i as int)).push(
                    self.cur_round().guesses()[i as int],
                ));
            }
            i = i + 1;
        }
        proof {
            assert(self.cur_round().guesses().take(n as int) =~= self.cur_round().guesses());
            lemma_win_attempt_spec(self.round.guesses(), self.round.ans());
        }
        let cnt = self.round.win_count_exec();
        let won = self.round.is_won();
        self.player.evaluate(cnt, won);
        let ans = self.round.show_answer().clone();
        (won, ans, cnt)
    }

    /// The most frequently played words with their counts; see
    /// `Player::show_most_used_words` for the order.
    pub fn show_most_used_words(&self) -> (r: Vec<(Word, usize)>)
        ensures
            r@.len() <= player::TOP_N,
            forall|i: int|
                0 <= i < r@.len() ==> (#[trigger] r@[i]).1 as int == crate::session::word_freq(
                    self.the_player().words(),
                    r@[i].0@,
                    self.the_player().words().len() as int,
                ) && r@[i].1 >= 1,
            forall|i: int, j: int| 0 <= i < j < r@.len() ==> r@[i].0@ != r@[j].0@,
            forall|i: int, j: int|
                0 <= i < j < r@.len() ==> crate::session::freq_le(
                    r@[i].0@,
                    r@[i].1 as int,
                    r@[j].0@,
                    r@[j].1 as int,
                ),
            crate::session::is_top_listing(self.the_player().words(), player::TOP_N as int, r@),
    {
        self.player.show_most_used_words()
    }

    /// Wins, losses, and the sum of recorded attempt counts; the average
    /// attempts per win is the quotient of the last by the first.
    pub fn show_analyse(&self) -> (r: (usize, usize, usize))
        requires
            self.wf(),
            self.the_player().records().len() * MAX_GUESS_NUM <= usize::MAX,
        ensures
            r.0 as int == player::wins_upto(
                self.the_player().records(),
                self.the_player().records().len() as int,
            ),
            r.1 as int == self.the_player().records().len() - player::wins_upto(
                self.the_player().records(),
                self.the_player().records().len() as int,
            ),
            r.2 as int == player::tries_upto(
                self.the_player().records(),
                self.the_player().records().len() as int,
            ),
    {
        self.player.analyse()
    }

    /// Plays one guess.  A finished round refuses every guess; an
    /// unacceptable or hard-mode-illegal guess is refused without consuming
    /// an attempt; a legal guess is classified and recorded, and the result
    /// and the updated keyboard are returned.
    pub fn guess(&mut self, guess_word: &Word) -> (r: Result<(WordStatus, Keyboard), GuessError>)
        requires
            old(self).wf(),
            wf_word(guess_word@),
            old(self).cur_round().has_answer(),
        ensures
            final(self).wf(),
            final(self).words() == old(self).words(),
            final(self).game_level() == old(self).game_level(),
            final(self).used_answers() == old(self).used_answers(),
            final(self).the_player() == old(self).the_player(),
            (old(self).cur_round().guesses().len() == MAX_GUESS_NUM || old(
                self,
            ).cur_round().success()) ==> (r matches Err(e) && e == GuessError::OverTry
                && *final(self) == *old(self)),
            !(old(self).cur_round().guesses().len() == MAX_GUESS_NUM || old(
                self,
            ).cur_round().success()) && !(crate::engine::list_contains_word(
                old(self).words().acceptable(),
                guess_word@,
            ) && old(self).cur_round().guess_allowed(guess_word@, old(self).game_level())) ==> (
            r matches Err(e) && e == GuessError::Invalid && *final(self) == *old(self)),
            !(old(self).cur_round().guesses().len() == MAX_GUESS_NUM || old(
                self,
            ).cur_round().success()) && (crate::engine::list_contains_word(
                old(self).words().acceptable(),
                guess_word@,
            ) && old(self).cur_round().guess_allowed(guess_word@, old(self).game_level())) ==> (
            r matches Ok(p) && p.0.data@ == word_result(
                guess_word@,
                old(self).cur_round().ans(),
            ) && p.1 == final(self).cur_round().kb() && p.1.spec_keys() == upgrade_keys(
                old(self).cur_round().kb().spec_keys(),
                guess_word@,
                classify_spec(guess_word@, old(self).cur_round().ans()),
                WORD_LENGTH as int,
            ) && final(self).cur_round().ans() == old(self).cur_round().ans()
                && final(self).cur_round().guesses() == old(self).cur_round().guesses().push(
                *guess_word,
            ) && final(self).cur_round().results() == old(self).cur_round().results().push(p.0)
                && final(self).cur_round().success() == (old(self).cur_round().success()
                || guess_word@ == old(self).cur_round().ans())),
    {
        if self.is_round_end() {
            Err(GuessError::OverTry)
        } else if self.is_valid_guess(guess_word) {
            let word_copy = guess_word.clone();
            let status = self.round.take_guess(word_copy);
            Ok((status, self.show_keyboard()))
        } else {
            Err(GuessError::Invalid)
        }
    }

    /// Whether the current round was won.
    fn is_success(&self) -> (r: bool)
        ensures
            r == self.cur_round().success(),
    {
        self.round.is_won()
    }

    /// The current round's answer.
    fn show_answer(&self) -> (r: &Word)
        ensures
            r@ == self.cur_round().ans(),
    {
        self.round.show_answer()
    }

    /// How many candidate answers the game was configured with.
    pub fn final_word_count(&self) -> (n: usize)
        ensures
            n == self.words().final_words@.len(),
    {
        self.word_set.final_words.len()
    }

    /// The keyboard knowledge gathered in the current round.
    pub fn show_keyboard(&self) -> (r: Keyboard)
        ensures
            r == self.cur_round().kb(),
    {
        self.round.keyboard
    }
}

} // verus!
