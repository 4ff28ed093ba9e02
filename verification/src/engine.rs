//! The guess-evaluation engine: the per-position letter-status classifier,
//! the per-guess update of word and alphabet knowledge, and the hard-mode
//! legality check for subsequent guesses.

use vstd::prelude::*;
use vstd::string::StrSliceExecFns;
use vstd::string::StringExecFns;

use crate::errors::GameError;
use crate::model::classify_at;
use crate::model::classify_spec;
use crate::model::count_upto;
use crate::model::exact_locks_respected;
use crate::model::exacts_upto;
use crate::model::hard_legal;
use crate::model::is_upper_char;
use crate::model::letter_index;
use crate::model::lemma_exacts_le_count;
use crate::model::misses_upto;
use crate::model::upgrade_alpha;
use crate::model::wf_word;
use crate::model::yellow_marks_upto;
use crate::model::ALPHABET_SIZE;
use crate::model::WORD_LENGTH;
use crate::status::Status;

verus! {

/// A word list holds this word: some entry reads character for character
/// like `w`.
pub open spec fn list_contains_word(list: Seq<String>, w: Seq<char>) -> bool {
    exists|i: int| 0 <= i < list.len() && list[i]@ == w
}

/// Alphabet slot of an uppercase letter.
pub fn letter_slot(c: char) -> (k: usize)
    requires
        is_upper_char(c),
    ensures
        k == letter_index(c),
        k < ALPHABET_SIZE,
{
    (c as u32 - 'A' as u32) as usize
}

/// How many of the first `n` characters of `s` are the letter `c`.
fn count_letter(s: &str, c: char, n: usize) -> (r: usize)
    requires
        n <= s@.len(),
    ensures
        r as int == count_upto(s@, c, n as int),
{
    let mut r: usize = 0;
    let mut i: usize = 0;
    while i < n
        invariant
            i <= n <= s@.len(),
            r as int == count_upto(s@, c, i as int),
            r <= i,
        decreases n - i,
    {
        if s.get_char(i) == c {
            r = r + 1;
        }
        i = i + 1;
    }
    r
}

/// How many of the first `n` positions hold the letter `c` without matching
/// the answer there.
fn count_misses(g: &str, a: &str, c: char, n: usize) -> (r: usize)
    requires
        n <= g@.len(),
        g@.len() == a@.len(),
    ensures
        r as int == misses_upto(g@, a@, c, n as int),
{
    let mut r: usize = 0;
    let mut i: usize = 0;
    while i < n
        invariant
            i <= n <= g@.len(),
            g@.len() == a@.len(),
            r as int == misses_upto(g@, a@, c, i as int),
            r <= i,
        decreases n - i,
    {
        let gc = g.get_char(i);
        if gc == c && gc != a.get_char(i) {
            r = r + 1;
        }
        i = i + 1;
    }
    r
}

/// How many positions hold the letter `c` and match the answer there.
fn count_exacts(g: &str, a: &str, c: char, n: usize) -> (r: usize)
    requires
        n <= g@.len(),
        g@.len() == a@.len(),
    ensures
        r as int == exacts_upto(g@, a@, c, n as int),
{
    let mut r: usize = 0;
    let mut i: usize = 0;
    while i < n
        invariant
            i <= n <= g@.len(),
            g@.len() == a@.len(),
            r as int == exacts_upto(g@, a@, c, i as int),
            r <= i,
        decreases n - i,
    {
        let gc = g.get_char(i);
        if gc == c && gc == a.get_char(i) {
            r = r + 1;
        }
        i = i + 1;
    }
    r
}

/// The status the guess earns at position `i`: exact matches first, then
/// present-elsewhere while the letter's remaining budget lasts, absent
/// afterwards.
fn classify_pos(g: &str, a: &str, i: usize, len: usize) -> (st: Status)
    requires
        g@.len() == a@.len(),
        len == g@.len(),
        i < len,
    ensures
        st == classify_at(g@, a@, i as int),
{
    let gc = g.get_char(i);
    if gc == a.get_char(i) {
        Status::GREEN
    } else {
        let m = count_misses(g, a, gc, i);
        let in_answer = count_letter(a, gc, len);
        let exact = count_exacts(g, a, gc, len);
        proof {
            lemma_exacts_le_count(g@, a@, gc, len as int);
        }
        let budget = in_answer - exact;
        if m < budget {
            Status::YELLOW
        } else {
            Status::RED
        }
    }
}

/// One status per position of the guess, by the two-pass rule.
pub(crate) fn classify_statuses(g: &str, a: &str) -> (r: Vec<Status>)
    requires
        g@.len() == a@.len(),
        g@.len() <= usize::MAX,
    ensures
        r@ == classify_spec(g@, a@),
{
    let len = g.unicode_len();
    let mut r: Vec<Status> = Vec::new();
    let mut i: usize = 0;
    while i < len
        invariant
            i <= len,
            len == g@.len() == a@.len(),
            r@.len() == i as int,
            forall|j: int| 0 <= j < i ==> r@[j] == classify_at(g@, a@, j),
        decreases len - i,
    {
        let st = classify_pos(g, a, i, len);
        r.push(st);
        i = i + 1;
    }
    proof {
        assert(r@ =~= classify_spec(g@, a@));
    }
    r
}

/// Classifies a guess against an answer of the same length and returns one
/// status per position; a length mismatch is a caller contract violation and
/// is reported as an error instead of a result.
pub fn classify(guess: &str, answer: &str) -> (r: Result<Vec<Status>, GameError>)
    ensures
        guess@.len() == answer@.len() ==> (r matches Ok(v) && v@ == classify_spec(
            guess@,
            answer@,
        )),
        guess@.len() != answer@.len() ==> (r matches Err(e) && e == GameError::LengthMismatch),
{
    let gl = guess.unicode_len();
    let al = answer.unicode_len();
    if gl != al {
        Err(GameError::LengthMismatch)
    } else {
        Ok(classify_statuses(guess, answer))
    }
}

/// Classifies `guess` against `answer` and folds the outcome into the two
/// knowledge maps: `word_state` receives the per-position statuses of this
/// guess, and each guessed letter's entry of `alphabet_state` is upgraded
/// with the status the letter earned, never downgraded.
pub fn update_state(
    guess: &String,
    answer: &String,
    word_state: &mut [Status; WORD_LENGTH],
    alphabet_state: &mut [Status; ALPHABET_SIZE],
)
    requires
        wf_word(guess@),
        wf_word(answer@),
        forall|i: int| 0 <= i < WORD_LENGTH ==> old(word_state)@[i] == Status::UNKNOWN,
    ensures
        final(word_state)@ == classify_spec(guess@, answer@),
        final(alphabet_state)@ == upgrade_alpha(
            old(alphabet_state)@,
            guess@,
            classify_spec(guess@, answer@),
            WORD_LENGTH as int,
        ),
{
    let g = guess.as_str();
    let a = answer.as_str();
    let ghost result = classify_spec(guess@, answer@);
    let mut i: usize = 0;
    while i < WORD_LENGTH
        invariant
            i <= WORD_LENGTH,
            g@ == guess@,
            a@ == answer@,
            wf_word(guess@),
            wf_word(answer@),
            result == classify_spec(guess@, answer@),
            forall|j: int| 0 <= j < i ==> word_state@[j] == result[j],
            forall|j: int| i <= j < WORD_LENGTH ==> word_state@[j] == Status::UNKNOWN,
            alphabet_state@ == upgrade_alpha(old(alphabet_state)@, guess@, result, i as int),
        decreases WORD_LENGTH - i,
    {
        let st = classify_pos(g, a, i, WORD_LENGTH);
        word_state[i] = st;
        let gc = g.get_char(i);
        let k = letter_slot(gc);
        alphabet_state[k] = alphabet_state[k].join(st);
        i = i + 1;
    }
    proof {
        assert(word_state@ =~= classify_spec(guess@, answer@));
    }
}

/// Whether a string is a playable word: exactly `WORD_LENGTH` characters,
/// all uppercase letters of the restricted alphabet.
pub fn is_word(s: &String) -> (r: bool)
    ensures
        r == wf_word(s@),
{
    let st = s.as_str();
    let n = st.unicode_len();
    if n != WORD_LENGTH {
        return false;
    }
    let mut i: usize = 0;
    while i < n
        invariant
            i <= n,
            n == s@.len(),
            st@ == s@,
            n == WORD_LENGTH,
            forall|j: int| 0 <= j < i ==> is_upper_char(#[trigger] s@[j]),
        decreases n - i,
    {
        let c = st.get_char(i);
        let u = c as u32;
        if u < 'A' as u32 || u > 'Z' as u32 {
            return false;
        }
        i = i + 1;
    }
    true
}

/// Linear search for a word in a list, comparing character sequences.
pub fn contains_word(list: &Vec<String>, w: &String) -> (r: bool)
    ensures
        r == list_contains_word(list@, w@),
{
    let mut i: usize = 0;
    while i < list.len()
        invariant
            i <= list@.len(),
            forall|j: int| 0 <= j < i ==> list@[j]@ != w@,
        decreases list@.len() - i,
    {
        if list[i].eq(w) {
            return true;
        }
        i = i + 1;
    }
    false
}

/// How many positions of the previous guess hold the letter `c` and were
/// marked `YELLOW` in its result.
fn count_yellow_marks(prev: &str, res: &Vec<Status>, c: char) -> (r: usize)
    requires
        prev@.len() == WORD_LENGTH,
        res@.len() == WORD_LENGTH,
    ensures
        r as int == yellow_marks_upto(prev@, res@, c, WORD_LENGTH as int),
{
    let mut r: usize = 0;
    let mut i: usize = 0;
    while i < WORD_LENGTH
        invariant
            i <= WORD_LENGTH,
            prev@.len() == WORD_LENGTH,
            res@.len() == WORD_LENGTH,
            r as int == yellow_marks_upto(prev@, res@, c, i as int),
            r <= i,
        decreases WORD_LENGTH - i,
    {
        if prev.get_char(i) == c && res[i] == Status::YELLOW {
            r = r + 1;
        }
        i = i + 1;
    }
    r
}

/// Whether the candidate obeys both hard-mode rules against the previous
/// guess and its result: exact locks kept, yellow letter counts met.
pub(crate) fn hard_mode_check(word: &str, prev: &str, res: &Vec<Status>) -> (r: bool)
    requires
        word@.len() == WORD_LENGTH,
        prev@.len() == WORD_LENGTH,
        res@.len() == WORD_LENGTH,
    ensures
        r == hard_legal(word@, prev@, res@),
{
    let mut i: usize = 0;
    while i < WORD_LENGTH
        invariant
            i <= WORD_LENGTH,
            word@.len() == WORD_LENGTH,
            prev@.len() == WORD_LENGTH,
            res@.len() == WORD_LENGTH,
            forall|j: int| 0 <= j < i && res@[j] == Status::GREEN ==> word@[j] == prev@[j],
        decreases WORD_LENGTH - i,
    {
        if res[i] == Status::GREEN && word.get_char(i) != prev.get_char(i) {
            return false;
        }
        i = i + 1;
    }
    let mut i: usize = 0;
    while i < WORD_LENGTH
        invariant
            i <= WORD_LENGTH,
            word@.len() == WORD_LENGTH,
            prev@.len() == WORD_LENGTH,
            res@.len() == WORD_LENGTH,
            exact_locks_respected(word@, prev@, res@),
            forall|j: int|
                0 <= j < i && res@[j] == Status::YELLOW ==> yellow_marks_upto(
                    prev@,
                    res@,
                    #[trigger] prev@[j],
                    WORD_LENGTH as int,
                ) <= count_upto(word@, prev@[j], WORD_LENGTH as int),
        decreases WORD_LENGTH - i,
    {
        if res[i] == Status::YELLOW {
            let c = prev.get_char(i);
            let required = count_yellow_marks(prev, res, c);
            let have = count_letter(word, c, WORD_LENGTH);
            if have < required {
                return false;
            }
        }
        i = i + 1;
    }
    true
}

/// The letter a status is written as: `G` for an exact hit, `Y` for
/// present-elsewhere, `R` for absent, `X` for unknown.
pub open spec fn status_code(s: Status) -> char {
    match s {
        Status::GREEN => 'G',
        Status::YELLOW => 'Y',
        Status::RED => 'R',
        Status::UNKNOWN => 'X',
    }
}

/// One-letter text of a status.
fn status_char_str(st: Status) -> (r: &'static str)
    ensures
        r@.len() == 1,
        r@[0] == status_code(st),
{
    match st {
        Status::GREEN => {
            proof {
                reveal_strlit("G");
            }
            "G"
        },
        Status::YELLOW => {
            proof {
                reveal_strlit("Y");
            }
            "Y"
        },
        Status::RED => {
            proof {
                reveal_strlit("R");
            }
            "R"
        },
        Status::UNKNOWN => {
            proof {
                reveal_strlit("X");
            }
            "X"
        },
    }
}

/// The one-line text of a guess's per-position statuses, one letter each.
pub fn render_statuses(word_state: &[Status; WORD_LENGTH]) -> (s: String)
    ensures
        s@ == Seq::new(WORD_LENGTH as nat, |i: int| status_code(word_state@[i])),
{
    let mut s = String::new();
    let mut i: usize = 0;
    while i < WORD_LENGTH
        invariant
            i <= WORD_LENGTH,
            s@.len() == i as int,
            forall|j: int| 0 <= j < i ==> s@[j] == status_code(word_state@[j]),
        decreases WORD_LENGTH - i,
    {
        let piece = status_char_str(word_state[i]);
        s.append(piece);
        i = i + 1;
    }
    proof {
        assert(s@ =~= Seq::new(WORD_LENGTH as nat, |i: int| status_code(word_state@[i])));
    }
    s
}

/// The one-line text of the alphabet knowledge, one letter per key in
/// alphabet order.
pub fn render_alphabet(alphabet_state: &[Status; ALPHABET_SIZE]) -> (s: String)
    ensures
        s@ == Seq::new(ALPHABET_SIZE as nat, |i: int| status_code(alphabet_state@[i])),
{
    let mut s = String::new();
    let mut i: usize = 0;
    while i < ALPHABET_SIZE
        invariant
            i <= ALPHABET_SIZE,
            s@.len() == i as int,
            forall|j: int| 0 <= j < i ==> s@[j] == status_code(alphabet_state@[j]),
        decreases ALPHABET_SIZE - i,
    {
        let piece = status_char_str(alphabet_state[i]);
        s.append(piece);
        i = i + 1;
    }
    proof {
        assert(s@ =~= Seq::new(ALPHABET_SIZE as nat, |i: int| status_code(alphabet_state@[i])));
    }
    s
}

/// Decides whether a submitted word may be played: it must be in the
/// acceptable list and, in hard mode with a previous guess on record, obey
/// the hard-mode rules that the previous guess's result imposes.
pub fn is_valid(
    word: &String,
    difficult: bool,
    last_guessed_string: &Option<&String>,
    last_word_state: &Option<&[Status; WORD_LENGTH]>,
    acceptable_set: &Vec<String>,
) -> (r: bool)
    requires
        forall|i: int| 0 <= i < acceptable_set@.len() ==> wf_word(#[trigger] acceptable_set@[i]@),
        last_guessed_string matches Some(p) ==> wf_word(p@),
        last_guessed_string.is_some() == last_word_state.is_some(),
    ensures
        r == (list_contains_word(acceptable_set@, word@) && (match (
            *last_guessed_string,
            *last_word_state,
        ) {
            (Some(prev), Some(res)) => difficult ==> hard_legal(word@, prev@, res@),
            _ => true,
        })),
{
    if !contains_word(acceptable_set, word) {
        return false;
    }
    if !difficult {
        return true;
    }
    match (last_guessed_string, last_word_state) {
        (Some(prev), Some(res)) => {
            proof {
                let i = choose|i: int|
                    0 <= i < acceptable_set@.len() && acceptable_set@[i]@ == word@;
                assert(wf_word(acceptable_set@[i]@));
            }
            let mut res_vec: Vec<Status> = Vec::new();
            let mut i: usize = 0;
            while i < WORD_LENGTH
                invariant
                    i <= WORD_LENGTH,
                    res_vec@.len() == i as int,
                    forall|j: int| 0 <= j < i ==> res_vec@[j] == res@[j],
                decreases WORD_LENGTH - i,
            {
                res_vec.push(res[i]);
                i = i + 1;
            }
            proof {
                assert(res_vec@ =~= res@);
            }
            hard_mode_check(word.as_str(), prev.as_str(), &res_vec)
        },
        _ => true,
    }
}

} // verus!
