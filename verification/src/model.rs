//! The mathematical model of the guess-evaluation engine: well-formed words,
//! letter counting, the two-pass exact-then-partial classification of a guess
//! against an answer, and the monotonic upgrade of per-letter knowledge.

use vstd::prelude::*;

use crate::status::Status;

verus! {

/// Length of every word in the game.
pub const WORD_LENGTH: usize = 5;

/// Number of letters in the alphabet the words are drawn from.
pub const ALPHABET_SIZE: usize = 26;

/// An uppercase letter of the restricted alphabet.
pub open spec fn is_upper_char(c: char) -> bool {
    'A' as u32 <= c as u32 && c as u32 <= 'Z' as u32
}

/// Index of an uppercase letter in the alphabet, from 0 for `'A'`
/// to 25 for `'Z'`.
pub open spec fn letter_index(c: char) -> int {
    c as u32 - 'A' as u32
}

/// A well-formed word: exactly `WORD_LENGTH` uppercase letters.
pub open spec fn wf_word(s: Seq<char>) -> bool {
    &&& s.len() == WORD_LENGTH
    &&& forall|i: int| 0 <= i < s.len() ==> is_upper_char(#[trigger] s[i])
}

/// How many of the first `n` positions of `s` hold the letter `c`.
pub open spec fn count_upto(s: Seq<char>, c: char, n: int) -> int
    decreases n,
{
    if n <= 0 {
        0
    } else {
        count_upto(s, c, n - 1) + if s[n - 1] == c {
            1int
        } else {
            0int
        }
    }
}

/// How many of the first `n` positions are exact matches holding the
/// letter `c`.
pub open spec fn exacts_upto(g: Seq<char>, a: Seq<char>, c: char, n: int) -> int
    decreases n,
{
    if n <= 0 {
        0
    } else {
        exacts_upto(g, a, c, n - 1) + if g[n - 1] == c && g[n - 1] == a[n - 1] {
            1int
        } else {
            0int
        }
    }
}

/// How many of the first `n` positions hold the letter `c` without being
/// exact matches.
pub open spec fn misses_upto(g: Seq<char>, a: Seq<char>, c: char, n: int) -> int
    decreases n,
{
    if n <= 0 {
        0
    } else {
        misses_upto(g, a, c, n - 1) + if g[n - 1] == c && g[n - 1] != a[n - 1] {
            1int
        } else {
            0int
        }
    }
}

/// After all exact matches of the letter `c` have consumed their occurrences
/// in the answer, this many occurrences are left over for positions of `c`
/// that sit at the wrong place.
pub open spec fn partial_budget(g: Seq<char>, a: Seq<char>, c: char) -> int {
    count_upto(a, c, a.len() as int) - exacts_upto(g, a, c, g.len() as int)
}

/// The status the two-pass classification assigns to position `i`: exact
/// matches are marked first and consume their letter's occurrences in the
/// answer; the remaining positions are then marked left to right, each one
/// present-elsewhere while its letter's budget lasts and absent afterwards.
pub open spec fn classify_at(g: Seq<char>, a: Seq<char>, i: int) -> Status {
    if g[i] == a[i] {
        Status::GREEN
    } else if misses_upto(g, a, g[i], i) < partial_budget(g, a, g[i]) {
        Status::YELLOW
    } else {
        Status::RED
    }
}

/// The full guess result: one status per position of the guess.
pub open spec fn classify_spec(g: Seq<char>, a: Seq<char>) -> Seq<Status> {
    Seq::new(g.len(), |i: int| classify_at(g, a, i))
}

/// Per-letter knowledge after folding the statuses of one guess result into
/// the knowledge map `alpha`, position by position: the entry of each
/// guessed letter is joined with the status the guess earned there.
pub open spec fn upgrade_alpha(alpha: Seq<Status>, g: Seq<char>, r: Seq<Status>, n: int) -> Seq<
    Status,
>
    decreases n,
{
    if n <= 0 {
        alpha
    } else {
        let prev = upgrade_alpha(alpha, g, r, n - 1);
        let k = letter_index(g[n - 1]);
        prev.update(k, prev[k].spec_join(r[n - 1]))
    }
}

/// How many of the first `n` positions hold the letter `c` and are marked
/// `GREEN` or `YELLOW` by the classification.
pub open spec fn hits_upto(g: Seq<char>, a: Seq<char>, c: char, n: int) -> int
    decreases n,
{
    if n <= 0 {
        0
    } else {
        hits_upto(g, a, c, n - 1) + if g[n - 1] == c && (classify_at(g, a, n - 1) == Status::GREEN
            || classify_at(g, a, n - 1) == Status::YELLOW) {
            1int
        } else {
            0int
        }
    }
}

/// How many of the first `n` positions hold the letter `c` and are marked
/// `YELLOW` by the classification.
pub open spec fn yellows_upto(g: Seq<char>, a: Seq<char>, c: char, n: int) -> int
    decreases n,
{
    if n <= 0 {
        0
    } else {
        yellows_upto(g, a, c, n - 1) + if g[n - 1] == c && classify_at(g, a, n - 1)
            == Status::YELLOW {
            1int
        } else {
            0int
        }
    }
}

/// Every exact match of the letter `c` is also an occurrence of `c` in the
/// answer, so the exact matches can never outnumber the answer's occurrences.
pub proof fn lemma_exacts_le_count(g: Seq<char>, a: Seq<char>, c: char, n: int)
    ensures
        exacts_upto(g, a, c, n) <= count_upto(a, c, n),
    decreases n,
{
    if n > 0 {
        lemma_exacts_le_count(g, a, c, n - 1);
    }
}

/// Letter counts are non-negative and bounded by the prefix length.
pub proof fn lemma_count_bounds(s: Seq<char>, c: char, n: int)
    ensures
        0 <= count_upto(s, c, n) <= if n <= 0 {
            0int
        } else {
            n
        },
    decreases n,
{
    if n > 0 {
        lemma_count_bounds(s, c, n - 1);
    }
}

/// Non-exact occurrence counts are non-negative.
pub proof fn lemma_misses_nonneg(g: Seq<char>, a: Seq<char>, c: char, n: int)
    ensures
        misses_upto(g, a, c, n) >= 0,
    decreases n,
{
    if n > 0 {
        lemma_misses_nonneg(g, a, c, n - 1);
    }
}

/// Every position of the letter `c` is either an exact match or a non-exact
/// occurrence, so the two counts split the plain letter count.
pub proof fn lemma_count_split(g: Seq<char>, a: Seq<char>, c: char, n: int)
    ensures
        count_upto(g, c, n) == exacts_upto(g, a, c, n) + misses_upto(g, a, c, n),
    decreases n,
{
    if n > 0 {
        lemma_count_split(g, a, c, n - 1);
    }
}

/// Walking the non-exact positions of the letter `c` left to right, the
/// classification marks each one `YELLOW` while the budget lasts, so the
/// yellow count is the smaller of the non-exact count and the budget.
pub proof fn lemma_yellows_meet_budget(g: Seq<char>, a: Seq<char>, c: char, n: int)
    requires
        partial_budget(g, a, c) >= 0,
    ensures
        yellows_upto(g, a, c, n) == if misses_upto(g, a, c, n) <= partial_budget(g, a, c) {
            misses_upto(g, a, c, n)
        } else {
            partial_budget(g, a, c)
        },
    decreases n,
{
    if n > 0 {
        lemma_yellows_meet_budget(g, a, c, n - 1);
        lemma_misses_nonneg(g, a, c, n - 1);
    }
}

/// A position is marked `GREEN` or `YELLOW` exactly when it is an exact
/// match or a yellow-marked non-exact occurrence, so the hit count is the
/// sum of the two.
pub proof fn lemma_hits_split(g: Seq<char>, a: Seq<char>, c: char, n: int)
    ensures
        hits_upto(g, a, c, n) == exacts_upto(g, a, c, n) + yellows_upto(g, a, c, n),
    decreases n,
{
    if n > 0 {
        lemma_hits_split(g, a, c, n - 1);
    }
}

/// The classification assigns each letter `c` exactly
/// `min(count(c, guess), count(c, answer))` positions marked `GREEN` or
/// `YELLOW`, and marks a position `GREEN` exactly when guess and answer
/// agree there.
pub proof fn lemma_classify_letter_counts(g: Seq<char>, a: Seq<char>, c: char)
    requires
        g.len() == a.len(),
    ensures
        hits_upto(g, a, c, g.len() as int) == if count_upto(g, c, g.len() as int) <= count_upto(
            a,
            c,
            a.len() as int,
        ) {
            count_upto(g, c, g.len() as int)
        } else {
            count_upto(a, c, a.len() as int)
        },
        forall|i: int|
            0 <= i < g.len() ==> (classify_at(g, a, i) == Status::GREEN <==> g[i] == a[i]),
{
    let n = g.len() as int;
    lemma_exacts_le_count(g, a, c, n);
    lemma_count_split(g, a, c, n);
    lemma_hits_split(g, a, c, n);
    lemma_yellows_meet_budget(g, a, c, n);
    lemma_misses_nonneg(g, a, c, n);
}

/// How many of the first `n` positions of the previous guess hold the letter
/// `c` and were marked `YELLOW` in its result.
pub open spec fn yellow_marks_upto(prev: Seq<char>, res: Seq<Status>, c: char, n: int) -> int
    decreases n,
{
    if n <= 0 {
        0
    } else {
        yellow_marks_upto(prev, res, c, n - 1) + if prev[n - 1] == c && res[n - 1]
            == Status::YELLOW {
            1int
        } else {
            0int
        }
    }
}

/// Hard-mode rule one: wherever the previous guess was marked `GREEN`, the
/// candidate must keep that letter in place.
pub open spec fn exact_locks_respected(cand: Seq<char>, prev: Seq<char>, res: Seq<Status>) -> bool {
    forall|i: int| 0 <= i < res.len() && res[i] == Status::GREEN ==> cand[i] == prev[i]
}

/// Hard-mode rule two: every letter marked `YELLOW` in the previous guess
/// must occur in the candidate at least as often as it was marked.
pub open spec fn yellow_counts_respected(cand: Seq<char>, prev: Seq<char>, res: Seq<
    Status,
>) -> bool {
    forall|i: int|
        0 <= i < res.len() && res[i] == Status::YELLOW ==> yellow_marks_upto(
            prev,
            res,
            #[trigger] prev[i],
            res.len() as int,
        ) <= count_upto(cand, prev[i], cand.len() as int)
}

/// A candidate is legal in hard mode when it respects both the exact locks
/// and the minimum occurrence counts taken from the previous guess's result.
pub open spec fn hard_legal(cand: Seq<char>, prev: Seq<char>, res: Seq<Status>) -> bool {
    exact_locks_respected(cand, prev, res) && yellow_counts_respected(cand, prev, res)
}

/// Yellow marks of a letter are a subset of its occurrences, so their count
/// never exceeds the plain letter count.
pub proof fn lemma_yellow_marks_le_count(prev: Seq<char>, res: Seq<Status>, c: char, n: int)
    ensures
        yellow_marks_upto(prev, res, c, n) <= count_upto(prev, c, n),
    decreases n,
{
    if n > 0 {
        lemma_yellow_marks_le_count(prev, res, c, n - 1);
    }
}

/// The hard-mode check is reflexive-safe: a previous guess, resubmitted, is
/// always legal against its own result.
pub proof fn lemma_hard_legal_reflexive(prev: Seq<char>, res: Seq<Status>)
    requires
        res.len() == prev.len(),
    ensures
        hard_legal(prev, prev, res),
{
    assert forall|i: int|
        0 <= i < res.len() && res[i] == Status::YELLOW implies yellow_marks_upto(
        prev,
        res,
        #[trigger] prev[i],
        res.len() as int,
    ) <= count_upto(prev, prev[i], prev.len() as int) by {
        lemma_yellow_marks_le_count(prev, res, prev[i], prev.len() as int);
    }
}

/// An exact lock is enforced: a candidate that changes a letter the previous
/// result marked `GREEN` is never legal in hard mode.
pub proof fn lemma_exact_lock_enforced(
    cand: Seq<char>,
    prev: Seq<char>,
    res: Seq<Status>,
    i: int,
)
    requires
        0 <= i < res.len(),
        res[i] == Status::GREEN,
        cand[i] != prev[i],
    ensures
        !hard_legal(cand, prev, res),
{
}

/// Folding a guess result into a knowledge map never loses information:
/// every letter's entry ranks at least as high afterwards.
pub proof fn lemma_upgrade_alpha_monotone(alpha: Seq<Status>, g: Seq<char>, r: Seq<Status>, n: int)
    requires
        forall|i: int| 0 <= i < n ==> 0 <= letter_index(#[trigger] g[i]) < alpha.len(),
    ensures
        upgrade_alpha(alpha, g, r, n).len() == alpha.len(),
        forall|k: int|
            0 <= k < alpha.len() ==> (#[trigger] upgrade_alpha(alpha, g, r, n)[k]).rank()
                >= alpha[k].rank(),
    decreases n,
{
    if n > 0 {
        lemma_upgrade_alpha_monotone(alpha, g, r, n - 1);
    }
}

} // verus!
