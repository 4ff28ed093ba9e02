//! The player's cross-round record: every word played, and per round the
//! attempts used and whether the round was won.

use vstd::prelude::*;

use super::common::Word;
use super::MAX_GUESS_NUM;
use crate::session::find_most_frequent_strings;
use crate::session::freq_le;
use crate::session::is_top_listing;
use crate::session::word_freq;

verus! {

/// How many of the listed statistics entries are shown.
pub const TOP_N: usize = 5;

/// The record of one player across the rounds of a session.
#[derive(Debug)]
pub struct Player {
    used_words: Vec<Word>,
    trys: Vec<(usize, bool)>,
}

/// How many of the first `n` recorded rounds were won.
pub open spec fn wins_upto(rec: Seq<(usize, bool)>, n: int) -> int
    decreases n,
{
    if n <= 0 {
        0
    } else {
        wins_upto(rec, n - 1) + if rec[n - 1].1 {
            1int
        } else {
            0int
        }
    }
}

/// Total attempts recorded over the first `n` rounds.
pub open spec fn tries_upto(rec: Seq<(usize, bool)>, n: int) -> int
    decreases n,
{
    if n <= 0 {
        0
    } else {
        tries_upto(rec, n - 1) + rec[n - 1].0
    }
}

impl Player {
    /// All words the player has submitted, in order.
    pub closed spec fn words(self) -> Seq<String> {
        self.used_words@
    }

    /// One entry per finished round: attempts used and whether it was won.
    pub closed spec fn records(self) -> Seq<(usize, bool)> {
        self.trys@
    }

    /// Every recorded attempt count fits in one round.
    pub open spec fn wf(self) -> bool {
        forall|i: int|
            0 <= i < self.records().len() ==> (#[trigger] self.records()[i]).0 <= MAX_GUESS_NUM
    }

    /// A fresh record.
    pub fn new() -> (r: Player)
        ensures
            r.words() == Seq::<String>::empty(),
            r.records() == Seq::<(usize, bool)>::empty(),
            r.wf(),
    {
        Player { used_words: Vec::new(), trys: Vec::new() }
    }

    /// Records one submitted word.
    pub fn recode_input(&mut self, w: Word)
        ensures
            final(self).words() == old(self).words().push(w),
            final(self).records() == old(self).records(),
    {
        self.used_words.push(w);
    }

    /// Records one finished round.
    pub fn evaluate(&mut self, cnt: usize, is_scuccess: bool)
        requires
            cnt <= MAX_GUESS_NUM,
        ensures
            final(self).records() == old(self).records().push((cnt, is_scuccess)),
            final(self).words() == old(self).words(),
            old(self).wf() ==> final(self).wf(),
    {
        self.trys.push((cnt, is_scuccess));
    }

    /// How many rounds are recorded.
    pub fn rounds_recorded(&self) -> (r: usize)
        ensures
            r == self.records().len(),
    {
        self.trys.len()
    }

    /// Wins, losses, and the sum of recorded attempt counts.  The average
    /// attempts per win is the last component divided by the first; the
    /// division is the caller's concern.
    pub fn analyse(&self) -> (r: (usize, usize, usize))
        requires
            self.wf(),
            self.records().len() * MAX_GUESS_NUM <= usize::MAX,
        ensures
            r.0 as int == wins_upto(self.records(), self.records().len() as int),
            r.1 as int == self.records().len() - wins_upto(
                self.records(),
                self.records().len() as int,
            ),
            r.2 as int == tries_upto(self.records(), self.records().len() as int),
    {
        let mut wins: usize = 0;
        let mut total: usize = 0;
        let mut i: usize = 0;
        while i < self.trys.len()
            invariant
                i <= self.records().len(),
                self.wf(),
                self.records().len() * MAX_GUESS_NUM <= usize::MAX,
                wins as int == wins_upto(self.records(), i as int),
                total as int == tries_upto(self.records(), i as int),
                wins <= i,
                total as int <= i as int * MAX_GUESS_NUM,
            decreases self.records().len() - i,
        {
            let (cnt, won) = self.trys[i];
            if won {
                wins = wins + 1;
            }
            proof {
                let ii = i as int;
                let nn = self.records().len() as int;
                let mm = MAX_GUESS_NUM as int;
                assert(ii * mm + mm <= nn * mm) by (nonlinear_arith)
                    requires
                        ii < nn,
                        mm > 0,
                ;
            }
            total = total + cnt;
            i = i + 1;
        }
        (wins, self.trys.len() - wins, total)
    }

    /// Evaluating the record twice yields identical counts: any two
    /// outcomes that both satisfy `analyse`'s contract agree.
    pub proof fn lemma_analyse_idempotent(
        self,
        r1: (usize, usize, usize),
        r2: (usize, usize, usize),
    )
        requires
            r1.0 as int == wins_upto(self.records(), self.records().len() as int),
            r1.1 as int == self.records().len() - wins_upto(
                self.records(),
                self.records().len() as int,
            ),
            r1.2 as int == tries_upto(self.records(), self.records().len() as int),
            r2.0 as int == wins_upto(self.records(), self.records().len() as int),
            r2.1 as int == self.records().len() - wins_upto(
                self.records(),
                self.records().len() as int,
            ),
            r2.2 as int == tries_upto(self.records(), self.records().len() as int),
        ensures
            r1 == r2,
    {
    }

    /// The `TOP_N` most frequently played words, each with its count,
    /// ordered by descending count and, among equal counts, by ascending
    /// spelling.
    pub fn show_most_used_words(&self) -> (r: Vec<(Word, usize)>)
        ensures
            r@.len() <= TOP_N,
            forall|i: int|
                0 <= i < r@.len() ==> (#[trigger] r@[i]).1 as int == word_freq(
                    self.words(),
                    r@[i].0@,
                    self.words().len() as int,
                ) && r@[i].1 >= 1,
            forall|i: int, j: int| 0 <= i < j < r@.len() ==> r@[i].0@ != r@[j].0@,
            forall|i: int, j: int|
                0 <= i < j < r@.len() ==> freq_le(
                    r@[i].0@,
                    r@[i].1 as int,
                    r@[j].0@,
                    r@[j].1 as int,
                ),
            is_top_listing(self.words(), TOP_N as int, r@),
    {
        find_most_frequent_strings(&self.used_words, TOP_N)
    }
}

} // verus!
