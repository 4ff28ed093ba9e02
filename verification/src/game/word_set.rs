//! The two word lists of a game: the candidate answers ("final" words) and
//! the words a player may submit ("acceptable" words).  The engine requires
//! every final word to be acceptable.

use vstd::prelude::*;
use vstd::seq_lib::group_to_multiset_ensures;

use super::common::Word;
use crate::engine::contains_word;
use crate::engine::list_contains_word;
use crate::errors::GameError;
use crate::model::wf_word;
use crate::session::check_subset;
use crate::session::distinct_words;
use crate::session::sort_words;
use crate::session::sorted_words;
use crate::session::validate_word_list;

verus! {

/// The word lists a game is configured with.
#[derive(Debug)]
pub struct WordSet {
    pub final_words: Vec<Word>,
    pub acceptable_words: Vec<Word>,
}

/// Every entry of `s1` also stands, by spelling, in `s2`.
pub open spec fn words_subset(s1: Seq<String>, s2: Seq<String>) -> bool {
    forall|i: int| 0 <= i < s1.len() ==> list_contains_word(s2, (#[trigger] s1[i])@)
}

/// Words of one list survive any permutation of the other: used to carry
/// membership facts across sorting and shuffling.
pub proof fn lemma_permutation_contains(s1: Seq<String>, s2: Seq<String>, i: int)
    requires
        s1.to_multiset() == s2.to_multiset(),
        0 <= i < s2.len(),
    ensures
        exists|j: int| 0 <= j < s1.len() && s1[j] == s2[i],
{
    broadcast use group_to_multiset_ensures;

    assert(s2.contains(s2[i]));
    assert(s1.to_multiset().count(s2[i]) > 0);
    assert(s1.contains(s2[i]));
}

/// A permutation keeps the subset relation, on both sides.
pub proof fn lemma_permutation_subset(a1: Seq<String>, a2: Seq<String>, b1: Seq<String>, b2: Seq<
    String,
>)
    requires
        a1.to_multiset() == a2.to_multiset(),
        b1.to_multiset() == b2.to_multiset(),
        words_subset(a1, b1),
    ensures
        words_subset(a2, b2),
{
    assert forall|i: int| 0 <= i < a2.len() implies list_contains_word(b2, (#[trigger] a2[i])@) by {
        lemma_permutation_contains(a1, a2, i);
        let j = choose|j: int| 0 <= j < a1.len() && a1[j] == a2[i];
        let k = choose|k: int| 0 <= k < b1.len() && b1[k]@ == a1[j]@;
        lemma_permutation_contains(b2, b1, k);
    }
}

/// A permutation keeps well-formedness of every word.
pub proof fn lemma_permutation_wf(s1: Seq<String>, s2: Seq<String>)
    requires
        s1.to_multiset() == s2.to_multiset(),
        forall|i: int| 0 <= i < s1.len() ==> wf_word((#[trigger] s1[i])@),
    ensures
        forall|i: int| 0 <= i < s2.len() ==> wf_word((#[trigger] s2[i])@),
{
    assert forall|i: int| 0 <= i < s2.len() implies wf_word((#[trigger] s2[i])@) by {
        lemma_permutation_contains(s1, s2, i);
    }
}

impl WordSet {
    /// The acceptable words.
    pub open spec fn acceptable(self) -> Seq<String> {
        self.acceptable_words@
    }

    /// A usable word set: every word well formed, no spelling repeated, and
    /// every candidate answer acceptable.
    pub open spec fn wf(self) -> bool {
        &&& forall|i: int| 0 <= i < self.final_words@.len() ==> wf_word((#[trigger] self.final_words@[i])@)
        &&& forall|i: int|
            0 <= i < self.acceptable().len() ==> wf_word((#[trigger] self.acceptable()[i])@)
        &&& words_subset(self.final_words@, self.acceptable())
    }

    /// Whether the word may be submitted as a guess.
    pub fn is_valid_guess(&self, w: &Word) -> (r: bool)
        ensures
            r == list_contains_word(self.acceptable(), w@),
    {
        contains_word(&self.acceptable_words, w)
    }

    /// Builds the word set from the two lists the surrounding program loaded.
    /// Each list must hold only well-formed, pairwise distinct words and the
    /// final words must all be acceptable; any violation is a fatal
    /// configuration error.  Both lists are kept in lexicographic order.
    pub fn new(final_words: Vec<Word>, acceptable_words: Vec<Word>) -> (r: Result<
        WordSet,
        GameError,
    >)
        ensures
            (r matches Ok(_)) <==> ((forall|i: int|
                0 <= i < final_words@.len() ==> wf_word((#[trigger] final_words@[i])@)) && (forall|
                i: int,
            |
                0 <= i < acceptable_words@.len() ==> wf_word((#[trigger] acceptable_words@[i])@))
                && distinct_words(final_words@) && distinct_words(acceptable_words@)
                && words_subset(final_words@, acceptable_words@)),
            r matches Ok(ws) ==> ws.wf() && ws.final_words@.to_multiset()
                == final_words@.to_multiset() && ws.acceptable().to_multiset()
                == acceptable_words@.to_multiset() && sorted_words(ws.final_words@)
                && sorted_words(ws.acceptable()),
            r matches Err(e) ==> e == GameError::Configuration,
    {
        if let Err(e) = validate_word_list(&final_words) {
            return Err(e);
        }
        if let Err(e) = validate_word_list(&acceptable_words) {
            return Err(e);
        }
        if !check_subset(&final_words, &acceptable_words) {
            return Err(GameError::Configuration);
        }
        let ghost fin0 = final_words@;
        let ghost acc0 = acceptable_words@;
        let mut fin = final_words;
        let mut acc = acceptable_words;
        sort_words(&mut fin);
        sort_words(&mut acc);
        proof {
            lemma_permutation_wf(fin0, fin@);
            lemma_permutation_wf(acc0, acc@);
            lemma_permutation_subset(fin0, fin@, acc0, acc@);
        }
        Ok(WordSet { final_words: fin, acceptable_words: acc })
    }
}

} // verus!
