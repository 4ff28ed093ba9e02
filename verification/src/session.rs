//! Session-level services: deterministic seeded answer selection, word-list
//! validation and ordering, and the guess-frequency statistics that span
//! rounds.

use vstd::prelude::*;
use vstd::seq_lib::group_to_multiset_ensures;
use vstd::string::StrSliceExecFns;

use rand::seq::SliceRandom;
use rand::SeedableRng;

use crate::engine::contains_word;
use crate::engine::list_contains_word;
use crate::errors::GameError;
use crate::model::wf_word;

verus! {

/// Lexicographic order on character sequences: the shorter sequence wins a
/// tie, otherwise the first differing character decides by code point.
pub open spec fn lex_le(a: Seq<char>, b: Seq<char>) -> bool
    decreases a.len(),
{
    if a.len() == 0 {
        true
    } else if b.len() == 0 {
        false
    } else if a[0] != b[0] {
        (a[0] as u32) < (b[0] as u32)
    } else {
        lex_le(a.drop_first(), b.drop_first())
    }
}

/// Any two character sequences are comparable under `lex_le`.
pub proof fn lemma_lex_le_total(a: Seq<char>, b: Seq<char>)
    ensures
        lex_le(a, b) || lex_le(b, a),
    decreases a.len(),
{
    if a.len() > 0 && b.len() > 0 {
        if a[0] == b[0] {
            lemma_lex_le_total(a.drop_first(), b.drop_first());
        } else {
            vstd::utf8::char_u32_cast(a[0], a[0] as u32);
            vstd::utf8::char_u32_cast(b[0], b[0] as u32);
        }
    }
}

/// `lex_le` is reflexive.
pub proof fn lemma_lex_le_refl(a: Seq<char>)
    ensures
        lex_le(a, a),
    decreases a.len(),
{
    if a.len() > 0 {
        lemma_lex_le_refl(a.drop_first());
    }
}

/// `lex_le` is transitive.
pub proof fn lemma_lex_le_trans(a: Seq<char>, b: Seq<char>, c: Seq<char>)
    requires
        lex_le(a, b),
        lex_le(b, c),
    ensures
        lex_le(a, c),
    decreases a.len(),
{
    if a.len() > 0 && b.len() > 0 && c.len() > 0 && a[0] == b[0] && b[0] == c[0] {
        lemma_lex_le_trans(a.drop_first(), b.drop_first(), c.drop_first());
    }
}

/// Executable form of `lex_le`, comparing character by character.
pub fn str_lex_le(a: &str, b: &str) -> (r: bool)
    ensures
        r == lex_le(a@, b@),
{
    let a_len = a.unicode_len();
    let b_len = b.unicode_len();
    proof {
        assert(a@.skip(0) =~= a@);
        assert(b@.skip(0) =~= b@);
    }
    let mut i: usize = 0;
    while i < a_len && i < b_len
        invariant
            i <= a_len,
            i <= b_len,
            a_len == a@.len(),
            b_len == b@.len(),
            lex_le(a@, b@) == lex_le(a@.skip(i as int), b@.skip(i as int)),
        decreases a_len - i,
    {
        let ca = a.get_char(i);
        let cb = b.get_char(i);
        if ca != cb {
            proof {
                vstd::utf8::char_u32_cast(ca, ca as u32);
                vstd::utf8::char_u32_cast(cb, cb as u32);
            }
            return (ca as u32) < (cb as u32);
        }
        proof {
            assert(a@.skip(i as int).drop_first() =~= a@.skip(i + 1));
            assert(b@.skip(i as int).drop_first() =~= b@.skip(i + 1));
        }
        i = i + 1;
    }
    i >= a_len
}

/// All entries of a word list spell differently.
pub open spec fn distinct_words(s: Seq<String>) -> bool {
    forall|i: int, j: int| 0 <= i < j < s.len() ==> s[i]@ != s[j]@
}

/// A word list in lexicographic order.
pub open spec fn sorted_words(s: Seq<String>) -> bool {
    forall|i: int, j: int| 0 <= i < j < s.len() ==> lex_le(s[i]@, s[j]@)
}

/// The permutation that a Fisher-Yates shuffle driven by a generator seeded
/// with `seed` applies to `words`; a function of the seed and the list alone.
pub uninterp spec fn shuffled_of(seed: u64, words: Seq<String>) -> Seq<String>;

/// Relies on `rand::rngs::StdRng::seed_from_u64` and
/// `rand::seq::SliceRandom::shuffle`: the generator is a pure function of the
/// seed and the shuffle is a Fisher-Yates pass driven by it alone, so the
/// reordering is a permutation of the input determined by the seed.
#[verifier::external_body]
pub(crate) fn shuffle_seeded(words: &mut Vec<String>, seed: u64)
    ensures
        final(words)@ == shuffled_of(seed, old(words)@),
        final(words)@.to_multiset() == old(words)@.to_multiset(),
{
    let mut rng = rand::rngs::StdRng::seed_from_u64(seed);
    words.shuffle(&mut rng);
}

/// An element-for-element copy of a word list.
pub fn clone_words(v: &Vec<String>) -> (r: Vec<String>)
    ensures
        r@ == v@,
{
    let mut r: Vec<String> = Vec::new();
    let mut i: usize = 0;
    while i < v.len()
        invariant
            i <= v@.len(),
            r@.len() == i as int,
            forall|j: int| 0 <= j < i ==> r@[j] == v@[j],
        decreases v@.len() - i,
    {
        r.push(v[i].clone());
        i = i + 1;
    }
    proof {
        assert(r@ =~= v@);
    }
    r
}

/// Picks the answer for a seeded-random round: the candidate list is
/// shuffled deterministically by the seed and the `(day + bias)`-th entry of
/// the shuffled order, counted from one, is the answer.  The same seed, day
/// and bias against the same list always select the same word.
pub fn pick_answer(final_words: &Vec<String>, seed: u64, day: usize, bias: usize) -> (r: String)
    requires
        1 <= day + bias,
        day + bias - 1 < final_words@.len(),
    ensures
        r == shuffled_of(seed, final_words@)[day + bias - 1],
        exists|j: int| 0 <= j < final_words@.len() && final_words@[j] == r,
{
    let mut shuffled = clone_words(final_words);
    shuffle_seeded(&mut shuffled, seed);
    proof {
        broadcast use group_to_multiset_ensures;

        assert(shuffled@.len() == shuffled@.to_multiset().len());
        assert(final_words@.len() == final_words@.to_multiset().len());
    }
    // Reading the length pins it as a machine integer, so the index
    // arithmetic below cannot overflow.
    let _list_len = final_words.len();
    let idx = day + bias - 1;
    let r = shuffled[idx].clone();
    proof {
        broadcast use group_to_multiset_ensures;

        assert(shuffled@.contains(shuffled@[idx as int]));
        assert(shuffled@.to_multiset().count(shuffled@[idx as int]) > 0);
        assert(final_words@.contains(shuffled@[idx as int]));
    }
    r
}

/// `lex_le` is antisymmetric: two sequences that each precede the other are
/// equal.
pub proof fn lemma_lex_le_antisym(a: Seq<char>, b: Seq<char>)
    requires
        lex_le(a, b),
        lex_le(b, a),
    ensures
        a == b,
    decreases a.len(),
{
    if a.len() == 0 {
        assert(b.len() == 0);
        assert(a =~= b);
    } else {
        assert(b.len() > 0);
        if a[0] == b[0] {
            lemma_lex_le_antisym(a.drop_first(), b.drop_first());
            assert(a.drop_first().len() == b.drop_first().len());
            assert(a.len() == b.len());
            assert forall|i: int| 0 <= i < a.len() implies a[i] == b[i] by {
                if i > 0 {
                    assert(a.drop_first()[i - 1] == b.drop_first()[i - 1]);
                }
            }
            assert(a =~= b);
        }
    }
}

/// A word counted at least once occurs in the list.
pub proof fn lemma_word_freq_witness(ws: Seq<String>, w: Seq<char>, m: int)
    requires
        word_freq(ws, w, m) >= 1,
    ensures
        exists|k: int| 0 <= k < m && (#[trigger] ws[k])@ == w,
    decreases m,
{
    if m > 0 {
        if ws[m - 1]@ == w {
            assert(0 <= m - 1 < m && ws[m - 1]@ == w);
        } else {
            lemma_word_freq_witness(ws, w, m - 1);
        }
    }
}

/// Everything the frequency statistics promise of a listing over `ws`,
/// bundled: at most `n` entries, each with the true count of its word and at
/// least one occurrence, no word listed twice, ordered by the frequency
/// order, and no word of the list left out unless the listing is full of
/// entries that rank no later.
pub open spec fn is_top_listing(ws: Seq<String>, n: int, r: Seq<(String, usize)>) -> bool {
    &&& r.len() <= n
    &&& forall|i: int|
        0 <= i < r.len() ==> (#[trigger] r[i]).1 as int == word_freq(ws, r[i].0@, ws.len() as int)
            && r[i].1 >= 1
    &&& forall|i: int, j: int| 0 <= i < j < r.len() ==> r[i].0@ != r[j].0@
    &&& forall|i: int, j: int|
        0 <= i < j < r.len() ==> freq_le(r[i].0@, r[i].1 as int, r[j].0@, r[j].1 as int)
    &&& forall|k: int|
        0 <= k < ws.len() && !entries_have_word(r, (#[trigger] ws[k])@) ==> r.len() == n && (n == 0
            || freq_le(
            r[r.len() - 1].0@,
            r[r.len() - 1].1 as int,
            ws[k]@,
            word_freq(ws, ws[k]@, ws.len() as int),
        ))
}

/// Two listings that agree on their first `i` entries and both have an
/// `i`-th entry agree there too.
proof fn lemma_top_listing_entry(
    ws: Seq<String>,
    n: int,
    r1: Seq<(String, usize)>,
    r2: Seq<(String, usize)>,
    i: int,
)
    requires
        is_top_listing(ws, n, r1),
        is_top_listing(ws, n, r2),
        0 <= i < r1.len(),
        i < r2.len(),
        forall|j: int| 0 <= j < i ==> (#[trigger] r1[j]).0@ == r2[j].0@ && r1[j].1 == r2[j].1,
    ensures
        r1[i].0@ == r2[i].0@,
        r1[i].1 == r2[i].1,
{
    let w1 = r1[i].0@;
    let c1 = r1[i].1 as int;
    let w2 = r2[i].0@;
    let c2 = r2[i].1 as int;
    lemma_one_way(ws, n, r1, r2, i);
    lemma_one_way(ws, n, r2, r1, i);
    if c1 == c2 {
        lemma_lex_le_antisym(w1, w2);
    }
}

/// One direction of the entry comparison: the `i`-th entry of `r2` ranks no
/// later than the `i`-th entry of `r1`.
proof fn lemma_one_way(
    ws: Seq<String>,
    n: int,
    r1: Seq<(String, usize)>,
    r2: Seq<(String, usize)>,
    i: int,
)
    requires
        is_top_listing(ws, n, r1),
        is_top_listing(ws, n, r2),
        0 <= i < r1.len(),
        i < r2.len(),
        forall|j: int| 0 <= j < i ==> (#[trigger] r1[j]).0@ == r2[j].0@ && r1[j].1 == r2[j].1,
    ensures
        freq_le(r2[i].0@, r2[i].1 as int, r1[i].0@, r1[i].1 as int),
{
    let w1 = r1[i].0@;
    let c1 = r1[i].1 as int;
    if entries_have_word(r2, w1) {
        let q = choose|q: int| 0 <= q < r2.len() && (#[trigger] r2[q]).0@ == w1;
        assert(q >= i) by {
            if q < i {
                assert(r1[q].0@ == r2[q].0@);
            }
        }
        if q == i {
            lemma_lex_le_refl(w1);
            assert(c1 == word_freq(ws, w1, ws.len() as int));
            assert(r2[i].1 as int == word_freq(ws, w1, ws.len() as int));
        } else {
            assert(freq_le(r2[i].0@, r2[i].1 as int, r2[q].0@, r2[q].1 as int));
            assert(r2[q].1 as int == word_freq(ws, w1, ws.len() as int));
            assert(c1 == word_freq(ws, w1, ws.len() as int));
        }
    } else {
        assert(c1 == word_freq(ws, w1, ws.len() as int) && c1 >= 1);
        lemma_word_freq_witness(ws, w1, ws.len() as int);
        let k = choose|k: int| 0 <= k < ws.len() && (#[trigger] ws[k])@ == w1;
        assert(r2.len() == n && (n == 0 || freq_le(
            r2[r2.len() - 1].0@,
            r2[r2.len() - 1].1 as int,
            ws[k]@,
            word_freq(ws, ws[k]@, ws.len() as int),
        )));
        if i < r2.len() - 1 {
            assert(freq_le(
                r2[i].0@,
                r2[i].1 as int,
                r2[r2.len() - 1].0@,
                r2[r2.len() - 1].1 as int,
            ));
            lemma_freq_le_trans(
                r2[i].0@,
                r2[i].1 as int,
                r2[r2.len() - 1].0@,
                r2[r2.len() - 1].1 as int,
                w1,
                c1,
            );
        }
    }
}

/// Walks two listings from position `i` on: they agree entry for entry and
/// end together.
proof fn lemma_top_listing_walk(
    ws: Seq<String>,
    n: int,
    r1: Seq<(String, usize)>,
    r2: Seq<(String, usize)>,
    i: int,
)
    requires
        is_top_listing(ws, n, r1),
        is_top_listing(ws, n, r2),
        0 <= i <= r1.len(),
        i <= r2.len(),
        forall|j: int| 0 <= j < i ==> (#[trigger] r1[j]).0@ == r2[j].0@ && r1[j].1 == r2[j].1,
    ensures
        r1.len() == r2.len(),
        forall|j: int|
            0 <= j < r1.len() ==> (#[trigger] r1[j]).0@ == r2[j].0@ && r1[j].1 == r2[j].1,
    decreases r1.len() - i,
{
    if i < r1.len() && i < r2.len() {
        lemma_top_listing_entry(ws, n, r1, r2, i);
        lemma_top_listing_walk(ws, n, r1, r2, i + 1);
    } else if i == r1.len() && i < r2.len() {
        lemma_length_bound(ws, n, r1, r2, i);
    } else if i == r2.len() && i < r1.len() {
        assert forall|j: int| 0 <= j < i implies (#[trigger] r2[j]).0@ == r1[j].0@ && r2[j].1
            == r1[j].1 by {
            assert(r1[j].0@ == r2[j].0@ && r1[j].1 == r2[j].1);
        }
        lemma_length_bound(ws, n, r2, r1, i);
    }
}

/// A listing that matches another entry for entry cannot go on where the
/// other ends: the shorter one would then be full, and neither may exceed
/// `n` entries.
proof fn lemma_length_bound(
    ws: Seq<String>,
    n: int,
    r1: Seq<(String, usize)>,
    r2: Seq<(String, usize)>,
    i: int,
)
    requires
        is_top_listing(ws, n, r1),
        is_top_listing(ws, n, r2),
        i == r1.len(),
        i <= r2.len(),
        forall|j: int| 0 <= j < i ==> (#[trigger] r1[j]).0@ == r2[j].0@ && r1[j].1 == r2[j].1,
    ensures
        r2.len() <= r1.len(),
{
    if i < r2.len() {
        let w = r2[i].0@;
        assert(r2[i].1 as int == word_freq(ws, w, ws.len() as int) && r2[i].1 >= 1);
        lemma_word_freq_witness(ws, w, ws.len() as int);
        let k = choose|k: int| 0 <= k < ws.len() && (#[trigger] ws[k])@ == w;
        assert(!entries_have_word(r1, ws[k]@)) by {
            if entries_have_word(r1, ws[k]@) {
                let q = choose|q: int| 0 <= q < r1.len() && (#[trigger] r1[q]).0@ == ws[k]@;
                assert(r2[q].0@ == r1[q].0@);
                assert(r2[q].0@ == r2[i as int].0@ && q < i);
            }
        }
        assert(r1.len() == n);
        assert(r2.len() <= n);
    }
}

/// A top listing over a word list is unique: any two listings that both
/// satisfy the statistics' contract spell the same words with the same
/// counts in the same order.  Recomputing the most-used-words statistics on
/// an unchanged history therefore yields identical output.
pub proof fn lemma_top_listing_unique(
    ws: Seq<String>,
    n: int,
    r1: Seq<(String, usize)>,
    r2: Seq<(String, usize)>,
)
    requires
        is_top_listing(ws, n, r1),
        is_top_listing(ws, n, r2),
    ensures
        r1.len() == r2.len(),
        forall|j: int|
            0 <= j < r1.len() ==> (#[trigger] r1[j]).0@ == r2[j].0@ && r1[j].1 == r2[j].1,
{
    lemma_top_listing_walk(ws, n, r1, r2, 0);
}

/// Seeded answer selection is deterministic: the same seed, day and bias
/// against the same candidate list always select the same answer.
pub proof fn lemma_pick_answer_deterministic(
    final_words: Seq<String>,
    seed: u64,
    day: usize,
    bias: usize,
    r1: String,
    r2: String,
)
    requires
        r1 == shuffled_of(seed, final_words)[day + bias - 1],
        r2 == shuffled_of(seed, final_words)[day + bias - 1],
    ensures
        r1 == r2,
{
}

/// Checks a word list handed in by the surrounding program: every entry must
/// be a playable word and no entry may repeat.  A violation is a fatal
/// configuration error.
pub fn validate_word_list(words: &Vec<String>) -> (r: Result<(), GameError>)
    ensures
        (r matches Ok(_)) <==> ((forall|i: int|
            0 <= i < words@.len() ==> wf_word(#[trigger] words@[i]@)) && distinct_words(words@)),
        r matches Err(e) ==> e == GameError::Configuration,
{
    let mut i: usize = 0;
    while i < words.len()
        invariant
            i <= words@.len(),
            forall|j: int| 0 <= j < i ==> wf_word(#[trigger] words@[j]@),
        decreases words@.len() - i,
    {
        if !crate::engine::is_word(&words[i]) {
            return Err(GameError::Configuration);
        }
        i = i + 1;
    }
    let mut i: usize = 0;
    while i < words.len()
        invariant
            i <= words@.len(),
            forall|k: int, j: int| 0 <= k < j < i ==> words@[k]@ != words@[j]@,
        decreases words@.len() - i,
    {
        let mut j: usize = 0;
        while j < i
            invariant
                j <= i < words@.len(),
                forall|k: int| 0 <= k < j ==> words@[k]@ != words@[i as int]@,
                forall|k: int, l: int| 0 <= k < l < i ==> words@[k]@ != words@[l]@,
            decreases i - j,
        {
            if words[j].eq(&words[i]) {
                return Err(GameError::Configuration);
            }
            j = j + 1;
        }
        i = i + 1;
    }
    Ok(())
}

/// Whether every word of `subset` also stands in `superset`; the engine
/// requires this of the final and acceptable lists before any round starts.
pub fn check_subset(subset: &Vec<String>, superset: &Vec<String>) -> (r: bool)
    ensures
        r == forall|i: int|
            0 <= i < subset@.len() ==> list_contains_word(superset@, #[trigger] subset@[i]@),
{
    let mut i: usize = 0;
    while i < subset.len()
        invariant
            i <= subset@.len(),
            forall|j: int| 0 <= j < i ==> list_contains_word(superset@, #[trigger] subset@[j]@),
        decreases subset@.len() - i,
    {
        if !contains_word(superset, &subset[i]) {
            return false;
        }
        i = i + 1;
    }
    true
}

/// Index of a lexicographically least entry among the first `len` entries.
fn min_word_index(v: &Vec<String>) -> (m: usize)
    requires
        v@.len() > 0,
    ensures
        m < v@.len(),
        forall|j: int| 0 <= j < v@.len() ==> lex_le(v@[m as int]@, #[trigger] v@[j]@),
{
    let mut m: usize = 0;
    let mut j: usize = 1;
    proof {
        lemma_lex_le_refl(v@[0]@);
    }
    while j < v.len()
        invariant
            m < j <= v@.len(),
            forall|k: int| 0 <= k < j ==> lex_le(v@[m as int]@, #[trigger] v@[k]@),
        decreases v@.len() - j,
    {
        if !str_lex_le(v[m].as_str(), v[j].as_str()) {
            proof {
                lemma_lex_le_total(v@[m as int]@, v@[j as int]@);
                lemma_lex_le_refl(v@[j as int]@);
                assert forall|k: int| 0 <= k < j implies lex_le(
                    v@[j as int]@,
                    #[trigger] v@[k]@,
                ) by {
                    lemma_lex_le_trans(v@[j as int]@, v@[m as int]@, v@[k]@);
                }
            }
            m = j;
        }
        j = j + 1;
    }
    m
}

/// Sorts a word list lexicographically; the result is a permutation of the
/// input.
pub fn sort_words(v: &mut Vec<String>)
    ensures
        final(v)@.to_multiset() == old(v)@.to_multiset(),
        sorted_words(final(v)@),
{
    let mut rest = Vec::new();
    core::mem::swap(v, &mut rest);
    let mut out: Vec<String> = Vec::new();
    proof {
        broadcast use group_to_multiset_ensures;
        broadcast use vstd::multiset::group_multiset_axioms;

        assert(out@.to_multiset().add(rest@.to_multiset()) =~= old(v)@.to_multiset());
    }
    while rest.len() > 0
        invariant
            out@.to_multiset().add(rest@.to_multiset()) == old(v)@.to_multiset(),
            sorted_words(out@),
            forall|i: int, j: int|
                0 <= i < out@.len() && 0 <= j < rest@.len() ==> lex_le(out@[i]@, rest@[j]@),
        decreases rest@.len(),
    {
        let m = min_word_index(&rest);
        let ghost rest0 = rest@;
        let x = rest.remove(m);
        let ghost out0 = out@;
        out.push(x);
        proof {
            broadcast use group_to_multiset_ensures;
            broadcast use vstd::multiset::group_multiset_axioms;

            assert(rest0.contains(rest0[m as int]));
            assert(out@.to_multiset().add(rest@.to_multiset()) =~= old(v)@.to_multiset());
            assert forall|i: int, j: int|
                0 <= i < j < out@.len() implies lex_le(out@[i]@, out@[j]@) by {
                if j < out0.len() {
                } else {
                    assert(out@[j] == x);
                }
            }
            assert forall|i: int, j: int|
                0 <= i < out@.len() && 0 <= j < rest@.len() implies lex_le(
                out@[i]@,
                rest@[j]@,
            ) by {
                let j0 = if j < m { j } else { j + 1 };
                assert(rest@[j] == rest0[j0]);
                if i < out0.len() {
                } else {
                    assert(out@[i] == x);
                }
            }
        }
    }
    core::mem::swap(v, &mut out);
}

/// Whether some statistics entry records this spelling.
pub open spec fn entries_have_word(r: Seq<(String, usize)>, w: Seq<char>) -> bool {
    exists|i: int| 0 <= i < r.len() && (#[trigger] r[i]).0@ == w
}

/// How often the spelling `w` occurs among the first `n` entries of `ws`.
pub open spec fn word_freq(ws: Seq<String>, w: Seq<char>, n: int) -> int
    decreases n,
{
    if n <= 0 {
        0
    } else {
        word_freq(ws, w, n - 1) + if ws[n - 1]@ == w {
            1int
        } else {
            0int
        }
    }
}

/// The frequency-statistics order: an entry ranks no later than another when
/// its count is higher, or the counts tie and its word is lexicographically
/// no later.
pub open spec fn freq_le(w1: Seq<char>, c1: int, w2: Seq<char>, c2: int) -> bool {
    c1 > c2 || (c1 == c2 && lex_le(w1, w2))
}

/// Any two entries are comparable under the frequency order.
pub proof fn lemma_freq_le_total(w1: Seq<char>, c1: int, w2: Seq<char>, c2: int)
    ensures
        freq_le(w1, c1, w2, c2) || freq_le(w2, c2, w1, c1),
{
    lemma_lex_le_total(w1, w2);
}

/// The frequency order is transitive.
pub proof fn lemma_freq_le_trans(
    w1: Seq<char>,
    c1: int,
    w2: Seq<char>,
    c2: int,
    w3: Seq<char>,
    c3: int,
)
    requires
        freq_le(w1, c1, w2, c2),
        freq_le(w2, c2, w3, c3),
    ensures
        freq_le(w1, c1, w3, c3),
{
    if c1 == c2 && c2 == c3 {
        lemma_lex_le_trans(w1, w2, w3);
    }
}

/// Word counts are never negative.
pub proof fn lemma_word_freq_nonneg(ws: Seq<String>, w: Seq<char>, n: int)
    ensures
        word_freq(ws, w, n) >= 0,
    decreases n,
{
    if n > 0 {
        lemma_word_freq_nonneg(ws, w, n - 1);
    }
}

/// A word occurring at position `i` is counted at least once among any
/// prefix that covers that position.
pub proof fn lemma_word_freq_positive(ws: Seq<String>, i: int, n: int)
    requires
        0 <= i < n,
    ensures
        word_freq(ws, ws[i]@, n) >= 1,
    decreases n,
{
    lemma_word_freq_nonneg(ws, ws[i]@, n - 1);
    if i < n - 1 {
        lemma_word_freq_positive(ws, i, n - 1);
    }
}

/// How often the word `w` occurs in the whole list.
fn count_word(strings: &Vec<String>, w: &String) -> (c: usize)
    ensures
        c as int == word_freq(strings@, w@, strings@.len() as int),
{
    let mut c: usize = 0;
    let mut i: usize = 0;
    while i < strings.len()
        invariant
            i <= strings@.len(),
            c as int == word_freq(strings@, w@, i as int),
            c <= i,
        decreases strings@.len() - i,
    {
        if strings[i].eq(w) {
            c = c + 1;
        }
        i = i + 1;
    }
    c
}

/// Whether some collected entry already records this spelling.
fn entries_contain_word(counts: &Vec<(String, usize)>, w: &String) -> (r: bool)
    ensures
        r == exists|j: int| 0 <= j < counts@.len() && counts@[j].0@ == w@,
{
    let mut j: usize = 0;
    while j < counts.len()
        invariant
            j <= counts@.len(),
            forall|k: int| 0 <= k < j ==> counts@[k].0@ != w@,
        decreases counts@.len() - j,
    {
        if counts[j].0.eq(w) {
            return true;
        }
        j = j + 1;
    }
    false
}

/// Executable form of `freq_le`.
fn entry_le(x: &(String, usize), y: &(String, usize)) -> (r: bool)
    ensures
        r == freq_le(x.0@, x.1 as int, y.0@, y.1 as int),
{
    x.1 > y.1 || (x.1 == y.1 && str_lex_le(x.0.as_str(), y.0.as_str()))
}

/// Index of an entry that ranks no later than every entry of the list.
fn best_entry_index(v: &Vec<(String, usize)>) -> (m: usize)
    requires
        v@.len() > 0,
    ensures
        m < v@.len(),
        forall|j: int|
            0 <= j < v@.len() ==> freq_le(
                v@[m as int].0@,
                v@[m as int].1 as int,
                (#[trigger] v@[j]).0@,
                v@[j].1 as int,
            ),
{
    let mut m: usize = 0;
    let mut j: usize = 1;
    proof {
        lemma_lex_le_refl(v@[0].0@);
    }
    while j < v.len()
        invariant
            m < j <= v@.len(),
            forall|k: int|
                0 <= k < j ==> freq_le(
                    v@[m as int].0@,
                    v@[m as int].1 as int,
                    (#[trigger] v@[k]).0@,
                    v@[k].1 as int,
                ),
        decreases v@.len() - j,
    {
        if !entry_le(&v[m], &v[j]) {
            proof {
                lemma_freq_le_total(
                    v@[m as int].0@,
                    v@[m as int].1 as int,
                    v@[j as int].0@,
                    v@[j as int].1 as int,
                );
                lemma_lex_le_refl(v@[j as int].0@);
                assert forall|k: int| 0 <= k < j implies freq_le(
                    v@[j as int].0@,
                    v@[j as int].1 as int,
                    (#[trigger] v@[k]).0@,
                    v@[k].1 as int,
                ) by {
                    lemma_freq_le_trans(
                        v@[j as int].0@,
                        v@[j as int].1 as int,
                        v@[m as int].0@,
                        v@[m as int].1 as int,
                        v@[k].0@,
                        v@[k].1 as int,
                    );
                }
            }
            m = j;
        }
        j = j + 1;
    }
    m
}

/// The `n` most frequent strings of the list, each with its count, ordered
/// by descending count and, among equal counts, by ascending spelling.  When
/// the list holds fewer than `n` distinct spellings, all of them are
/// returned: a spelling of the list is missing from the result only because
/// the result is full and every returned entry ranks no later than it.
pub fn find_most_frequent_strings(strings: &Vec<String>, n: usize) -> (r: Vec<(String, usize)>)
    ensures
        r@.len() <= n,
        forall|i: int|
            0 <= i < r@.len() ==> (#[trigger] r@[i]).1 as int == word_freq(
                strings@,
                r@[i].0@,
                strings@.len() as int,
            ) && r@[i].1 >= 1,
        forall|i: int, j: int| 0 <= i < j < r@.len() ==> r@[i].0@ != r@[j].0@,
        forall|i: int, j: int|
            0 <= i < j < r@.len() ==> freq_le(r@[i].0@, r@[i].1 as int, r@[j].0@, r@[j].1 as int),
        forall|k: int|
            0 <= k < strings@.len() && !entries_have_word(r@, (#[trigger] strings@[k])@)
                ==> r@.len() == n && (n == 0 || freq_le(
                r@[r@.len() - 1].0@,
                r@[r@.len() - 1].1 as int,
                strings@[k]@,
                word_freq(strings@, strings@[k]@, strings@.len() as int),
            )),
        is_top_listing(strings@, n as int, r@),
{
    let ghost ws = strings@;
    let ghost total = strings@.len() as int;
    // Collect one entry per distinct spelling, with its count over the
    // whole list.
    let mut counts: Vec<(String, usize)> = Vec::new();
    let mut i: usize = 0;
    while i < strings.len()
        invariant
            i <= ws.len(),
            ws == strings@,
            total == ws.len() as int,
            forall|p: int, q: int| 0 <= p < q < counts@.len() ==> counts@[p].0@ != counts@[q].0@,
            forall|p: int|
                0 <= p < counts@.len() ==> (#[trigger] counts@[p]).1 as int == word_freq(
                    ws,
                    counts@[p].0@,
                    total,
                ) && counts@[p].1 >= 1,
            forall|k: int|
                0 <= k < i ==> exists|p: int|
                    0 <= p < counts@.len() && (#[trigger] counts@[p]).0@ == (#[trigger] ws[k])@,
        decreases ws.len() - i,
    {
        let ghost counts_before = counts@;
        if !entries_contain_word(&counts, &strings[i]) {
            let c = count_word(strings, &strings[i]);
            proof {
                lemma_word_freq_positive(ws, i as int, total);
            }
            counts.push((strings[i].clone(), c));
        }
        proof {
            assert forall|k: int| 0 <= k < i + 1 implies exists|p: int|
                0 <= p < counts@.len() && (#[trigger] counts@[p]).0@ == (#[trigger] ws[k])@ by {
                if k < i {
                    let p0 = choose|p0: int|
                        0 <= p0 < counts_before.len() && (#[trigger] counts_before[p0]).0@
                            == ws[k]@;
                    assert(counts@[p0].0@ == ws[k]@);
                } else if counts@.len() > counts_before.len() {
                    assert(counts@[counts@.len() - 1].0@ == ws[i as int]@);
                } else {
                    let p0 = choose|p0: int|
                        0 <= p0 < counts_before.len() && (#[trigger] counts_before[p0]).0@
                            == strings@[i as int]@;
                    assert(counts@[p0].0@ == ws[k]@);
                }
            }
        }
        i = i + 1;
    }
    // Hand the entries out best first.
    let mut rest = counts;
    let ghost counts0 = rest@;
    let mut out: Vec<(String, usize)> = Vec::new();
    proof {
        broadcast use group_to_multiset_ensures;
        broadcast use vstd::multiset::group_multiset_axioms;

        assert(out@.to_multiset().add(rest@.to_multiset()) =~= counts0.to_multiset());
    }
    while rest.len() > 0
        invariant
            out@.to_multiset().add(rest@.to_multiset()) == counts0.to_multiset(),
            forall|p: int, q: int| 0 <= p < q < out@.len() ==> out@[p].0@ != out@[q].0@,
            forall|p: int, q: int| 0 <= p < q < rest@.len() ==> rest@[p].0@ != rest@[q].0@,
            forall|p: int, q: int|
                0 <= p < out@.len() && 0 <= q < rest@.len() ==> out@[p].0@ != rest@[q].0@,
            forall|p: int, q: int|
                0 <= p < q < out@.len() ==> freq_le(
                    out@[p].0@,
                    out@[p].1 as int,
                    out@[q].0@,
                    out@[q].1 as int,
                ),
            forall|p: int, q: int|
                0 <= p < out@.len() && 0 <= q < rest@.len() ==> freq_le(
                    out@[p].0@,
                    out@[p].1 as int,
                    rest@[q].0@,
                    rest@[q].1 as int,
                ),
        decreases rest@.len(),
    {
        let m = best_entry_index(&rest);
        let ghost rest0 = rest@;
        let x = rest.remove(m);
        let ghost out0 = out@;
        out.push(x);
        proof {
            broadcast use group_to_multiset_ensures;
            broadcast use vstd::multiset::group_multiset_axioms;

            assert(rest0.contains(rest0[m as int]));
            assert(out@.to_multiset().add(rest@.to_multiset()) =~= counts0.to_multiset());
            assert forall|p: int, q: int| 0 <= p < q < out@.len() implies out@[p].0@
                != out@[q].0@ by {
                if q == out0.len() {
                    assert(out@[q] == rest0[m as int]);
                }
            }
            assert forall|p: int, q: int|
                0 <= p < out@.len() && 0 <= q < rest@.len() implies out@[p].0@ != rest@[q].0@ by {
                let q0 = if q < m {
                    q
                } else {
                    q + 1
                };
                assert(rest@[q] == rest0[q0]);
                if p == out0.len() {
                    assert(out@[p] == rest0[m as int]);
                }
            }
            assert forall|p: int, q: int| 0 <= p < q < rest@.len() implies rest@[p].0@
                != rest@[q].0@ by {
                let p0 = if p < m {
                    p
                } else {
                    p + 1
                };
                let q0 = if q < m {
                    q
                } else {
                    q + 1
                };
                assert(rest@[p] == rest0[p0]);
                assert(rest@[q] == rest0[q0]);
            }
            assert forall|p: int, q: int| 0 <= p < q < out@.len() implies freq_le(
                out@[p].0@,
                out@[p].1 as int,
                out@[q].0@,
                out@[q].1 as int,
            ) by {
                if q == out0.len() {
                    assert(out@[q] == rest0[m as int]);
                }
            }
            assert forall|p: int, q: int|
                0 <= p < out@.len() && 0 <= q < rest@.len() implies freq_le(
                out@[p].0@,
                out@[p].1 as int,
                rest@[q].0@,
                rest@[q].1 as int,
            ) by {
                let q0 = if q < m {
                    q
                } else {
                    q + 1
                };
                assert(rest@[q] == rest0[q0]);
                if p == out0.len() {
                    assert(out@[p] == rest0[m as int]);
                }
            }
        }
    }
    // Every collected entry survives into the ordered list.
    proof {
        broadcast use group_to_multiset_ensures;
        broadcast use vstd::multiset::group_multiset_axioms;

        assert(out@.to_multiset() =~= counts0.to_multiset());
        assert forall|k: int| 0 <= k < total implies exists|p: int|
            0 <= p < out@.len() && (#[trigger] out@[p]).0@ == (#[trigger] ws[k])@ by {
            let p0 = choose|p0: int| 0 <= p0 < counts0.len() && (#[trigger] counts0[p0]).0@
                == ws[k]@;
            assert(counts0.contains(counts0[p0]));
            assert(out@.to_multiset().count(counts0[p0]) > 0);
            assert(out@.contains(counts0[p0]));
            let p = choose|p: int| 0 <= p < out@.len() && out@[p] == counts0[p0];
            assert(out@[p].0@ == ws[k]@);
        }
        assert forall|p: int| 0 <= p < out@.len() implies (#[trigger] out@[p]).1 as int
            == word_freq(ws, out@[p].0@, total) && out@[p].1 >= 1 by {
            assert(out@.contains(out@[p]));
            assert(counts0.to_multiset().count(out@[p]) > 0);
            assert(counts0.contains(out@[p]));
        }
    }
    let ghost full = out@;
    out.truncate(n);
    proof {
        assert forall|k: int|
            0 <= k < strings@.len() && !entries_have_word(out@, (#[trigger] strings@[k])@)
            implies out@.len() == n && (n == 0 || freq_le(
            out@[out@.len() - 1].0@,
            out@[out@.len() - 1].1 as int,
            strings@[k]@,
            word_freq(strings@, strings@[k]@, strings@.len() as int),
        )) by {
            assert(ws[k]@ == strings@[k]@);
            assert(forall|i: int| 0 <= i < out@.len() ==> (#[trigger] out@[i]).0@ != ws[k]@);
            let p = choose|p: int| 0 <= p < full.len() && (#[trigger] full[p]).0@ == ws[k]@;
            assert(0 <= p < full.len() && full[p].0@ == ws[k]@);
            assert(p >= n) by {
                if p < n {
                    assert(out@[p] == full[p]);
                }
            }
            assert(out@.len() == n);
            if n > 0 {
                assert(out@[n - 1] == full[n - 1]);
                assert(freq_le(full[n - 1].0@, full[n - 1].1 as int, full[p].0@, full[p].1 as int));
                assert(full[p].1 as int == word_freq(ws, full[p].0@, total));
            }
        }
    }
    out
}

} // verus!
