//! The persisted session snapshot: how many rounds were played and, for each
//! finished round, its answer and the guesses submitted.  Reading and writing
//! the snapshot file is the surrounding program's concern; recomputing the
//! running statistics from a snapshot lives here.

use vstd::prelude::*;

verus! {

/// One finished round as persisted: its answer and every guess submitted.
#[derive(Debug)]
pub struct Game {
    pub answer: String,
    pub guesses: Vec<String>,
}

/// The persisted session snapshot.
#[derive(Debug)]
pub struct State {
    pub total_rounds: usize,
    pub games: Vec<Game>,
}

impl Default for State {
    /// An empty snapshot: no rounds played.
    fn default() -> (r: State)
        ensures
            r.total_rounds == 0,
            r.games@.len() == 0,
    {
        State { total_rounds: 0, games: Vec::new() }
    }
}

/// A persisted round was won when its last guess equals its answer.
pub open spec fn is_won_game(g: Game) -> bool {
    g.guesses@.len() > 0 && g.guesses@.last()@ == g.answer@
}

/// How many of the first `n` persisted rounds were won.
pub open spec fn wins_in(gs: Seq<Game>, n: int) -> int
    decreases n,
{
    if n <= 0 {
        0
    } else {
        wins_in(gs, n - 1) + if is_won_game(gs[n - 1]) {
            1int
        } else {
            0int
        }
    }
}

/// Total guesses spent on the won rounds among the first `n`.
pub open spec fn win_guesses_in(gs: Seq<Game>, n: int) -> int
    decreases n,
{
    if n <= 0 {
        0
    } else {
        win_guesses_in(gs, n - 1) + if is_won_game(gs[n - 1]) {
            gs[n - 1].guesses@.len() as int
        } else {
            0int
        }
    }
}

/// Every guess of the first `n` persisted rounds, in play order.
pub open spec fn all_guesses_of(gs: Seq<Game>, n: int) -> Seq<String>
    decreases n,
{
    if n <= 0 {
        Seq::empty()
    } else {
        all_guesses_of(gs, n - 1) + gs[n - 1].guesses@
    }
}

/// Win counts and guess totals only grow along the rounds.
pub proof fn lemma_resume_monotone(gs: Seq<Game>, m: int, n: int)
    requires
        m <= n,
    ensures
        wins_in(gs, m) <= wins_in(gs, n),
        win_guesses_in(gs, m) <= win_guesses_in(gs, n),
        wins_in(gs, n) >= 0,
        win_guesses_in(gs, n) >= 0,
    decreases n,
{
    if n > 0 && m < n {
        lemma_resume_monotone(gs, m, n - 1);
    }
    if n > 0 && m == n {
        lemma_resume_monotone(gs, m - 1, n - 1);
    }
}

/// Recomputing the statistics from an unchanged snapshot yields identical
/// results: any two outcomes that both satisfy the statistics' contract
/// agree on wins, rounds played, winning-guess total and guess list.
pub proof fn lemma_resume_stats_idempotent(
    games: Seq<Game>,
    r1: (usize, usize, usize, Seq<String>),
    r2: (usize, usize, usize, Seq<String>),
)
    requires
        r1.0 as int == wins_in(games, games.len() as int),
        r1.1 == games.len(),
        r1.2 as int == win_guesses_in(games, games.len() as int),
        r1.3 == all_guesses_of(games, games.len() as int),
        r2.0 as int == wins_in(games, games.len() as int),
        r2.1 == games.len(),
        r2.2 as int == win_guesses_in(games, games.len() as int),
        r2.3 == all_guesses_of(games, games.len() as int),
    ensures
        r1 == r2,
{
}

impl State {
    /// Recomputes the running statistics from the snapshot: rounds won,
    /// rounds played, guesses spent on won rounds, and every guess ever
    /// submitted.  A round counts as won when its last guess equals its
    /// answer.  The same snapshot always yields the same statistics.
    pub fn resume_stats(&self) -> (r: (usize, usize, usize, Vec<String>))
        requires
            forall|i: int| 0 <= i < self.games@.len() ==> (#[trigger] self.games@[i]).guesses@.len() > 0,
            win_guesses_in(self.games@, self.games@.len() as int) <= usize::MAX,
        ensures
            r.0 as int == wins_in(self.games@, self.games@.len() as int),
            r.1 == self.games@.len(),
            r.2 as int == win_guesses_in(self.games@, self.games@.len() as int),
            r.3@ == all_guesses_of(self.games@, self.games@.len() as int),
    {
        let mut wins: usize = 0;
        let mut win_guesses: usize = 0;
        let mut all_guesses: Vec<String> = Vec::new();
        let mut i: usize = 0;
        proof {
            assert(all_guesses@ =~= all_guesses_of(self.games@, 0));
        }
        while i < self.games.len()
            invariant
                i <= self.games@.len(),
                forall|k: int|
                    0 <= k < self.games@.len() ==> (#[trigger] self.games@[k]).guesses@.len() > 0,
                win_guesses_in(self.games@, self.games@.len() as int) <= usize::MAX,
                wins as int == wins_in(self.games@, i as int),
                win_guesses as int == win_guesses_in(self.games@, i as int),
                all_guesses@ == all_guesses_of(self.games@, i as int),
                wins <= i,
            decreases self.games@.len() - i,
        {
            let game = &self.games[i];
            let n = game.guesses.len();
            let last = &game.guesses[n - 1];
            let won = last.eq(&game.answer);
            if won {
                wins = wins + 1;
                proof {
                    lemma_resume_monotone(self.games@, i + 1, self.games@.len() as int);
                }
                win_guesses = win_guesses + n;
            }
            let mut j: usize = 0;
            while j < game.guesses.len()
                invariant
                    j <= game.guesses@.len(),
                    game == &self.games@[i as int],
                    i < self.games@.len(),
                    all_guesses@ == all_guesses_of(self.games@, i as int) + game.guesses@.take(
                        j as int,
                    ),
                decreases game.guesses@.len() - j,
            {
                all_guesses.push(game.guesses[j].clone());
                proof {
                    assert(all_guesses_of(self.games@, i as int) + game.guesses@.take(j + 1)
                        =~= (all_guesses_of(self.games@, i as int) + game.guesses@.take(j as int)).push(
                        game.guesses@[j as int],
                    ));
                }
                j = j + 1;
            }
            proof {
                assert(game.guesses@.take(game.guesses@.len() as int) =~= game.guesses@);
            }
            i = i + 1;
        }
        (wins, self.games.len(), win_guesses, all_guesses)
    }
}

} // verus!
