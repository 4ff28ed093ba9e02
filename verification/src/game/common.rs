//! Shared pieces of the round machinery: per-key knowledge statuses, the
//! per-guess result, and the word type.

use vstd::prelude::*;
use vstd::string::StringExecFns;

use crate::model::classify_spec;
use crate::model::letter_index;
use crate::model::WORD_LENGTH;
use crate::status::Status;

verus! {

/// Number of keys on the letter keyboard.
pub const KEYS_NUM: usize = 26;

/// A word as the game engine handles it.
pub type Word = String;

/// What is known about one key (or one position of a guess): placed exactly
/// right (`Hit`), present at a wrong position (`Close`), over its occurrence
/// budget (`Missed`), or not yet tried (`Unknown`).
#[derive(Clone, Copy, Debug, PartialEq, Eq, PartialOrd, Ord, Structural)]
pub enum KeyStatus {
    Hit,
    Close,
    Missed,
    Unknown,
}

impl KeyStatus {
    /// Position in the information order `Unknown < Missed < Close < Hit`.
    pub open spec fn rank(self) -> int {
        match self {
            KeyStatus::Hit => 3,
            KeyStatus::Close => 2,
            KeyStatus::Missed => 1,
            KeyStatus::Unknown => 0,
        }
    }

    /// The more informative of two key statuses.
    pub open spec fn spec_join(self, other: KeyStatus) -> KeyStatus {
        if self.rank() >= other.rank() {
            self
        } else {
            other
        }
    }

    /// The key status a classification status colours a key with.
    pub open spec fn of_status(s: Status) -> KeyStatus {
        match s {
            Status::GREEN => KeyStatus::Hit,
            Status::YELLOW => KeyStatus::Close,
            Status::RED => KeyStatus::Missed,
            Status::UNKNOWN => KeyStatus::Unknown,
        }
    }

    /// Executable form of `rank`.
    pub fn rank_exec(self) -> (r: u8)
        ensures
            r as int == self.rank(),
    {
        match self {
            KeyStatus::Hit => 3,
            KeyStatus::Close => 2,
            KeyStatus::Missed => 1,
            KeyStatus::Unknown => 0,
        }
    }

    /// Executable form of `of_status`.
    pub fn from_status(s: Status) -> (r: KeyStatus)
        ensures
            r == KeyStatus::of_status(s),
    {
        match s {
            Status::GREEN => KeyStatus::Hit,
            Status::YELLOW => KeyStatus::Close,
            Status::RED => KeyStatus::Missed,
            Status::UNKNOWN => KeyStatus::Unknown,
        }
    }
}

/// The letter a key status is written as: `G` for a hit, `Y` for close,
/// `R` for missed, `X` for unknown.
pub open spec fn key_code(k: KeyStatus) -> char {
    match k {
        KeyStatus::Hit => 'G',
        KeyStatus::Close => 'Y',
        KeyStatus::Missed => 'R',
        KeyStatus::Unknown => 'X',
    }
}

/// One-letter text of a key status.
pub fn key_char_str(st: KeyStatus) -> (r: &'static str)
    ensures
        r@.len() == 1,
        r@[0] == key_code(st),
{
    match st {
        KeyStatus::Hit => {
            proof {
                reveal_strlit("G");
            }
            "G"
        },
        KeyStatus::Close => {
            proof {
                reveal_strlit("Y");
            }
            "Y"
        },
        KeyStatus::Missed => {
            proof {
                reveal_strlit("R");
            }
            "R"
        },
        KeyStatus::Unknown => {
            proof {
                reveal_strlit("X");
            }
            "X"
        },
    }
}

/// The guess result in key-status form: one entry per position of the guess.
pub open spec fn word_result(g: Seq<char>, a: Seq<char>) -> Seq<KeyStatus> {
    classify_spec(g, a).map_values(|s: Status| KeyStatus::of_status(s))
}

/// The result one guess earned: one key status per position.
#[derive(Clone, Copy, Debug, PartialEq, Eq)]
pub struct WordStatus {
    pub data: [KeyStatus; WORD_LENGTH],
}

impl WordStatus {
    /// A fresh result with every position still unknown.
    pub fn new() -> (r: WordStatus)
        ensures
            r.data@ =~= Seq::new(WORD_LENGTH as nat, |i: int| KeyStatus::Unknown),
    {
        WordStatus { data: [KeyStatus::Unknown; WORD_LENGTH] }
    }

    /// Every position scored an exact hit: the guess was the answer.
    pub open spec fn is_all_hit(self) -> bool {
        forall|i: int| 0 <= i < WORD_LENGTH ==> self.data@[i] == KeyStatus::Hit
    }

    /// The one-line text of the result, one letter per position.
    pub fn render(&self) -> (s: String)
        ensures
            s@ == Seq::new(WORD_LENGTH as nat, |i: int| key_code(self.data@[i])),
    {
        let mut s = String::new();
        let mut i: usize = 0;
        while i < WORD_LENGTH
            invariant
                i <= WORD_LENGTH,
                s@.len() == i as int,
                forall|j: int| 0 <= j < i ==> s@[j] == key_code(self.data@[j]),
            decreases WORD_LENGTH - i,
        {
            let piece = key_char_str(self.data[i]);
            s.append(piece);
            i = i + 1;
        }
        proof {
            assert(s@ =~= Seq::new(WORD_LENGTH as nat, |i: int| key_code(self.data@[i])));
        }
        s
    }
}

/// Per-key knowledge after folding one guess's classification into the
/// keyboard `keys`, position by position.
pub open spec fn upgrade_keys(keys: Seq<KeyStatus>, g: Seq<char>, r: Seq<Status>, n: int) -> Seq<
    KeyStatus,
>
    decreases n,
{
    if n <= 0 {
        keys
    } else {
        let prev = upgrade_keys(keys, g, r, n - 1);
        let k = letter_index(g[n - 1]);
        prev.update(k, prev[k].spec_join(KeyStatus::of_status(r[n - 1])))
    }
}

/// Folding a guess into the keyboard never loses information: every key's
/// entry ranks at least as high afterwards.
pub proof fn lemma_upgrade_keys_monotone(keys: Seq<KeyStatus>, g: Seq<char>, r: Seq<Status>, n: int)
    requires
        forall|i: int| 0 <= i < n ==> 0 <= letter_index(#[trigger] g[i]) < keys.len(),
    ensures
        upgrade_keys(keys, g, r, n).len() == keys.len(),
        forall|k: int|
            0 <= k < keys.len() ==> (#[trigger] upgrade_keys(keys, g, r, n)[k]).rank()
                >= keys[k].rank(),
    decreases n,
{
    if n > 0 {
        lemma_upgrade_keys_monotone(keys, g, r, n - 1);
    }
}

} // verus!
