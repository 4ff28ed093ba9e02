//! The per-round letter keyboard: what is known about each of the 26 keys,
//! upgraded after every guess and never downgraded.

use vstd::prelude::*;
use vstd::string::StringExecFns;

use super::common::key_char_str;
use super::common::key_code;
use super::common::KeyStatus;
use super::common::KEYS_NUM;
use crate::model::is_upper_char;
use crate::model::letter_index;

verus! {

/// Knowledge about every key of the alphabet.
#[derive(Clone, Copy, Debug)]
pub struct Keyboard {
    keys: [KeyStatus; KEYS_NUM],
}

impl Keyboard {
    /// The recorded status of each key, by alphabet slot.
    pub closed spec fn spec_keys(self) -> Seq<KeyStatus> {
        self.keys@
    }

    /// The keyboard always covers the whole alphabet.
    pub proof fn lemma_keys_len(self)
        ensures
            self.spec_keys().len() == KEYS_NUM,
    {
    }

    /// Every key starts unknown.
    pub fn new() -> (r: Keyboard)
        ensures
            r.spec_keys() =~= Seq::new(KEYS_NUM as nat, |i: int| KeyStatus::Unknown),
    {
        Keyboard { keys: [KeyStatus::Unknown; KEYS_NUM] }
    }

    /// The recorded status of one key.
    pub fn key(&self, slot: usize) -> (r: KeyStatus)
        requires
            slot < KEYS_NUM,
        ensures
            r == self.spec_keys()[slot as int],
    {
        self.keys[slot]
    }

    /// The one-line text of the keyboard knowledge, one letter per key in
    /// alphabet order.
    pub fn render(&self) -> (s: String)
        ensures
            s@ == Seq::new(KEYS_NUM as nat, |i: int| key_code(self.spec_keys()[i])),
    {
        let mut s = String::new();
        let mut i: usize = 0;
        while i < KEYS_NUM
            invariant
                i <= KEYS_NUM,
                s@.len() == i as int,
                forall|j: int| 0 <= j < i ==> s@[j] == key_code(self.spec_keys()[j]),
            decreases KEYS_NUM - i,
        {
            let piece = key_char_str(self.keys[i]);
            s.append(piece);
            i = i + 1;
        }
        proof {
            assert(s@ =~= Seq::new(KEYS_NUM as nat, |i: int| key_code(self.spec_keys()[i])));
        }
        s
    }

    /// Upgrades the key of the letter with what one position of a guess
    /// result revealed; knowledge only ever moves up.  Returns `true` when
    /// the key's status changed.
    pub fn update_status(&mut self, key: char, status: KeyStatus) -> (changed: bool)
        requires
            is_upper_char(key),
        ensures
            final(self).spec_keys() == old(self).spec_keys().update(
                letter_index(key),
                old(self).spec_keys()[letter_index(key)].spec_join(status),
            ),
            changed == (status.rank() > old(self).spec_keys()[letter_index(key)].rank()),
    {
        let k = crate::engine::letter_slot(key);
        let cur = self.keys[k];
        if status.rank_exec() > cur.rank_exec() {
            self.keys[k] = status;
            true
        } else {
            proof {
                assert(self.keys@ =~= old(self).spec_keys().update(
                    letter_index(key),
                    cur.spec_join(status),
                ));
            }
            false
        }
    }
}

} // verus!
