//! The resolved command-line and configuration options.  Parsing the command
//! line and the configuration file is the surrounding program's concern; the
//! merge rule that combines the two lives here.

use vstd::prelude::*;

verus! {

/// Every option the program accepts.  A `None` (or `false`) means the option
/// was not given.
#[derive(Debug)]
pub struct Cli {
    pub word: Option<String>,
    pub random: bool,
    pub difficult: bool,
    pub stats: bool,
    pub day: Option<usize>,
    pub seed: Option<u64>,
    pub final_set: Option<String>,
    pub acceptable_set: Option<String>,
    pub state: Option<String>,
    pub config: Option<String>,
}

impl Cli {
    /// Fills every option that was not given on the command line with the
    /// value from the configuration file: the command line always wins.
    pub fn merge(&mut self, from: Cli)
        ensures
            final(self).word == (if old(self).word is None {
                from.word
            } else {
                old(self).word
            }),
            final(self).random == (old(self).random || from.random),
            final(self).difficult == (old(self).difficult || from.difficult),
            final(self).stats == (old(self).stats || from.stats),
            final(self).day == (if old(self).day is None {
                from.day
            } else {
                old(self).day
            }),
            final(self).seed == (if old(self).seed is None {
                from.seed
            } else {
                old(self).seed
            }),
            final(self).final_set == (if old(self).final_set is None {
                from.final_set
            } else {
                old(self).final_set
            }),
            final(self).acceptable_set == (if old(self).acceptable_set is None {
                from.acceptable_set
            } else {
                old(self).acceptable_set
            }),
            final(self).state == (if old(self).state is None {
                from.state
            } else {
                old(self).state
            }),
            final(self).config == (if old(self).config is None {
                from.config
            } else {
                old(self).config
            }),
    {
        if self.word.is_none() {
            self.word = from.word;
        }
        if self.random == false {
            self.random = from.random;
        }
        if self.difficult == false {
            self.difficult = from.difficult;
        }
        if self.stats == false {
            self.stats = from.stats;
        }
        if self.day.is_none() {
            self.day = from.day;
        }
        if self.seed.is_none() {
            self.seed = from.seed;
        }
        if self.final_set.is_none() {
            self.final_set = from.final_set;
        }
        if self.acceptable_set.is_none() {
            self.acceptable_set = from.acceptable_set;
        }
        if self.state.is_none() {
            self.state = from.state;
        }
        if self.config.is_none() {
            self.config = from.config;
        }
    }
}

} // verus!
