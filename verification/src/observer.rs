//! The driver status observer: it remembers the levels that the driver lines
//! had when it last looked, and speaks up when they have changed.

use vstd::prelude::*;
use crate::clock::Timestamp;
use crate::config::Configuration;
use crate::logs::{levels_row, make_levels_row};
use crate::outgoing::Message;

verus! {

/// A change of the driver levels: what is to be logged and what is to be
/// sent.
#[derive(Debug, PartialEq, Eq)]
pub struct Change {
    /// The row to append to the log of driver levels.
    pub row: Vec<u8>,
    /// The levels to send to the dashboard as one `DriverValue`.
    pub values: Vec<bool>,
}

/// The levels that the drivers of a configuration rest at.
pub open spec fn initial_levels(config: &Configuration) -> Seq<bool> {
    Seq::new(config.drivers@.len(), |i: int| config.drivers@[i].safe_level)
}

/// The observer of the driver lines.
pub struct DriverObserver {
    last: Vec<bool>,
}

impl DriverObserver {
    /// The levels last seen.
    pub closed spec fn view(&self) -> Seq<bool> {
        self.last@
    }

    /// An observer that takes the drivers to be at the levels they start
    /// with.
    pub fn new(config: &Configuration) -> (observer: DriverObserver)
        ensures
            observer@ == initial_levels(config),
    {
        let mut last: Vec<bool> = Vec::new();
        let mut i: usize = 0;
        while i < config.drivers.len()
            invariant
                i <= config.drivers.len(),
                last@ == initial_levels(config).take(i as int),
            decreases config.drivers.len() - i,
        {
            last.push(config.drivers[i].safe_level);
            proof {
                assert(last@ =~= initial_levels(config).take(i as int + 1));
            }
            i += 1;
        }
        proof {
            assert(last@ =~= initial_levels(config));
        }
        DriverObserver { last }
    }

    /// Takes the levels read off the driver lines at `now`. Where they are
    /// the levels last seen, nothing happens. Where any differs, they are
    /// remembered, and the result holds the row to log and the levels to
    /// send.
    pub fn observe(&mut self, levels: &[bool], now: Timestamp) -> (change: Option<Change>)
        ensures
            final(self)@ == levels@,
            levels@ == old(self)@ <==> change is None,
            change matches Some(c) ==> c.row@ == levels_row(now, levels@) && c.values@ == levels@,
    {
        let mut same = self.last.len() == levels.len();
        let mut i: usize = 0;
        while same && i < levels.len()
            invariant
                i <= levels.len(),
                same ==> self.last@.len() == levels@.len(),
                same ==> forall|k: int| 0 <= k < i ==> self.last@[k] == levels@[k],
                !same ==> self.last@ != levels@,
                self.last@ == old(self)@,
            decreases levels.len() - i + if same { 1int } else { 0int },
        {
            if self.last[i] != levels[i] {
                same = false;
            } else {
                i += 1;
            }
        }
        if same {
            assert(self.last@ =~= levels@);
            None
        } else {
            let mut values: Vec<bool> = Vec::new();
            values.extend_from_slice(levels);
            let mut kept: Vec<bool> = Vec::new();
            kept.extend_from_slice(levels);
            assert(values@ =~= levels@);
            assert(kept@ =~= levels@);
            self.last = kept;
            Some(Change { row: make_levels_row(now, levels), values })
        }
    }
}

impl Change {
    /// The message that tells the dashboard of the change.
    pub fn message(&self) -> (message: Message<'_>)
        ensures
            message matches Message::DriverValue { values } && values@ == self.values@,
    {
        Message::DriverValue { values: self.values.as_slice() }
    }
}

} // verus!
