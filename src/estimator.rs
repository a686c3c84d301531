//! Per-command duration estimates: an exponential moving average of
//! observed run times, with a static table for commands never observed.

use vstd::prelude::*;
use crate::task::MIN_ESTIMATE_SECONDS;
use crate::text::same_text;
use vstd::string::*;

verus! {

/// Static estimate, in seconds, for a command without observations.
pub open spec fn default_estimate_of(command: Seq<char>) -> u64 {
    if command == "ingest"@ {
        60
    } else if command == "filter"@ {
        30
    } else if command == "train"@ {
        240
    } else if command == "export-training"@ {
        60
    } else if command == "versions"@ {
        8
    } else if command == "chat"@ {
        20
    } else {
        30
    }
}

/// The next stored average, in milliseconds: the first observation is taken
/// as it is; afterwards 70% of the prior average plus 30% of the new one.
pub open spec fn next_average(prior: Option<u64>, observed: u64) -> u64 {
    match prior {
        Some(p) => ((7 * p + 3 * observed) / 10) as u64,
        None => observed,
    }
}

/// Milliseconds rounded to the nearest whole second, halves rounded up.
pub open spec fn round_to_seconds(millis: u64) -> u64 {
    if millis % 1000 >= 500 {
        (millis / 1000 + 1) as u64
    } else {
        (millis / 1000) as u64
    }
}

/// The projected duration in seconds for a stored average or none.
pub open spec fn estimate_from(average: Option<u64>, command: Seq<char>) -> u64 {
    match average {
        Some(a) => if round_to_seconds(a) < MIN_ESTIMATE_SECONDS {
            MIN_ESTIMATE_SECONDS
        } else {
            round_to_seconds(a)
        },
        None => default_estimate_of(command),
    }
}


/// A single observation with no prior average: the estimate is the
/// observation rounded to whole seconds, at least the minimum.
pub proof fn lemma_first_observation(before: DurationEstimator, after: DurationEstimator, command: Seq<char>, observed: u64)
    requires
        before.average(command) == None::<u64>,
        before.observed_into(after, command, observed),
    ensures
        after.estimate_of(command) == (if round_to_seconds(observed) < MIN_ESTIMATE_SECONDS {
            MIN_ESTIMATE_SECONDS
        } else {
            round_to_seconds(observed)
        }),
{
}

pub open spec fn distance(a: u64, b: u64) -> nat {
    if a >= b {
        (a - b) as nat
    } else {
        (b - a) as nat
    }
}

/// Repeating one observation never moves the average away from it: each
/// step is at least as close to the observed value as the one before.
pub proof fn lemma_average_converges(prior: Option<u64>, observed: u64)
    ensures
        match prior {
            Some(p) => distance(next_average(prior, observed), observed) <= distance(p, observed),
            None => next_average(prior, observed) == observed,
        },
{
    if let Some(p) = prior {
        let n: int = (7 * p + 3 * observed) / 10;
        if p >= observed {
            assert(observed <= n <= p) by (nonlinear_arith)
                requires
                    n == (7 * p + 3 * observed) / 10,
                    p >= observed,
            ;
        } else {
            assert(p <= n <= observed) by (nonlinear_arith)
                requires
                    n == (7 * p + 3 * observed) / 10,
                    p < observed,
            ;
        }
    }
}

pub fn default_estimate_seconds(command_name: &str) -> (r: u64)
    ensures
        r == default_estimate_of(command_name@),
{
    if same_text(command_name, "ingest") {
        60
    } else if same_text(command_name, "filter") {
        30
    } else if same_text(command_name, "train") {
        240
    } else if same_text(command_name, "export-training") {
        60
    } else if same_text(command_name, "versions") {
        8
    } else if same_text(command_name, "chat") {
        20
    } else {
        30
    }
}

/// Running averages keyed by command name, in milliseconds.
pub struct DurationEstimator {
    pub names: Vec<String>,
    pub averages: Vec<u64>,
}

impl DurationEstimator {
    pub open spec fn wf(&self) -> bool {
        &&& self.names.len() == self.averages.len()
        &&& forall|i: int, j: int|
            0 <= i < self.names.len() && 0 <= j < self.names.len() && i != j
                ==> self.names@[i]@ != self.names@[j]@
    }

    pub open spec fn has(&self, command: Seq<char>) -> bool {
        exists|i: int| 0 <= i < self.names.len() && self.names@[i]@ == command
    }

    /// The stored average for `command`, if it was ever observed.
    pub open spec fn average(&self, command: Seq<char>) -> Option<u64> {
        if self.has(command) {
            let i = choose|i: int| 0 <= i < self.names.len() && self.names@[i]@ == command;
            Some(self.averages@[i])
        } else {
            None
        }
    }

    /// `next` is `self` after one observation of `observed` milliseconds
    /// for `command`.
    pub open spec fn observed_into(&self, next: Self, command: Seq<char>, observed: u64) -> bool {
        &&& next.average(command) == Some(next_average(self.average(command), observed))
        &&& forall|c: Seq<char>| c != command ==> next.average(c) == self.average(c)
    }

    pub open spec fn estimate_of(&self, command: Seq<char>) -> u64 {
        estimate_from(self.average(command), command)
    }

    pub fn new() -> (r: Self)
        ensures
            r.wf(),
            forall|c: Seq<char>| r.average(c) == None::<u64>,
    {
        DurationEstimator { names: Vec::new(), averages: Vec::new() }
    }

    proof fn lemma_average_at(&self, i: int)
        requires
            self.wf(),
            0 <= i < self.names.len(),
        ensures
            self.average(self.names@[i]@) == Some(self.averages@[i]),
    {
        let c = self.names@[i]@;
        assert(self.has(c));
    }

    fn find(&self, command_name: &str) -> (r: Option<usize>)
        requires
            self.wf(),
        ensures
            match r {
                Some(i) => i < self.names.len() && self.names@[i as int]@ == command_name@
                    && self.average(command_name@) == Some(self.averages@[i as int]),
                None => !self.has(command_name@) && self.average(command_name@) == None::<u64>,
            },
    {
        let mut i: usize = 0;
        while i < self.names.len()
            invariant
                self.wf(),
                i <= self.names.len(),
                forall|j: int| 0 <= j < i ==> self.names@[j]@ != command_name@,
            decreases self.names.len() - i,
        {
            if same_text(self.names[i].as_str(), command_name) {
                proof {
                    self.lemma_average_at(i as int);
                }
                return Some(i);
            }
            i += 1;
        }
        None
    }

    /// Projected duration of `command_name` in seconds: the stored average
    /// rounded, at least the minimum; else the static default.
    pub fn estimate(&self, command_name: &str) -> (r: u64)
        requires
            self.wf(),
        ensures
            r == self.estimate_of(command_name@),
    {
        match self.find(command_name) {
            Some(i) => {
                let a = self.averages[i];
                let secs: u64 = if a % 1000 >= 500 { a / 1000 + 1 } else { a / 1000 };
                if secs < MIN_ESTIMATE_SECONDS {
                    MIN_ESTIMATE_SECONDS
                } else {
                    secs
                }
            },
            None => default_estimate_seconds(command_name),
        }
    }

    /// Folds one observed duration (milliseconds) into the average of
    /// `command_name`; no other command's average changes.
    pub fn observe(&mut self, command_name: &str, observed_millis: u64)
        requires
            old(self).wf(),
        ensures
            final(self).wf(),
            old(self).observed_into(*final(self), command_name@, observed_millis),
    {
        match self.find(command_name) {
            Some(i) => {
                let prior = self.averages[i];
                assert(7 * (prior as u128) + 3 * (observed_millis as u128) <= 10 * 0xffff_ffff_ffff_ffffu128);
                let next: u128 = (7 * (prior as u128) + 3 * (observed_millis as u128)) / 10;
                let ghost pre = *self;
                self.averages.set(i, next as u64);
                proof {
                    assert forall|c: Seq<char>| c != command_name@ implies self.average(c) == pre.average(c) by {
                        if pre.has(c) {
                            let k = choose|k: int| 0 <= k < pre.names.len() && pre.names@[k]@ == c;
                            self.lemma_average_at(k);
                            pre.lemma_average_at(k);
                        }
                        if self.has(c) {
                            let k = choose|k: int| 0 <= k < self.names.len() && self.names@[k]@ == c;
                            assert(pre.names@[k]@ == c);
                        }
                    }
                    self.lemma_average_at(i as int);
                }
            },
            None => {
                let ghost pre = *self;
                self.names.push(String::from_str(command_name));
                self.averages.push(observed_millis);
                proof {
                    let n = pre.names.len() as int;
                    assert(self.names@[n]@ == command_name@);
                    self.lemma_average_at(n);
                    assert forall|c: Seq<char>| c != command_name@ implies self.average(c) == pre.average(c) by {
                        if pre.has(c) {
                            let k = choose|k: int| 0 <= k < pre.names.len() && pre.names@[k]@ == c;
                            assert(self.names@[k] == pre.names@[k]);
                            self.lemma_average_at(k);
                            pre.lemma_average_at(k);
                        }
                        if self.has(c) {
                            let k = choose|k: int| 0 <= k < self.names.len() && self.names@[k]@ == c;
                            assert(k != n);
                            assert(pre.names@[k]@ == c);
                        }
                    }
                }
            },
        }
    }
}

} // verus!
