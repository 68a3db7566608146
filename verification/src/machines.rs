//! Machines known by name, and the search for the one that a name means.

use crate::binary64::lemma_patterns_above_zero;
use crate::mac::Mac;
use crate::similarity::{
    is_best, is_duplicate, lemma_close_is_above_zero, lemma_one_is_close, none_matches,
    similarity, similarity_bits, Similarity, DUPLICATE_BITS,
};
use crate::text::trimmed;
use vstd::prelude::*;

verus! {

/// A machine that can be woken: a name to call it by, and its address.
#[derive(Debug, PartialEq)]
pub struct Machine {
    /// The name that the user gave; empty where only an address is known.
    pub name: String,
    /// The hardware address of the machine's network interface.
    pub mac: Mac,
}

impl Clone for Machine {
    fn clone(&self) -> (copy: Machine)
        ensures
            copy == *self,
    {
        Machine { name: self.name.clone(), mac: self.mac }
    }
}

impl Machine {
    /// The text that stands for the machine in a list: its name.
    pub fn to_string(&self) -> (text: String)
        ensures
            text@ == self.name@,
    {
        self.name.clone()
    }
}

/// The machines that the user has saved, in the order in which they were
/// added.
#[derive(Debug, PartialEq)]
pub struct Data {
    /// The saved machines, oldest first.
    pub machines: Vec<Machine>,
}

impl Default for Data {
    fn default() -> (data: Data)
        ensures
            data.machines@.len() == 0,
    {
        Data { machines: Vec::new() }
    }
}

/// How alike the name of each machine and `name` are, in the machines'
/// order.
pub open spec fn scores_of(machines: Seq<Machine>, name: Seq<char>) -> Seq<Similarity> {
    Seq::new(
        machines.len(),
        |i: int| Similarity { bits: similarity_bits(machines[i].name@, name) },
    )
}

/// Whether one of the machines has exactly the name `name`.
pub open spec fn has_name(machines: Seq<Machine>, name: Seq<char>) -> bool {
    exists|k: int| 0 <= k < machines.len() && #[trigger] machines[k].name@ == name
}

impl Data {
    /// Finds the machine whose name is most like `name`.
    ///
    /// The machines are scored in their order, and none is scored behind
    /// one whose score is close to the upper bound. Found is the machine
    /// with the greatest score above zero, the earliest where several are
    /// equal. A blank name finds nothing; a name that a machine has is
    /// found, and found at once where the first machine has it.
    pub fn find_best_machine(&self, name: &str) -> (found: Option<Machine>)
        ensures
            match found {
                Some(machine) => exists|i: int|
                    #[trigger] is_best(scores_of(self.machines@, name@), i) && machine
                        == self.machines@[i],
                None => none_matches(scores_of(self.machines@, name@)),
            },
            self.machines@.len() == 0 ==> found is None,
            trimmed(name@).len() == 0 ==> found is None,
            trimmed(name@).len() > 0 && has_name(self.machines@, name@) ==> found is Some,
            trimmed(name@).len() > 0 && self.machines@.len() > 0 && self.machines@[0].name@
                == name@ ==> found == Some(self.machines@[0]),
    {
        let ghost scores = scores_of(self.machines@, name@);
        let mut best_rank: u64 = 0;
        let mut best: Option<usize> = None;
        let mut i: usize = 0;
        while i < self.machines.len()
            invariant
                i <= self.machines@.len(),
                scores == scores_of(self.machines@, name@),
                forall|j: int| 0 <= j < i ==> !(#[trigger] scores[j]).is_close(),
                forall|j: int| 0 <= j < i ==> (#[trigger] scores[j]).rank() <= best_rank,
                forall|j: int|
                    0 <= j < i && trimmed(name@).len() > 0 ==> #[trigger] self.machines@[j].name@
                        != name@,
                trimmed(name@).len() == 0 ==> best is None,
                match best {
                    Some(b) => b < i && best_rank > 0 && scores[b as int].rank() == best_rank
                        && forall|j: int| 0 <= j < b ==> (#[trigger] scores[j]).rank() < best_rank,
                    None => best_rank == 0,
                },
            decreases self.machines@.len() - i,
        {
            let score = similarity(self.machines[i].name.as_str(), name);
            proof {
                lemma_patterns_above_zero(0);
                lemma_one_is_close();
                if score.is_close() {
                    lemma_close_is_above_zero(score);
                }
            }
            let rank = score.score_rank();
            if rank > best_rank {
                best_rank = rank;
                best = Some(i);
            }
            if score.is_close_to_upper_bound() {
                return match best {
                    Some(b) => {
                        assert(is_best(scores, b as int));
                        Some(self.machines[b].clone())
                    },
                    None => None,
                };
            }
            i = i + 1;
        }
        match best {
            Some(b) => {
                assert(is_best(scores, b as int));
                Some(self.machines[b].clone())
            },
            None => None,
        }
    }

    /// Tells whether `name` is taken: whether the name of a saved machine
    /// and `name` are alike above nine tenths. A blank name is never taken;
    /// a name that a machine has is.
    pub fn has_duplicate(&self, name: &str) -> (taken: bool)
        ensures
            taken == is_duplicate(scores_of(self.machines@, name@)),
            trimmed(name@).len() == 0 ==> !taken,
            trimmed(name@).len() > 0 && has_name(self.machines@, name@) ==> taken,
    {
        let ghost scores = scores_of(self.machines@, name@);
        let mut i: usize = 0;
        while i < self.machines.len()
            invariant
                i <= self.machines@.len(),
                scores == scores_of(self.machines@, name@),
                forall|j: int| 0 <= j < i ==> (#[trigger] scores[j]).rank() <= DUPLICATE_BITS,
                forall|j: int|
                    0 <= j < i && trimmed(name@).len() > 0 ==> #[trigger] self.machines@[j].name@
                        != name@,
            decreases self.machines@.len() - i,
        {
            let score = similarity(self.machines[i].name.as_str(), name);
            proof {
                assert(score == scores[i as int]);
                lemma_patterns_above_zero(0);
                lemma_one_is_close();
            }
            if score.score_rank() > DUPLICATE_BITS {
                return true;
            }
            i = i + 1;
        }
        false
    }

    /// Saves `machine` behind the machines that are there, where the user
    /// has confirmed it, and says whether it did.
    pub fn add_machine(&mut self, machine: Machine, confirmed: bool) -> (saved: bool)
        ensures
            saved == confirmed,
            confirmed ==> final(self).machines@ == old(self).machines@.push(machine),
            !confirmed ==> *final(self) == *old(self),
    {
        if confirmed {
            self.machines.push(machine);
        }
        confirmed
    }
}

} // verus!
