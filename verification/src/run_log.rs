//! An in-memory record of procedure runs: the transitions each run has
//! recorded, in order, and the outcome it ended with.
use std::collections::HashMap;

use vstd::prelude::*;

use crate::state_machine::{EntryModel, RunOutcome, StateHistoryEntry, transitions_model};
use crate::text::string_from;
use crate::uuids::{is_random_uuid, new_uuid};

verus! {

broadcast use {vstd::std_specs::vec::group_vec_axioms, vstd::std_specs::hash::group_hash_axioms};

/// The identifier of a procedure run: a UUID as its 128-bit value.
#[derive(Debug, Clone, Copy, PartialEq, Eq, Hash)]
pub struct RunId(pub u128);

impl RunId {
    /// A fresh random run id: a version 4 UUID.
    pub fn new() -> (r: RunId)
        ensures
            is_random_uuid(r.0),
    {
        RunId(new_uuid())
    }
}

/// Transitions and outcomes recorded per run.
pub struct RunLog {
    transitions: HashMap<u128, Vec<(String, String, StateHistoryEntry)>>,
    terminals: HashMap<u128, RunOutcome>,
}

fn copy_entry(e: &StateHistoryEntry) -> (r: StateHistoryEntry)
    ensures
        r.model() == e.model(),
{
    StateHistoryEntry { state: e.state.clone(), attempt: e.attempt, event: e.event.copy() }
}

/// A copy of a run's recorded transitions.
fn copy_transitions(list: &Vec<(String, String, StateHistoryEntry)>) -> (r: Vec<(String, String, StateHistoryEntry)>)
    ensures
        transitions_model(r@) == transitions_model(list@),
{
    let mut out: Vec<(String, String, StateHistoryEntry)> = Vec::new();
    let mut k: usize = 0;
    while k < list.len()
        invariant
            k <= list.len(),
            out.len() == k,
            transitions_model(out@) =~= transitions_model(list@.take(k as int)),
        decreases list.len() - k,
    {
        let e = (string_from(list[k].0.as_str()), string_from(list[k].1.as_str()), copy_entry(&list[k].2));
        let ghost before = out@;
        out.push(e);
        k += 1;
        proof {
            let a = transitions_model(out@);
            let b = transitions_model(list@.take(k as int));
            assert(a.len() == b.len());
            assert forall|j: int| 0 <= j < a.len() implies a[j] == b[j] by {
                if j < k - 1 {
                    assert(out@[j] == before[j]);
                    assert(transitions_model(before)[j] == transitions_model(list@.take(k - 1))[j]);
                }
            }
            assert(a =~= b);
        }
    }
    proof {
        assert(list@.take(list.len() as int) =~= list@);
    }
    out
}

impl RunLog {
    /// The transitions recorded for a run, in order (none for an unknown run).
    pub closed spec fn transitions_of(self, run: RunId) -> Seq<(Seq<char>, Seq<char>, EntryModel)> {
        if self.transitions@.contains_key(run.0) {
            transitions_model(self.transitions@[run.0]@)
        } else {
            Seq::empty()
        }
    }

    /// The outcome recorded for a run, if any.
    pub closed spec fn terminal_of(self, run: RunId) -> Option<RunOutcome> {
        if self.terminals@.contains_key(run.0) {
            Some(self.terminals@[run.0])
        } else {
            None
        }
    }

    /// An empty log.
    pub fn new() -> (r: RunLog)
        ensures
            forall|run: RunId| #[trigger] r.transitions_of(run) == Seq::<(Seq<char>, Seq<char>, EntryModel)>::empty(),
            forall|run: RunId| #[trigger] r.terminal_of(run) is None,
    {
        RunLog { transitions: HashMap::new(), terminals: HashMap::new() }
    }

    /// Records a transition of `run` from `from` to `to`.
    pub fn persist_transition(&mut self, run: RunId, from: &str, to: &str, entry: StateHistoryEntry)
        ensures
            final(self).transitions_of(run) == old(self).transitions_of(run).push((from@, to@, entry.model())),
            forall|other: RunId| other != run ==> #[trigger] final(self).transitions_of(other) == old(self).transitions_of(other),
            forall|r: RunId| #[trigger] final(self).terminal_of(r) == old(self).terminal_of(r),
    {
        let ghost before = old(self).transitions_of(run);
        let ghost em = entry.model();
        let item = (string_from(from), string_from(to), entry);
        let mut list = match self.transitions.remove(&run.0) {
            Some(l) => l,
            None => Vec::new(),
        };
        assert(transitions_model(list@) == before);
        let ghost prior = list@;
        list.push(item);
        assert(transitions_model(list@) =~= before.push((from@, to@, em))) by {
            assert(list@ =~= prior.push(item));
        }
        let _ = self.transitions.insert(run.0, list);
    }

    /// Records the outcome `run` ended with.
    pub fn set_terminal(&mut self, run: RunId, outcome: RunOutcome)
        ensures
            final(self).terminal_of(run) == Some(outcome),
            forall|other: RunId| other != run ==> #[trigger] final(self).terminal_of(other) == old(self).terminal_of(other),
            forall|r: RunId| #[trigger] final(self).transitions_of(r) == old(self).transitions_of(r),
    {
        let _ = self.terminals.insert(run.0, outcome);
    }

    /// The transitions recorded for `run`, in order.
    pub fn transitions(&self, run: RunId) -> (r: Vec<(String, String, StateHistoryEntry)>)
        ensures
            transitions_model(r@) == self.transitions_of(run),
    {
        match self.transitions.get(&run.0) {
            Some(list) => copy_transitions(list),
            None => Vec::new(),
        }
    }

    /// The outcome `run` ended with, if it has ended.
    pub fn terminal(&self, run: RunId) -> (r: Option<RunOutcome>)
        ensures
            r == self.terminal_of(run),
    {
        match self.terminals.get(&run.0) {
            Some(o) => Some(*o),
            None => None,
        }
    }
}

} // verus!
