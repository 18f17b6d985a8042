//! Per-run registries: what each live run has registered (a channel to
//! deliver an approval on, a token to cancel it with), found by run id.
use std::collections::HashMap;

use tokio_util::sync::CancellationToken;

use vstd::prelude::*;

verus! {

broadcast use vstd::std_specs::hash::group_hash_axioms;

/// A value registered per run: registering again replaces it,
/// deregistering removes it.
pub struct Registry<T> {
    entries: HashMap<u128, T>,
}

impl<T> Registry<T> {
    /// What is registered for each run.
    pub closed spec fn lookup(self, run: u128) -> Option<T> {
        if self.entries@.contains_key(run) {
            Some(self.entries@[run])
        } else {
            None
        }
    }

    /// An empty registry.
    pub fn new() -> (r: Registry<T>)
        ensures
            forall|run: u128| #[trigger] r.lookup(run) is None,
    {
        Registry { entries: HashMap::new() }
    }

    /// Registers `value` for `run`, replacing what was registered for it.
    pub fn register(&mut self, run: u128, value: T)
        ensures
            final(self).lookup(run) == Some(value),
            forall|other: u128| other != run ==> #[trigger] final(self).lookup(other) == old(self).lookup(other),
    {
        let _ = self.entries.insert(run, value);
    }

    /// Removes what is registered for `run`.
    pub fn deregister(&mut self, run: u128)
        ensures
            final(self).lookup(run) is None,
            forall|other: u128| other != run ==> #[trigger] final(self).lookup(other) == old(self).lookup(other),
    {
        let _ = self.entries.remove(&run);
    }

    /// What is registered for `run`, if anything.
    pub fn get(&self, run: u128) -> (r: Option<&T>)
        ensures
            match self.lookup(run) {
                Some(x) => r == Some(&x),
                None => r is None,
            },
    {
        self.entries.get(&run)
    }
}

/// `tokio_util`'s cancellation token, carried through unchanged.
#[verifier::external_type_specification]
#[verifier::external_body]
pub struct ExCancellationToken(CancellationToken);

/// `CancellationToken::cancel`: cancels the token and every token derived
/// from it, waking the tasks that wait on it. The token's state is shared
/// and changes under the caller, so nothing is stated of it here.
#[verifier::external_body]
fn cancel_token(t: &CancellationToken) {
    t.cancel();
}

impl Registry<CancellationToken> {
    /// Cancels the run's token; `true` exactly when a token is registered
    /// for `run` (and then it is the one cancelled).
    pub fn signal(&self, run: u128) -> (r: bool)
        ensures
            r == self.lookup(run) is Some,
    {
        match self.get(run) {
            Some(t) => {
                cancel_token(t);
                true
            },
            None => false,
        }
    }
}

/// What a call of `register` (`Some(value)`) or `deregister` (`None`) for
/// `op.0` does to a registry, as those functions state it.
pub open spec fn registry_step<T>(before: Registry<T>, op: (u128, Option<T>), after: Registry<T>) -> bool {
    &&& after.lookup(op.0) == op.1
    &&& forall|other: u128| other != op.0 ==> #[trigger] after.lookup(other) == before.lookup(other)
}

/// What the last call naming `run` left for it: the value it registered, or
/// nothing when it deregistered `run` or when no call named `run`.
pub open spec fn last_registration<T>(ops: Seq<(u128, Option<T>)>, run: u128) -> Option<T>
    decreases ops.len(),
{
    if ops.len() == 0 {
        None
    } else if ops.last().0 == run {
        ops.last().1
    } else {
        last_registration(ops.drop_last(), run)
    }
}

/// Over any sequence of `register` and `deregister` calls on a new
/// registry, `get(run)` finds something exactly when the last call naming
/// `run` registered a value, and it finds that value.
pub proof fn law_registry_answers_last_call<T>(states: Seq<Registry<T>>, ops: Seq<(u128, Option<T>)>, run: u128)
    requires
        states.len() == ops.len() + 1,
        forall|r: u128| #[trigger] states[0].lookup(r) is None,
        forall|i: int| 0 <= i < ops.len() ==> registry_step(#[trigger] states[i], ops[i], states[i + 1]),
    ensures
        states.last().lookup(run) == last_registration(ops, run),
    decreases ops.len(),
{
    if ops.len() > 0 {
        let n = ops.len() - 1;
        let (s2, o2) = (states.drop_last(), ops.drop_last());
        assert forall|i: int| 0 <= i < o2.len() implies registry_step(#[trigger] s2[i], o2[i], s2[i + 1]) by {
            assert(s2[i] == states[i] && s2[i + 1] == states[i + 1] && o2[i] == ops[i]);
            assert(registry_step(states[i], ops[i], states[i + 1]));
        }
        assert(s2[0] == states[0]);
        law_registry_answers_last_call(s2, o2, run);
        assert(registry_step(states[n], ops[n], states[n + 1]));
        assert(s2.last() == states[n]);
    }
}

} // verus!
