use vstd::prelude::*;

verus! {

/// A counter that hands out identifiers, each strictly greater than every
/// one handed out before it by the same generator.
pub struct IdGenerator {
    pub counter: usize,
}

/// What one call of `next` does, on the counter's value: it returns the
/// value it found and leaves the counter one higher.
pub open spec fn issues(before: nat, after: nat, issued: nat) -> bool {
    issued == before && after == before + 1
}

impl View for IdGenerator {
    type V = nat;

    open spec fn view(&self) -> nat {
        self.counter as nat
    }
}

impl IdGenerator {
    /// A generator whose first identifier is `start`.
    pub fn starting_at(start: usize) -> (r: IdGenerator)
        ensures
            r@ == start,
    {
        IdGenerator { counter: start }
    }

    /// Whether `next` may still be called: the counter has not reached the
    /// largest `usize`.
    pub fn can_issue(&self) -> (r: bool)
        ensures
            r == (self@ < usize::MAX),
    {
        self.counter < usize::MAX
    }

    /// Hands out the current value and advances the counter.
    pub fn next(&mut self) -> (r: usize)
        requires
            old(self)@ < usize::MAX,
        ensures
            issues(old(self)@, final(self)@, r as nat),
    {
        let r = self.counter;
        self.counter = self.counter + 1;
        r
    }

    /// The value the next call of `next` will hand out.
    pub fn current(&self) -> (r: usize)
        ensures
            r == self@,
    {
        self.counter
    }
}

/// Identifiers handed out by any run of consecutive `next` calls on one
/// generator are unique and strictly increasing: `states[i]` is the counter
/// before call `i`, and `issued[i]` what that call returned.
pub proof fn lemma_issued_strictly_increasing(states: Seq<nat>, issued: Seq<nat>)
    requires
        states.len() == issued.len() + 1,
        forall|i: int| 0 <= i < issued.len() ==> issues(#[trigger] states[i], states[i + 1], issued[i]),
    ensures
        forall|i: int, j: int| 0 <= i < j < issued.len() ==> issued[i] < issued[j],
{
    assert forall|k: int| 0 <= k < states.len() implies #[trigger] states[k] == states[0] + k by {
        lemma_counter_offset(states, issued, k);
    }
    assert forall|i: int, j: int| 0 <= i < j < issued.len() implies issued[i] < issued[j] by {
        assert(issues(states[i], states[i + 1], issued[i]));
        assert(issues(states[j], states[j + 1], issued[j]));
    }
}

proof fn lemma_counter_offset(states: Seq<nat>, issued: Seq<nat>, k: int)
    requires
        states.len() == issued.len() + 1,
        forall|i: int| 0 <= i < issued.len() ==> issues(#[trigger] states[i], states[i + 1], issued[i]),
        0 <= k < states.len(),
    ensures
        states[k] == states[0] + k,
    decreases k,
{
    if k > 0 {
        lemma_counter_offset(states, issued, k - 1);
        assert(issues(states[k - 1], states[k], issued[k - 1]));
    }
}

} // verus!
