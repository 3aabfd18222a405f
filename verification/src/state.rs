//! The states of a sandbox.

use vstd::prelude::*;

verus! {

/// Where a sandbox is in its life.
#[derive(Debug, Clone, Copy, PartialEq, Eq, Structural)]
pub enum SandboxState {
    Created,
    Starting,
    Running,
    Stopping,
    Stopped,
    Failed,
}

/// A sandbox in the one state can be found in the other after an operation. It is started once,
/// runs only after it was being started, and a stopped one stays stopped.
pub open spec fn may_follow(a: SandboxState, b: SandboxState) -> bool {
    a == b || match b {
        SandboxState::Created => false,
        SandboxState::Starting => a is Created,
        SandboxState::Running => a is Starting,
        SandboxState::Stopping => !(a is Stopped),
        SandboxState::Stopped => true,
        SandboxState::Failed => a is Starting,
    }
}

/// Every state but the first may follow the one before it.
pub open spec fn is_life(states: Seq<SandboxState>) -> bool {
    forall|i: int|
        0 <= i < states.len() - 1 ==> may_follow(#[trigger] states[i], states[i + 1])
}

/// How far a state is in the life of a sandbox.
pub open spec fn age(s: SandboxState) -> int {
    match s {
        SandboxState::Created => 0,
        SandboxState::Starting => 1,
        SandboxState::Running => 2,
        SandboxState::Failed => 2,
        SandboxState::Stopping => 3,
        SandboxState::Stopped => 4,
    }
}

/// In the life of a sandbox time goes one way: a later state is further on, or it is the same one.
pub proof fn states_only_go_on(states: Seq<SandboxState>, i: int, j: int)
    requires
        is_life(states),
        0 <= i <= j < states.len(),
    ensures
        age(states[i]) < age(states[j]) || states[i] == states[j],
    decreases j - i,
{
    if i < j {
        assert(may_follow(states[j - 1], states[j - 1 + 1]));
        states_only_go_on(states, i, j - 1);
    }
}

/// In the life of a sandbox no state comes back once it was left: between two times in one state
/// there is no other. So it is created once, started once, runs once, fails once and is stopped
/// once.
pub proof fn no_state_comes_back(states: Seq<SandboxState>, i: int, k: int, j: int)
    requires
        is_life(states),
        0 <= i <= k <= j < states.len(),
        states[i] == states[j],
    ensures
        states[k] == states[i],
{
    states_only_go_on(states, i, k);
    states_only_go_on(states, k, j);
}

/// A sandbox that is stopped stays stopped, and one that runs was being started before.
pub proof fn life_has_an_order(states: Seq<SandboxState>, i: int, j: int)
    requires
        is_life(states),
        0 <= i <= j < states.len(),
    ensures
        states[i] is Stopped ==> states[j] is Stopped,
        states[j] is Created ==> states[i] is Created,
        states[j] is Running && !(states[i] is Running) ==> states[i] is Created
            || states[i] is Starting,
{
    states_only_go_on(states, i, j);
}

/// Every state has its place in a life: it is reached only from those that come before it, and the
/// last one is never left.
pub proof fn states_come_in_their_order(a: SandboxState, b: SandboxState)
    requires
        a != b,
        may_follow(a, b),
    ensures
        !(b is Created),
        b is Starting ==> a is Created,
        b is Running ==> a is Starting,
        b is Failed ==> a is Starting,
        !(a is Stopped),
        a is Stopping ==> b is Stopped,
{
}

} // verus!
