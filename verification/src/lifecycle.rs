//! The lifecycle of one shared allocation, as a mathematical model: two
//! counters (strong and weak), the payload's liveness and the block's
//! liveness, driven by the operations the handles perform. The strong handles
//! are `MyArc` values (allocation, `clone`, drop, `downgrade`); the weak
//! handles are `MyWeak` values (`clone`, drop, `upgrade`). The proof functions
//! at the end state the laws the counter discipline obeys.

use vstd::prelude::*;

verus! {

/// One operation a handle can perform on its allocation.
pub enum HandleOp {
    /// A live strong handle is cloned.
    CloneStrong,
    /// A live strong handle is dropped.
    DropStrong,
    /// A weak handle is derived from a live strong handle.
    Downgrade,
    /// A live weak handle is cloned.
    CloneWeak,
    /// A live weak handle is dropped.
    DropWeak,
    /// A live weak handle attempts to become a strong handle.
    Upgrade,
}

/// The state of one allocation: the two counters as the handles keep them, and
/// what is still alive.
pub struct LifeState {
    /// The strong counter: raised by cloning and by a successful upgrade,
    /// lowered by dropping a strong handle.
    pub strong: nat,
    /// The weak counter: the live weak handles, plus one unit the block holds
    /// for itself as long as any strong handle lives.
    pub weak: nat,
    /// Whether the payload has not yet been destroyed.
    pub payload_live: bool,
    /// Whether the block's memory has not yet been released.
    pub block_live: bool,
    /// How many times the payload has been destroyed.
    pub destructions: nat,
}

/// The state right after allocation: one strong handle, the block's own weak
/// unit, and everything alive.
pub open spec fn initial_state() -> LifeState {
    LifeState { strong: 1, weak: 1, payload_live: true, block_live: true, destructions: 0 }
}

/// The number of live weak handles in a state: the weak counter without the
/// block's own unit.
pub open spec fn live_weak_handles(s: LifeState) -> int {
    s.weak - (if s.strong > 0 {
        1int
    } else {
        0
    })
}

/// Whether a handle may perform `op` in state `s`: the handle it acts through
/// must still be alive.
pub open spec fn enabled(s: LifeState, op: HandleOp) -> bool {
    match op {
        HandleOp::CloneStrong | HandleOp::DropStrong | HandleOp::Downgrade => s.strong > 0,
        HandleOp::CloneWeak | HandleOp::DropWeak | HandleOp::Upgrade => live_weak_handles(s) > 0,
    }
}

/// Whether an upgrade in state `s` hands back a strong handle: some strong
/// handle must still be alive.
pub open spec fn upgrade_succeeds(s: LifeState) -> bool {
    s.strong > 0
}

/// Whether exclusive access to the payload is granted in state `s`: exactly
/// one strong handle exists. This is the condition under which `try_mutate`
/// hands out a mutable borrow and `try_into_value` moves the payload out.
pub open spec fn unique_access(s: LifeState) -> bool {
    s.strong == 1
}

/// The state after one operation, following the destructors' discipline:
/// dropping the last strong handle destroys the payload and then releases the
/// block's own weak unit; releasing the last weak unit frees the block.
pub open spec fn step(s: LifeState, op: HandleOp) -> LifeState
    recommends
        enabled(s, op),
{
    match op {
        HandleOp::CloneStrong => LifeState { strong: s.strong + 1, ..s },
        HandleOp::Downgrade => LifeState { weak: s.weak + 1, ..s },
        HandleOp::CloneWeak => LifeState { weak: s.weak + 1, ..s },
        HandleOp::Upgrade => if upgrade_succeeds(s) {
            LifeState { strong: s.strong + 1, ..s }
        } else {
            s
        },
        HandleOp::DropStrong => if s.strong == 1 {
            LifeState {
                strong: 0,
                weak: (s.weak - 1) as nat,
                payload_live: false,
                block_live: s.weak > 1,
                destructions: s.destructions + 1,
            }
        } else {
            LifeState { strong: (s.strong - 1) as nat, ..s }
        },
        HandleOp::DropWeak => LifeState {
            weak: (s.weak - 1) as nat,
            block_live: s.weak > 1,
            ..s
        },
    }
}

/// The state after a whole trace of operations.
pub open spec fn apply(s: LifeState, ops: Seq<HandleOp>) -> LifeState
    decreases ops.len(),
{
    if ops.len() == 0 {
        s
    } else {
        step(apply(s, ops.drop_last()), ops.last())
    }
}

/// Whether every operation of the trace acts through a handle alive when its
/// turn comes.
pub open spec fn trace_enabled(s: LifeState, ops: Seq<HandleOp>) -> bool
    decreases ops.len(),
{
    ops.len() == 0 || (trace_enabled(s, ops.drop_last()) && enabled(
        apply(s, ops.drop_last()),
        ops.last(),
    ))
}

/// How one operation changes the number of live strong handles: cloning and a
/// successful upgrade create one, dropping destroys one.
pub open spec fn strong_handle_delta(s: LifeState, op: HandleOp) -> int {
    match op {
        HandleOp::CloneStrong => 1,
        HandleOp::DropStrong => -1,
        HandleOp::Upgrade => if upgrade_succeeds(s) {
            1int
        } else {
            0
        },
        _ => 0,
    }
}

/// How one operation changes the number of live weak handles: downgrading and
/// cloning create one, dropping destroys one.
pub open spec fn weak_handle_delta(op: HandleOp) -> int {
    match op {
        HandleOp::Downgrade => 1,
        HandleOp::CloneWeak => 1,
        HandleOp::DropWeak => -1,
        _ => 0,
    }
}

/// The number of live strong handles after a trace, counted purely from the
/// operations: allocation creates the first one.
pub open spec fn live_strong_after(ops: Seq<HandleOp>) -> int
    decreases ops.len(),
{
    if ops.len() == 0 {
        1
    } else {
        live_strong_after(ops.drop_last()) + strong_handle_delta(
            apply(initial_state(), ops.drop_last()),
            ops.last(),
        )
    }
}

/// The number of live weak handles after a trace, counted purely from the
/// operations: allocation creates none.
pub open spec fn live_weak_after(ops: Seq<HandleOp>) -> int
    decreases ops.len(),
{
    if ops.len() == 0 {
        0
    } else {
        live_weak_after(ops.drop_last()) + weak_handle_delta(ops.last())
    }
}

/// The internal consistency of a state that allocation establishes and every
/// enabled operation preserves.
pub open spec fn inv(s: LifeState) -> bool {
    &&& (s.payload_live <==> s.strong > 0)
    &&& s.destructions == if s.payload_live {
        0int
    } else {
        1
    }
    &&& (s.block_live <==> s.weak > 0)
    &&& (s.strong > 0 ==> s.weak >= 1)
}

/// The freshly allocated state is consistent.
pub proof fn lemma_initial_inv()
    ensures
        inv(initial_state()),
{
}

/// Consistency is preserved by every enabled operation.
pub proof fn lemma_step_inv(s: LifeState, op: HandleOp)
    requires
        inv(s),
        enabled(s, op),
    ensures
        inv(step(s, op)),
{
}

/// Consistency holds after every enabled trace.
pub proof fn lemma_trace_inv(ops: Seq<HandleOp>)
    requires
        trace_enabled(initial_state(), ops),
    ensures
        inv(apply(initial_state(), ops)),
    decreases ops.len(),
{
    if ops.len() > 0 {
        lemma_trace_inv(ops.drop_last());
        lemma_step_inv(apply(initial_state(), ops.drop_last()), ops.last());
    }
}

/// For every sequence of operations on live handles, the strong counter equals
/// the number of strong handles currently alive.
pub proof fn lemma_strong_count_exact(ops: Seq<HandleOp>)
    requires
        trace_enabled(initial_state(), ops),
    ensures
        apply(initial_state(), ops).strong == live_strong_after(ops),
    decreases ops.len(),
{
    if ops.len() > 0 {
        lemma_strong_count_exact(ops.drop_last());
    }
}

/// For every sequence of operations on live handles, the weak counter equals
/// the number of weak handles currently alive, plus one while any strong
/// handle is alive.
pub proof fn lemma_weak_count_exact(ops: Seq<HandleOp>)
    requires
        trace_enabled(initial_state(), ops),
    ensures
        apply(initial_state(), ops).weak == live_weak_after(ops) + (if apply(
            initial_state(),
            ops,
        ).strong > 0 {
            1int
        } else {
            0
        }),
    decreases ops.len(),
{
    if ops.len() > 0 {
        lemma_weak_count_exact(ops.drop_last());
        lemma_trace_inv(ops.drop_last());
    }
}

/// The payload is destroyed exactly once, exactly when the last strong handle
/// goes away, however many weak handles remain alive.
pub proof fn lemma_destroyed_exactly_once(ops: Seq<HandleOp>)
    requires
        trace_enabled(initial_state(), ops),
    ensures
        apply(initial_state(), ops).destructions <= 1,
        apply(initial_state(), ops).destructions == 1 <==> apply(initial_state(), ops).strong == 0,
{
    lemma_trace_inv(ops);
}

/// Once the strong counter has reached zero it stays there: no later enabled
/// operation revives the payload, so every later upgrade fails.
pub proof fn lemma_no_resurrection(ops: Seq<HandleOp>, more: Seq<HandleOp>)
    requires
        trace_enabled(initial_state(), ops),
        apply(initial_state(), ops).strong == 0,
        trace_enabled(initial_state(), ops + more),
    ensures
        apply(initial_state(), ops + more).strong == 0,
        !upgrade_succeeds(apply(initial_state(), ops + more)),
    decreases more.len(),
{
    if more.len() == 0 {
        assert(ops + more =~= ops);
    } else {
        assert((ops + more).drop_last() =~= ops + more.drop_last());
        lemma_no_resurrection(ops, more.drop_last());
    }
}

/// An upgrade hands back a strong handle exactly when some strong handle is
/// still alive, and the handle it hands back is counted from then on.
pub proof fn lemma_upgrade_iff_strong_live(ops: Seq<HandleOp>)
    requires
        trace_enabled(initial_state(), ops),
    ensures
        upgrade_succeeds(apply(initial_state(), ops)) <==> live_strong_after(ops) > 0,
        upgrade_succeeds(apply(initial_state(), ops)) ==> step(
            apply(initial_state(), ops),
            HandleOp::Upgrade,
        ).strong == live_strong_after(ops) + 1,
{
    lemma_strong_count_exact(ops);
}

/// Exclusive access — a mutable borrow from `try_mutate`, or reclaiming the
/// payload by value in `try_into_value` — is granted exactly when one single
/// strong handle is alive.
pub proof fn lemma_unique_access_iff_one_handle(ops: Seq<HandleOp>)
    requires
        trace_enabled(initial_state(), ops),
    ensures
        unique_access(apply(initial_state(), ops)) <==> live_strong_after(ops) == 1,
{
    lemma_strong_count_exact(ops);
}

/// The two countdowns are strictly ordered: the block's memory is never
/// released while the payload is still alive, and it is only released once
/// the weak counter has reached zero.
pub proof fn lemma_destroy_before_release(ops: Seq<HandleOp>)
    requires
        trace_enabled(initial_state(), ops),
    ensures
        !apply(initial_state(), ops).block_live ==> !apply(initial_state(), ops).payload_live,
        apply(initial_state(), ops).block_live <==> apply(initial_state(), ops).weak > 0,
{
    lemma_trace_inv(ops);
}

} // verus!
