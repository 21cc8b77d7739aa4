//! A model of several execution contexts that each add one to a shared
//! counter a fixed number of times, every addition made under the exclusive
//! lock, and the proof that no addition is lost whatever the interleaving.
use vstd::prelude::*;
use crate::mutex::exchange_acquires;

verus! {

/// Where a context stands in one locked increment.
pub enum Stage {
    /// Not holding the lock; the next step is an acquiring exchange.
    Idle,
    /// Holding the lock; the next step reads the counter.
    Holding,
    /// Holding the lock with the counter read; the next step stores it plus one.
    Loaded,
    /// Holding the lock with the increment stored; the next step releases.
    Stored,
}

/// One execution context.
pub struct Context {
    pub stage: Stage,
    /// The counter value read in the `Loaded` stage.
    pub read: int,
    /// Increments completed (stored and released).
    pub done: nat,
}

/// The lock flag, the counter it guards, and the contexts.
pub struct System {
    pub locked: bool,
    pub counter: int,
    pub contexts: Seq<Context>,
}

/// `n` idle contexts, a free lock and a counter at zero.
pub open spec fn initial(n: nat) -> System {
    System {
        locked: false,
        counter: 0,
        contexts: Seq::new(n, |i: int| Context { stage: Stage::Idle, read: 0, done: 0 }),
    }
}

/// One atomic step of context `i`, each context making `m` increments. An
/// idle context whose exchange finds the flag set keeps spinning (no
/// change); a context that finished, or an index out of range, is a no-op.
pub open spec fn step(s: System, i: int, m: nat) -> System {
    if 0 <= i < s.contexts.len() {
        let c = s.contexts[i];
        match c.stage {
            Stage::Idle => if c.done < m && exchange_acquires(s.locked) {
                System {
                    locked: true,
                    contexts: s.contexts.update(i, Context { stage: Stage::Holding, ..c }),
                    ..s
                }
            } else {
                s
            },
            Stage::Holding => System {
                contexts: s.contexts.update(
                    i,
                    Context { stage: Stage::Loaded, read: s.counter, ..c },
                ),
                ..s
            },
            Stage::Loaded => System {
                counter: c.read + 1,
                contexts: s.contexts.update(i, Context { stage: Stage::Stored, ..c }),
                ..s
            },
            Stage::Stored => System {
                locked: false,
                contexts: s.contexts.update(
                    i,
                    Context { stage: Stage::Idle, done: c.done + 1, ..c },
                ),
                ..s
            },
        }
    } else {
        s
    }
}

/// The system after the contexts named by `schedule` step in that order.
pub open spec fn run(s: System, schedule: Seq<int>, m: nat) -> System
    decreases schedule.len(),
{
    if schedule.len() == 0 {
        s
    } else {
        run(step(s, schedule[0], m), schedule.drop_first(), m)
    }
}

/// Increments a context has stored.
pub open spec fn stored(c: Context) -> int {
    c.done + if c.stage is Stored {
        1int
    } else {
        0int
    }
}

/// Increments stored by all contexts.
pub open spec fn total_stored(cs: Seq<Context>) -> int
    decreases cs.len(),
{
    if cs.len() == 0 {
        0
    } else {
        total_stored(cs.drop_last()) + stored(cs.last())
    }
}

/// Every context has made its `m` increments and released the lock.
pub open spec fn finished(s: System, m: nat) -> bool {
    forall|i: int| 0 <= i < s.contexts.len() ==> {
        &&& s.contexts[i].stage is Idle
        &&& s.contexts[i].done == m
    }
}

spec fn holds(c: Context) -> bool {
    !(c.stage is Idle)
}

spec fn inv(s: System, m: nat) -> bool {
    &&& forall|i: int| 0 <= i < s.contexts.len() ==> s.contexts[i].done <= m
    &&& forall|i: int|
        0 <= i < s.contexts.len() && holds(#[trigger] s.contexts[i]) ==> s.contexts[i].done < m
    &&& forall|i: int, j: int|
        0 <= i < s.contexts.len() && 0 <= j < s.contexts.len() && holds(#[trigger] s.contexts[i])
            && holds(#[trigger] s.contexts[j]) ==> i == j
    &&& s.locked <==> exists|i: int| 0 <= i < s.contexts.len() && holds(#[trigger] s.contexts[i])
    &&& forall|i: int|
        0 <= i < s.contexts.len() && (#[trigger] s.contexts[i]).stage is Loaded
            ==> s.contexts[i].read == s.counter
    &&& s.counter == total_stored(s.contexts)
}

proof fn total_stored_update(cs: Seq<Context>, i: int, c: Context)
    requires
        0 <= i < cs.len(),
    ensures
        total_stored(cs.update(i, c)) == total_stored(cs) - stored(cs[i]) + stored(c),
    decreases cs.len(),
{
    let u = cs.update(i, c);
    if i == cs.len() - 1 {
        assert(u.drop_last() =~= cs.drop_last());
    } else {
        total_stored_update(cs.drop_last(), i, c);
        assert(u.drop_last() =~= cs.drop_last().update(i, c));
    }
}

proof fn total_stored_bound(cs: Seq<Context>, m: nat)
    requires
        forall|i: int| 0 <= i < cs.len() ==> stored(#[trigger] cs[i]) <= m,
    ensures
        total_stored(cs) <= cs.len() * m,
        (forall|i: int| 0 <= i < cs.len() ==> stored(#[trigger] cs[i]) == m) ==> total_stored(cs)
            == cs.len() * m,
    decreases cs.len(),
{
    if cs.len() > 0 {
        let init = cs.drop_last();
        assert forall|i: int| 0 <= i < init.len() implies stored(#[trigger] init[i]) <= m by {
            assert(init[i] == cs[i]);
        }
        total_stored_bound(init, m);
        if forall|i: int| 0 <= i < cs.len() ==> stored(#[trigger] cs[i]) == m {
            assert forall|i: int| 0 <= i < init.len() implies stored(#[trigger] init[i]) == m by {
                assert(init[i] == cs[i]);
            }
        }
        assert(stored(cs.last()) <= m);
        assert((init.len() + 1) * m == init.len() * m + m) by (nonlinear_arith);
    }
}

proof fn total_stored_zero(n: nat)
    ensures
        total_stored(initial(n).contexts) == 0,
    decreases n,
{
    let cs = initial(n).contexts;
    if n > 0 {
        total_stored_zero((n - 1) as nat);
        assert(cs.drop_last() =~= initial((n - 1) as nat).contexts);
    }
}

proof fn step_keeps_inv(s: System, i: int, m: nat)
    requires
        inv(s, m),
    ensures
        inv(step(s, i, m), m),
{
    if 0 <= i < s.contexts.len() {
        let c = s.contexts[i];
        let t = step(s, i, m);
        if !(c.stage is Idle) || (c.done < m && exchange_acquires(s.locked)) {
            let c2 = t.contexts[i];
            total_stored_update(s.contexts, i, c2);
            assert forall|j: int| 0 <= j < t.contexts.len() && j != i implies #[trigger] t.contexts[j]
                == s.contexts[j] by {}
            if c.stage is Idle {
                assert forall|j: int| 0 <= j < s.contexts.len() implies !holds(
                    #[trigger] s.contexts[j],
                ) by {}
                assert(holds(t.contexts[i]));
            } else if c.stage is Stored {
                assert forall|j: int| 0 <= j < t.contexts.len() implies !holds(
                    #[trigger] t.contexts[j],
                ) by {
                    if j != i {
                        assert(holds(s.contexts[i]));
                    }
                }
            } else {
                assert(holds(t.contexts[i]));
                assert forall|j: int| 0 <= j < t.contexts.len() && j != i implies !((
                #[trigger] t.contexts[j]).stage is Loaded) by {
                    assert(holds(s.contexts[i]));
                    if holds(s.contexts[j]) {
                        assert(i == j);
                    }
                }
            }
        }
    }
}

proof fn run_keeps_inv(s: System, schedule: Seq<int>, m: nat)
    requires
        inv(s, m),
    ensures
        inv(run(s, schedule, m), m),
        run(s, schedule, m).contexts.len() == s.contexts.len(),
    decreases schedule.len(),
{
    if schedule.len() > 0 {
        step_keeps_inv(s, schedule[0], m);
        run_keeps_inv(step(s, schedule[0], m), schedule.drop_first(), m);
    }
}

/// No increment is lost: for `n` contexts making `m` locked increments each,
/// under every interleaving of their atomic steps the counter equals the
/// number of increments stored so far, never exceeds `n * m`, and once every
/// context has finished it is exactly `n * m`.
pub proof fn no_lost_updates(n: nat, m: nat, schedule: Seq<int>)
    ensures
        run(initial(n), schedule, m).counter == total_stored(run(initial(n), schedule, m).contexts),
        run(initial(n), schedule, m).counter <= n * m,
        finished(run(initial(n), schedule, m), m) ==> run(initial(n), schedule, m).counter == n
            * m,
{
    let s0 = initial(n);
    total_stored_zero(n);
    assert(inv(s0, m));
    run_keeps_inv(s0, schedule, m);
    let s = run(s0, schedule, m);
    assert forall|i: int| 0 <= i < s.contexts.len() implies stored(#[trigger] s.contexts[i]) <= m by {
        if holds(s.contexts[i]) {
            assert(s.contexts[i].done < m);
        }
    }
    total_stored_bound(s.contexts, m);
}

/// Mutual exclusion: under every interleaving, at most one context is past
/// its acquiring exchange and before its release, and the flag is set
/// exactly while one is; an exchange made while the flag is set takes
/// nothing.
pub proof fn one_holder_at_a_time(n: nat, m: nat, schedule: Seq<int>)
    ensures
        forall|i: int, j: int|
            0 <= i < n && 0 <= j < n && !((#[trigger] run(initial(n), schedule, m).contexts[i]).stage is Idle)
                && !((#[trigger] run(initial(n), schedule, m).contexts[j]).stage is Idle) ==> i == j,
        run(initial(n), schedule, m).locked <==> exists|i: int|
            0 <= i < n && !((#[trigger] run(initial(n), schedule, m).contexts[i]).stage is Idle),
{
    let s0 = initial(n);
    total_stored_zero(n);
    run_keeps_inv(s0, schedule, m);
    let s = run(s0, schedule, m);
    assert forall|i: int, j: int|
        0 <= i < n && 0 <= j < n && !((#[trigger] s.contexts[i]).stage is Idle) && !(
        (#[trigger] s.contexts[j]).stage is Idle) implies i == j by {
        assert(holds(s.contexts[i]) && holds(s.contexts[j]));
    }
    if s.locked {
        let i = choose|i: int| 0 <= i < s.contexts.len() && holds(#[trigger] s.contexts[i]);
        assert(!(s.contexts[i].stage is Idle));
    }
    if exists|i: int| 0 <= i < n && !((#[trigger] s.contexts[i]).stage is Idle) {
        let i = choose|i: int| 0 <= i < n && !((#[trigger] s.contexts[i]).stage is Idle);
        assert(holds(s.contexts[i]));
    }
}

} // verus!
