//! A model of readers and writers sharing a payload through the
//! reader/writer lock, with each write made in two halves, and the proof
//! that a reader always observes the last completed write, whole.
use vstd::prelude::*;
use crate::rwlock::{admits_reader, FREE, WRITER};

verus! {

/// What an agent does under the lock.
pub enum Role {
    /// Takes shared access, reads the two halves, leaves.
    Reader,
    /// Takes exclusive access, writes its value into both halves, leaves.
    Writer,
}

/// Where an agent stands in one access.
pub enum Phase {
    /// Not holding the lock; the next step tries to acquire it.
    Idle,
    /// Holding the lock; the next step handles the first half.
    Holding,
    /// First half handled; the next step handles the second half.
    Half,
    /// Both halves handled; the next step releases the lock.
    Full,
}

/// One execution context.
pub struct Agent {
    pub role: Role,
    pub phase: Phase,
    /// A writer's value; the first half a reader read.
    pub first: int,
    /// The second half a reader read.
    pub second: int,
}

/// The lock word, the payload's two halves, the agents, and (for the
/// statement only) the value of the last write that completed.
pub struct Shared {
    pub word: int,
    pub first: int,
    pub second: int,
    pub committed: int,
    pub agents: Seq<Agent>,
}

/// A free lock around a payload holding `value` in both halves.
pub open spec fn start(agents: Seq<Agent>, value: int) -> Shared {
    Shared { word: FREE as int, first: value, second: value, committed: value, agents }
}

/// Idle agents.
pub open spec fn all_idle(agents: Seq<Agent>) -> bool {
    forall|i: int| 0 <= i < agents.len() ==> (#[trigger] agents[i]).phase is Idle
}

/// One atomic step of agent `i` (an out-of-range index is a no-op). An
/// idle agent whose acquisition the word does not admit keeps spinning: a
/// reader needs a word that admits a reader, a writer needs `FREE`.
pub open spec fn act(s: Shared, i: int) -> Shared {
    if 0 <= i < s.agents.len() {
        let a = s.agents[i];
        match (a.role, a.phase) {
            (Role::Reader, Phase::Idle) => if 0 <= s.word < isize::MAX && admits_reader(
                s.word as isize,
            ) {
                Shared {
                    word: s.word + 1,
                    agents: s.agents.update(i, Agent { phase: Phase::Holding, ..a }),
                    ..s
                }
            } else {
                s
            },
            (Role::Reader, Phase::Holding) => Shared {
                agents: s.agents.update(i, Agent { phase: Phase::Half, first: s.first, ..a }),
                ..s
            },
            (Role::Reader, Phase::Half) => Shared {
                agents: s.agents.update(i, Agent { phase: Phase::Full, second: s.second, ..a }),
                ..s
            },
            (Role::Reader, Phase::Full) => Shared {
                word: s.word - 1,
                agents: s.agents.update(i, Agent { phase: Phase::Idle, ..a }),
                ..s
            },
            (Role::Writer, Phase::Idle) => if s.word == FREE {
                Shared {
                    word: WRITER as int,
                    agents: s.agents.update(i, Agent { phase: Phase::Holding, ..a }),
                    ..s
                }
            } else {
                s
            },
            (Role::Writer, Phase::Holding) => Shared {
                first: a.first,
                agents: s.agents.update(i, Agent { phase: Phase::Half, ..a }),
                ..s
            },
            (Role::Writer, Phase::Half) => Shared {
                second: a.first,
                agents: s.agents.update(i, Agent { phase: Phase::Full, ..a }),
                ..s
            },
            (Role::Writer, Phase::Full) => Shared {
                word: FREE as int,
                committed: a.first,
                agents: s.agents.update(i, Agent { phase: Phase::Idle, ..a }),
                ..s
            },
        }
    } else {
        s
    }
}

/// The state after the agents named by `schedule` act in that order.
pub open spec fn play(s: Shared, schedule: Seq<int>) -> Shared
    decreases schedule.len(),
{
    if schedule.len() == 0 {
        s
    } else {
        play(act(s, schedule[0]), schedule.drop_first())
    }
}

/// Every reader that has read a half read the last completed write, and
/// one that has read both halves read the same write in both.
pub open spec fn readers_see_committed(s: Shared) -> bool {
    forall|i: int| 0 <= i < s.agents.len() && (#[trigger] s.agents[i]).role is Reader ==> {
        &&& (s.agents[i].phase is Half || s.agents[i].phase is Full) ==> s.agents[i].first
            == s.committed
        &&& s.agents[i].phase is Full ==> s.agents[i].second == s.committed
    }
}

spec fn busy(a: Agent) -> bool {
    !(a.phase is Idle)
}

spec fn reading(a: Agent) -> int {
    if a.role is Reader && busy(a) {
        1
    } else {
        0
    }
}

spec fn readers_in(agents: Seq<Agent>) -> int
    decreases agents.len(),
{
    if agents.len() == 0 {
        0
    } else {
        readers_in(agents.drop_last()) + reading(agents.last())
    }
}

spec fn writer_out(s: Shared) -> bool {
    forall|i: int| 0 <= i < s.agents.len() ==> !((#[trigger] s.agents[i]).role is Writer && busy(
        s.agents[i],
    ))
}

spec fn coherent(s: Shared) -> bool {
    &&& -1 <= s.word <= isize::MAX
    &&& s.word == WRITER ==> forall|i: int, j: int|
        0 <= i < s.agents.len() && 0 <= j < s.agents.len() && busy(#[trigger] s.agents[i]) && busy(
            #[trigger] s.agents[j],
        ) ==> i == j
    &&& s.word == WRITER ==> forall|i: int|
        0 <= i < s.agents.len() && busy(#[trigger] s.agents[i]) ==> s.agents[i].role is Writer
    &&& s.word >= 0 ==> writer_out(s) && s.word == readers_in(s.agents)
    &&& writer_out(s) ==> s.first == s.committed && s.second == s.committed
    &&& forall|i: int|
        0 <= i < s.agents.len() && (#[trigger] s.agents[i]).role is Writer && (
        s.agents[i].phase is Half || s.agents[i].phase is Full) ==> s.first == s.agents[i].first
    &&& forall|i: int|
        0 <= i < s.agents.len() && (#[trigger] s.agents[i]).role is Writer
            && s.agents[i].phase is Full ==> s.second == s.agents[i].first
    &&& readers_see_committed(s)
}

proof fn readers_in_update(agents: Seq<Agent>, i: int, a: Agent)
    requires
        0 <= i < agents.len(),
    ensures
        readers_in(agents.update(i, a)) == readers_in(agents) - reading(agents[i]) + reading(a),
    decreases agents.len(),
{
    let u = agents.update(i, a);
    if i == agents.len() - 1 {
        assert(u.drop_last() =~= agents.drop_last());
    } else {
        readers_in_update(agents.drop_last(), i, a);
        assert(u.drop_last() =~= agents.drop_last().update(i, a));
    }
}

proof fn readers_in_none(agents: Seq<Agent>)
    requires
        forall|i: int| 0 <= i < agents.len() ==> reading(#[trigger] agents[i]) == 0,
    ensures
        readers_in(agents) == 0,
    decreases agents.len(),
{
    if agents.len() > 0 {
        let init = agents.drop_last();
        assert forall|i: int| 0 <= i < init.len() implies reading(#[trigger] init[i]) == 0 by {
            assert(init[i] == agents[i]);
        }
        readers_in_none(init);
        assert(reading(agents.last()) == 0);
    }
}

proof fn readers_in_bounds(agents: Seq<Agent>)
    ensures
        readers_in(agents) >= 0,
        readers_in(agents) == 0 ==> forall|i: int|
            0 <= i < agents.len() ==> reading(#[trigger] agents[i]) == 0,
    decreases agents.len(),
{
    if agents.len() > 0 {
        let init = agents.drop_last();
        readers_in_bounds(init);
        if readers_in(agents) == 0 {
            assert(reading(agents.last()) == 0);
            assert forall|i: int| 0 <= i < agents.len() implies reading(#[trigger] agents[i]) == 0 by {
                if i < agents.len() - 1 {
                    assert(agents[i] == init[i]);
                }
            }
        }
    }
}

proof fn act_keeps_coherent(s: Shared, i: int)
    requires
        coherent(s),
    ensures
        coherent(act(s, i)),
        act(s, i).agents.len() == s.agents.len(),
{
    if 0 <= i < s.agents.len() {
        let a = s.agents[i];
        let t = act(s, i);
        let b = t.agents[i];
        readers_in_update(s.agents, i, b);
        readers_in_bounds(s.agents);
        readers_in_bounds(t.agents);
        assert forall|j: int| 0 <= j < t.agents.len() && j != i implies #[trigger] t.agents[j]
            == s.agents[j] by {}
        if busy(a) {
            if s.word >= 0 {
                assert(a.role is Reader);
            } else {
                assert(s.word == WRITER);
                assert(a.role is Writer);
                assert forall|j: int| 0 <= j < s.agents.len() implies reading(
                    #[trigger] s.agents[j],
                ) == 0 by {
                    if busy(s.agents[j]) {
                        assert(s.agents[j].role is Writer);
                    }
                }
            }
        }
        if a.role is Writer && a.phase is Idle && s.word == FREE {
            assert forall|j: int| 0 <= j < s.agents.len() implies !busy(#[trigger] s.agents[j]) by {
                assert(reading(s.agents[j]) == 0);
            }
        }
        if a.role is Writer && a.phase is Full {
            assert forall|j: int| 0 <= j < t.agents.len() implies !busy(#[trigger] t.agents[j]) by {
                if j != i {
                    assert(busy(s.agents[i]));
                }
            }
            assert forall|j: int| 0 <= j < t.agents.len() implies reading(#[trigger] t.agents[j])
                == 0 by {
                assert(!busy(t.agents[j]));
            }
            readers_in_none(t.agents);
        }
    }
}

proof fn play_keeps_coherent(s: Shared, schedule: Seq<int>)
    requires
        coherent(s),
    ensures
        coherent(play(s, schedule)),
        play(s, schedule).agents.len() == s.agents.len(),
    decreases schedule.len(),
{
    if schedule.len() > 0 {
        act_keeps_coherent(s, schedule[0]);
        play_keeps_coherent(act(s, schedule[0]), schedule.drop_first());
    }
}

/// A value written under the write lock is observed unchanged by readers
/// that acquire the lock afterwards: starting from idle agents around a
/// payload holding `value`, under every interleaving of the agents' atomic
/// steps, each half that a reader reads under the read lock is the value of
/// the last completed write (or `value` before any), never a half-written
/// mix of two writes.
pub proof fn readers_observe_last_write(agents: Seq<Agent>, value: int, schedule: Seq<int>)
    requires
        all_idle(agents),
    ensures
        readers_see_committed(play(start(agents, value), schedule)),
{
    let s0 = start(agents, value);
    assert forall|i: int| 0 <= i < agents.len() implies reading(#[trigger] agents[i]) == 0 by {}
    readers_in_none(agents);
    play_keeps_coherent(s0, schedule);
}

/// Readers and writers exclude one another: under every interleaving, a
/// writer between its acquisition and its release is the only agent there,
/// while any number of readers may be there together, the lock word then
/// never below zero.
pub proof fn writer_alone(agents: Seq<Agent>, value: int, schedule: Seq<int>)
    requires
        all_idle(agents),
    ensures
        forall|i: int, j: int|
            0 <= i < agents.len() && 0 <= j < agents.len() && (#[trigger] play(
                start(agents, value),
                schedule,
            ).agents[i]).role is Writer && !(play(start(agents, value), schedule).agents[i].phase is Idle)
                && !((#[trigger] play(start(agents, value), schedule).agents[j]).phase is Idle) ==> i
                == j,
        -1 <= play(start(agents, value), schedule).word,
{
    let s0 = start(agents, value);
    assert forall|i: int| 0 <= i < agents.len() implies reading(#[trigger] agents[i]) == 0 by {}
    readers_in_none(agents);
    play_keeps_coherent(s0, schedule);
    let s = play(s0, schedule);
    assert forall|i: int, j: int|
        0 <= i < agents.len() && 0 <= j < agents.len() && (#[trigger] s.agents[i]).role is Writer
            && !(s.agents[i].phase is Idle) && !((#[trigger] s.agents[j]).phase is Idle) implies i
        == j by {
        assert(busy(s.agents[i]) && busy(s.agents[j]));
        assert(!writer_out(s));
    }
}

} // verus!
