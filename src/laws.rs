use vstd::prelude::*;

use crate::schedule::cyclic_next;
use crate::system::{
    CompletionOutcome, SysView, TickOutcome, arm_step, can_arm, complete_step, sys_wf, tick_step,
    unit_count,
};
use crate::unit::{UnitState, UnitView};

verus! {

/// An event the subsystem reacts to.
pub enum Event {
    /// The scheduler's periodic tick (round-robin arming).
    Tick,
    /// A per-unit timer asking to arm one unit.
    Arm(usize),
    /// The hardware's completion signal, with the samples it delivered.
    Complete(Seq<u16>),
}

/// The state after one event.
pub open spec fn step(s: SysView, e: Event) -> SysView {
    match e {
        Event::Tick => tick_step(s).0,
        Event::Arm(id) => if id < unit_count(s) {
            arm_step(s, id as int).0
        } else {
            s
        },
        Event::Complete(d) => complete_step(s, d).0,
    }
}

/// The state after a sequence of events, in order.
pub open spec fn run(s: SysView, evs: Seq<Event>) -> SysView
    decreases evs.len(),
{
    if evs.len() == 0 {
        s
    } else {
        run(step(s, evs[0]), evs.drop_first())
    }
}

/// `o` holds unit `id` in the armed state.
pub open spec fn holds_armed(o: Option<UnitView>, id: usize) -> bool {
    match o {
        Some(u) => u.id == id && u.state == UnitState::Armed,
        None => false,
    }
}

/// Unit `id` is armed somewhere: in flight, or (wrongly) in the register.
pub open spec fn is_armed(s: SysView, id: usize) -> bool {
    ||| holds_armed(s.slot, id)
    ||| exists|i: int| 0 <= i < s.register.len() && holds_armed(#[trigger] s.register[i], id)
}

/// One event keeps the structural invariant.
pub proof fn lemma_step_wf(s: SysView, e: Event)
    requires
        sys_wf(s),
    ensures
        sys_wf(step(s, e)),
        unit_count(step(s, e)) == unit_count(s),
{
    match e {
        Event::Tick => {
            let t = arm_step(s, s.cursor as int).0;
            assert(t.register.len() == s.register.len());
        },
        Event::Arm(_) => {},
        Event::Complete(d) => {
            let t = complete_step(s, d).0;
            assert(t.register.len() == s.register.len());
        },
    }
}

/// Any sequence of events keeps the structural invariant.
pub proof fn lemma_run_wf(s: SysView, evs: Seq<Event>)
    requires
        sys_wf(s),
    ensures
        sys_wf(run(s, evs)),
        unit_count(run(s, evs)) == unit_count(s),
    decreases evs.len(),
{
    if evs.len() > 0 {
        lemma_step_wf(s, evs[0]);
        lemma_run_wf(step(s, evs[0]), evs.drop_first());
    }
}

/// Mutual exclusion: whatever ticks, arm requests and completion signals
/// arrive, in whatever order, at most one unit is armed at any instant.
pub proof fn lemma_at_most_one_armed(s: SysView, evs: Seq<Event>)
    requires
        sys_wf(s),
    ensures
        forall|a: usize, b: usize| is_armed(run(s, evs), a) && is_armed(run(s, evs), b) ==> a == b,
{
    lemma_run_wf(s, evs);
    let t = run(s, evs);
    assert forall|a: usize, b: usize| is_armed(t, a) && is_armed(t, b) implies a == b by {
        assert forall|i: int, x: usize| 0 <= i < t.register.len() implies !#[trigger] holds_armed(t.register[i], x) by {
            if t.register[i] is Some {
            }
        }
    }
}

/// No event is a completion signal.
pub open spec fn no_completion(evs: Seq<Event>) -> bool {
    forall|i: int| 0 <= i < evs.len() ==> !(#[trigger] evs[i] is Complete)
}

/// While a transfer is in flight, ticks and arm requests neither move nor
/// change the unit in flight, nor anything in the register.
pub proof fn lemma_in_flight_until_completion(s: SysView, evs: Seq<Event>)
    requires
        sys_wf(s),
        s.slot is Some,
        no_completion(evs),
    ensures
        run(s, evs).slot == s.slot,
        run(s, evs).register == s.register,
        run(s, evs).halted == s.halted,
    decreases evs.len(),
{
    if evs.len() > 0 {
        let e = evs[0];
        assert(!(evs[0] is Complete));
        lemma_step_wf(s, e);
        let rest = evs.drop_first();
        assert(no_completion(rest)) by {
            assert forall|i: int| 0 <= i < rest.len() implies !(#[trigger] rest[i] is Complete) by {
                assert(rest[i] == evs[i + 1]);
            }
        }
        lemma_in_flight_until_completion(step(s, e), rest);
    }
}

/// The cycle Idle, Armed, Retired, Idle is closed: a unit that is armed stays
/// in flight through any ticks and arm requests, and its completion signal
/// puts it back in the register, idle, with the delivered samples as its
/// buffer.
pub proof fn lemma_cycle_closed(s: SysView, id: usize, evs: Seq<Event>, samples: Seq<u16>)
    requires
        sys_wf(s),
        !s.halted,
        id < unit_count(s),
        can_arm(s, id as int),
        no_completion(evs),
        samples.len() == s.register[id as int]->Some_0.buffer.len(),
    ensures
        ({
            let u = s.register[id as int]->Some_0;
            let (s1, o1) = arm_step(s, id as int);
            let (s3, o3) = complete_step(run(s1, evs), samples);
            &&& o1 == TickOutcome::Armed { id }
            &&& s1.slot == Some(u.with_state(UnitState::Armed))
            &&& s1.register[id as int] is None
            &&& o3 == CompletionOutcome::Retired { id }
            &&& s3.register[id as int] == Some(u.retired_with(samples))
            &&& s3.slot is None
        }),
{
    let s1 = arm_step(s, id as int).0;
    lemma_step_wf(s, Event::Arm(id));
    lemma_in_flight_until_completion(s1, evs);
}

/// The cycle position `i` turns after `c`, among `n` units.
pub open spec fn rr_turn(c: nat, i: nat, n: nat) -> nat {
    if c + i < n { c + i } else { (c + i - n) as nat }
}

/// Nothing is in flight, every unit is available and the subsystem runs.
pub open spec fn quiescent(s: SysView) -> bool {
    &&& sys_wf(s)
    &&& !s.halted
    &&& s.slot is None
    &&& forall|i: int| 0 <= i < s.register.len() ==> #[trigger] s.register[i] is Some
}

/// Successive arm cycles: each a tick followed by the completion signal that
/// delivers the next entry of `fills`; the tick outcomes, in order.
pub open spec fn arm_cycles(s: SysView, fills: Seq<Seq<u16>>) -> (SysView, Seq<TickOutcome>)
    decreases fills.len(),
{
    if fills.len() == 0 {
        (s, Seq::empty())
    } else {
        let (s1, o) = tick_step(s);
        let s2 = complete_step(s1, fills[0]).0;
        let (s3, os) = arm_cycles(s2, fills.drop_first());
        (s3, seq![o] + os)
    }
}

/// `fills[i]` fits the buffer of the unit armed in the `i`-th cycle from `s`.
pub open spec fn fills_fit(s: SysView, fills: Seq<Seq<u16>>) -> bool {
    forall|i: int| 0 <= i < fills.len() ==> (#[trigger] fills[i]).len()
        == s.register[rr_turn(s.cursor, i as nat, unit_count(s)) as int]->Some_0.buffer.len()
}

proof fn lemma_arm_cycles_from(s: SysView, fills: Seq<Seq<u16>>)
    requires
        quiescent(s),
        fills.len() <= unit_count(s),
        fills_fit(s, fills),
    ensures
        arm_cycles(s, fills).1.len() == fills.len(),
        forall|i: int| 0 <= i < fills.len() ==> #[trigger] arm_cycles(s, fills).1[i]
            == (TickOutcome::Armed { id: rr_turn(s.cursor, i as nat, unit_count(s)) as usize }),
        quiescent(arm_cycles(s, fills).0),
        unit_count(arm_cycles(s, fills).0) == unit_count(s),
        arm_cycles(s, fills).0.cursor == rr_turn(s.cursor, fills.len(), unit_count(s)) % unit_count(s),
    decreases fills.len(),
{
    let n = unit_count(s);
    let c = s.cursor;
    if fills.len() > 0 {
        let (s1, o) = tick_step(s);
        let s2 = complete_step(s1, fills[0]).0;
        lemma_step_wf(s, Event::Tick);
        lemma_step_wf(s1, Event::Complete(fills[0]));
        assert(rr_turn(c, 0, n) == c);
        assert(o == TickOutcome::Armed { id: c as usize });
        assert(s2.cursor == cyclic_next(c, n));
        assert(quiescent(s2)) by {
            assert forall|i: int| 0 <= i < s2.register.len() implies #[trigger] s2.register[i] is Some by {
                if i != c {
                    assert(s.register[i] is Some);
                }
            }
        }
        let rest = fills.drop_first();
        assert(fills_fit(s2, rest)) by {
            assert forall|i: int| 0 <= i < rest.len() implies (#[trigger] rest[i]).len()
                == s2.register[rr_turn(s2.cursor, i as nat, n) as int]->Some_0.buffer.len() by {
                assert(rest[i] == fills[i + 1]);
                assert(rr_turn(s2.cursor, i as nat, n) == rr_turn(c, (i + 1) as nat, n));
                assert(fills[i + 1].len() == s.register[rr_turn(c, (i + 1) as nat, n) as int]->Some_0.buffer.len());
            }
        }
        lemma_arm_cycles_from(s2, rest);
        let os = arm_cycles(s2, rest).1;
        assert forall|i: int| 0 <= i < fills.len() implies #[trigger] arm_cycles(s, fills).1[i]
            == (TickOutcome::Armed { id: rr_turn(c, i as nat, n) as usize }) by {
            if i > 0 {
                assert(arm_cycles(s, fills).1[i] == os[i - 1]);
                assert(rr_turn(s2.cursor, (i - 1) as nat, n) == rr_turn(c, i as nat, n));
            }
        }
    } else {
        assert(c % n == c) by (nonlinear_arith)
            requires c < n;
    }
}

/// Some outcome in `os` arms unit `id`.
pub open spec fn visits(os: Seq<TickOutcome>, id: usize) -> bool {
    exists|i: int| 0 <= i < os.len() && os[i] == (TickOutcome::Armed { id })
}

/// Round-robin fairness: from a quiescent state, as many successful arm
/// cycles as there are units arm every unit exactly once, in the fixed order
/// that starts at the current turn, and leave the subsystem quiescent with
/// the turn back where it started.
pub proof fn lemma_round_robin_fair(s: SysView, fills: Seq<Seq<u16>>)
    requires
        quiescent(s),
        fills.len() == unit_count(s),
        fills_fit(s, fills),
    ensures
        ({
            let (t, os) = arm_cycles(s, fills);
            let n = unit_count(s);
            &&& os.len() == n
            &&& forall|i: int| 0 <= i < n ==> #[trigger] os[i]
                == (TickOutcome::Armed { id: rr_turn(s.cursor, i as nat, n) as usize })
            &&& forall|id: usize| id < n ==> #[trigger] visits(os, id)
            &&& forall|i: int, j: int| 0 <= i < n && 0 <= j < n && i != j ==> os[i] != os[j]
            &&& quiescent(t)
            &&& t.cursor == s.cursor
        }),
{
    let n = unit_count(s);
    let c = s.cursor;
    lemma_arm_cycles_from(s, fills);
    let os = arm_cycles(s, fills).1;
    assert(rr_turn(c, n, n) == c);
    assert(c % n == c) by (nonlinear_arith)
        requires c < n;
    assert forall|id: usize| id < n implies #[trigger] visits(os, id) by {
        let i: int = if id >= c { id - c } else { id + n - c };
        assert(os[i] == (TickOutcome::Armed { id: rr_turn(c, i as nat, n) as usize }));
    }
    assert forall|i: int, j: int| 0 <= i < n && 0 <= j < n && i != j implies os[i] != os[j] by {
        assert(os[i] == (TickOutcome::Armed { id: rr_turn(c, i as nat, n) as usize }));
        assert(os[j] == (TickOutcome::Armed { id: rr_turn(c, j as nat, n) as usize }));
    }
}

/// A completion signal while nothing is in flight is reported as unexpected
/// and changes nothing.
pub proof fn lemma_spurious_completion(s: SysView, samples: Seq<u16>)
    requires
        !s.halted,
        s.slot is None,
    ensures
        complete_step(s, samples) == (s, CompletionOutcome::UnexpectedCompletion),
{
}

/// `o` holds unit `id`, in any state.
pub open spec fn holds(o: Option<UnitView>, id: usize) -> bool {
    match o {
        Some(u) => u.id == id,
        None => false,
    }
}

/// Unit `a` is neither available in the register nor in flight: its
/// transfer never came back.
pub open spec fn lost(s: SysView, a: usize) -> bool {
    &&& a < unit_count(s)
    &&& s.register[a as int] is None
    &&& !holds(s.slot, a)
}

/// Every attempt to arm a lost unit is reported as a miss (busy, or a
/// configuration error once the miss limit is reached) and changes nothing
/// but that unit's miss count.
pub proof fn lemma_lost_unit_busy(s: SysView, a: usize)
    requires
        sys_wf(s),
        !s.halted,
        lost(s, a),
    ensures
        ({
            let (t, o) = arm_step(s, a as int);
            &&& o is ResourceBusy || o is ConfigurationError
            &&& t == (SysView { misses: s.misses.update(a as int, t.misses[a as int]), ..s })
        }),
{
}

/// A lost unit stays lost whatever events follow.
pub proof fn lemma_lost_unit_stays_lost(s: SysView, evs: Seq<Event>, a: usize)
    requires
        sys_wf(s),
        lost(s, a),
    ensures
        lost(run(s, evs), a),
    decreases evs.len(),
{
    if evs.len() > 0 {
        let e = evs[0];
        lemma_step_wf(s, e);
        let t = step(s, e);
        assert(lost(t, a)) by {
            match e {
                Event::Tick => {},
                Event::Arm(_) => {},
                Event::Complete(d) => {
                    if !s.halted && s.slot is Some && d.len() == s.slot->Some_0.buffer.len() {
                        assert(s.slot->Some_0.id != a);
                    }
                },
            }
        }
        lemma_lost_unit_stays_lost(t, evs.drop_first(), a);
    }
}

/// `s` with unit `u` back in the register under its id.
pub open spec fn with_restored(s: SysView, u: UnitView) -> SysView {
    SysView { register: s.register.update(u.id as int, Some(u)), ..s }
}

/// A lost unit leaves the others unaffected: arming another unit, and a
/// completion signal, come out exactly as they would with the lost unit idle
/// in the register, which they leave untouched.
pub proof fn lemma_lost_unit_isolated(s: SysView, u: UnitView, b: usize, samples: Seq<u16>)
    requires
        sys_wf(s),
        lost(s, u.id),
        u.state == UnitState::Idle,
        b < unit_count(s),
        b != u.id,
    ensures
        arm_step(with_restored(s, u), b as int)
            == (with_restored(arm_step(s, b as int).0, u), arm_step(s, b as int).1),
        complete_step(with_restored(s, u), samples)
            == (with_restored(complete_step(s, samples).0, u), complete_step(s, samples).1),
{
    let a = u.id as int;
    let t = with_restored(s, u);
    let (x, _) = arm_step(s, b as int);
    if !s.halted && can_arm(s, b as int) {
        assert(t.register.update(b as int, None) =~= x.register.update(a, Some(u)));
    }
    let (y, _) = complete_step(s, samples);
    if !s.halted && s.slot is Some && samples.len() == s.slot->Some_0.buffer.len() {
        let v = s.slot->Some_0;
        assert(v.id != a);
        assert(t.register.update(v.id as int, Some(v.retired_with(samples)))
            =~= y.register.update(a, Some(u)));
    }
}

} // verus!
