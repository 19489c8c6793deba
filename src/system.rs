use vstd::prelude::*;

use crate::register::{OwnershipRegister, take_spec};
use crate::schedule::{RoundRobin, cyclic_next};
use crate::slot::TransferSlot;
use crate::unit::{AcquisitionUnit, UnitState, UnitView, opt_view};

verus! {

/// What one attempt to arm a unit came to.
#[derive(Clone, Copy, Debug, PartialEq, Eq, Structural)]
pub enum TickOutcome {
    /// The unit was taken from the register and its transfer started.
    Armed { id: usize },
    /// The unit, or the shared channel, has not finished its previous
    /// transfer; nothing was started. `misses` counts the consecutive misses.
    ResourceBusy { id: usize, misses: u64 },
    /// As `ResourceBusy`, but the misses have reached the configured limit:
    /// the period is shorter than the transfer takes.
    ConfigurationError { id: usize, misses: u64 },
    /// The subsystem stopped after an invariant violation.
    Halted,
}

/// What one completion signal came to.
#[derive(Clone, Copy, Debug, PartialEq, Eq, Structural)]
pub enum CompletionOutcome {
    /// The unit in flight got its samples and is idle in the register again.
    Retired { id: usize },
    /// The signal came while nothing was in flight; nothing changed.
    UnexpectedCompletion,
    /// The finished transfer does not fit the unit in flight; the subsystem
    /// has stopped.
    InvariantViolation { id: usize },
    /// The subsystem stopped earlier; nothing changed.
    Halted,
}

/// Model of the whole subsystem.
pub struct SysView {
    pub register: Seq<Option<UnitView>>,
    pub slot: Option<UnitView>,
    pub cursor: nat,
    pub misses: Seq<u64>,
    pub miss_limit: Option<u64>,
    pub halted: bool,
}

/// Register, transfer slot and scheduler state of one shared channel.
///
/// Every state change goes through a method taking `&mut self`: whoever
/// drives the subsystem (the periodic task and the completion interrupt)
/// holds it under one critical section per call, so no two contexts ever
/// observe a unit, the slot or the register half-updated.
pub struct Acquisition {
    pub register: OwnershipRegister,
    pub slot: TransferSlot,
    pub turn: RoundRobin,
    pub misses: Vec<u64>,
    pub miss_limit: Option<u64>,
    pub halted: bool,
}

/// Number of units the subsystem serves.
pub open spec fn unit_count(s: SysView) -> nat {
    s.register.len()
}

/// The structural invariant: every unit in the register is idle and filed
/// under its own id; the unit in flight, if any, is armed and absent from the
/// register.
pub open spec fn sys_wf(s: SysView) -> bool {
    &&& unit_count(s) > 0
    &&& unit_count(s) <= usize::MAX
    &&& s.cursor < unit_count(s)
    &&& s.misses.len() == unit_count(s)
    &&& forall|i: int| 0 <= i < s.register.len() && #[trigger] s.register[i] is Some ==> {
        &&& s.register[i]->Some_0.id == i
        &&& s.register[i]->Some_0.state == UnitState::Idle
    }
    &&& s.slot matches Some(u) ==> {
        &&& u.id < unit_count(s)
        &&& u.state == UnitState::Armed
        &&& s.register[u.id as int] is None
    }
}

/// One more consecutive miss, held at the counter's maximum.
pub open spec fn one_more_miss(m: u64) -> u64 {
    if m < u64::MAX { (m + 1) as u64 } else { m }
}

/// The report for a miss of unit `id` that makes `m` consecutive misses.
pub open spec fn busy_outcome(id: usize, m: u64, limit: Option<u64>) -> TickOutcome {
    match limit {
        Some(l) => if m >= l {
            TickOutcome::ConfigurationError { id, misses: m }
        } else {
            TickOutcome::ResourceBusy { id, misses: m }
        },
        None => TickOutcome::ResourceBusy { id, misses: m },
    }
}

/// Unit `id` can be armed: nothing is in flight and the unit is in the register.
pub open spec fn can_arm(s: SysView, id: int) -> bool {
    s.slot is None && s.register[id] is Some
}

/// An attempt to arm unit `id`.
pub open spec fn arm_step(s: SysView, id: int) -> (SysView, TickOutcome) {
    if s.halted {
        (s, TickOutcome::Halted)
    } else if can_arm(s, id) {
        (SysView {
            register: s.register.update(id, None),
            slot: Some(s.register[id]->Some_0.with_state(UnitState::Armed)),
            misses: s.misses.update(id, 0),
            ..s
        }, TickOutcome::Armed { id: id as usize })
    } else {
        let m = one_more_miss(s.misses[id]);
        (SysView { misses: s.misses.update(id, m), ..s }, busy_outcome(id as usize, m, s.miss_limit))
    }
}

/// One scheduler tick: an attempt to arm the unit whose turn it is; the turn
/// passes on whatever the attempt came to.
pub open spec fn tick_step(s: SysView) -> (SysView, TickOutcome) {
    if s.halted {
        (s, TickOutcome::Halted)
    } else {
        let (t, o) = arm_step(s, s.cursor as int);
        (SysView { cursor: cyclic_next(s.cursor, unit_count(s)), ..t }, o)
    }
}

/// One completion signal, with the samples the finished transfer delivered.
pub open spec fn complete_step(s: SysView, samples: Seq<u16>) -> (SysView, CompletionOutcome) {
    if s.halted {
        (s, CompletionOutcome::Halted)
    } else {
        match s.slot {
            None => (s, CompletionOutcome::UnexpectedCompletion),
            Some(u) => if samples.len() != u.buffer.len() {
                (SysView { halted: true, ..s }, CompletionOutcome::InvariantViolation { id: u.id })
            } else {
                (SysView {
                    register: s.register.update(u.id as int, Some(u.retired_with(samples))),
                    slot: None,
                    ..s
                }, CompletionOutcome::Retired { id: u.id })
            },
        }
    }
}

/// Units that can start a subsystem: at least one, each idle and carrying
/// its own position as id.
pub open spec fn valid_units(us: Seq<UnitView>) -> bool {
    &&& us.len() > 0
    &&& forall|i: int| 0 <= i < us.len() ==> (#[trigger] us[i]).id == i && us[i].state == UnitState::Idle
}

/// The state right after start-up: every unit available, nothing in flight,
/// the first turn to unit 0, no misses.
pub open spec fn initial(us: Seq<UnitView>, miss_limit: Option<u64>) -> SysView {
    SysView {
        register: us.map_values(|u: UnitView| Some(u)),
        slot: None,
        cursor: 0,
        misses: Seq::new(us.len(), |i: int| 0u64),
        miss_limit,
        halted: false,
    }
}

impl View for Acquisition {
    type V = SysView;

    open spec fn view(&self) -> SysView {
        SysView {
            register: self.register@,
            slot: self.slot@,
            cursor: self.turn.cursor as nat,
            misses: self.misses@,
            miss_limit: self.miss_limit,
            halted: self.halted,
        }
    }
}

impl Acquisition {
    pub open spec fn wf(&self) -> bool {
        &&& self.turn.count == self.register@.len()
        &&& sys_wf(self@)
    }

    /// Starts the subsystem with `units`, which become available in the
    /// register under their ids. Refused (nothing) unless there is at least
    /// one unit, each idle and with its position as id. When `miss_limit` is
    /// given, that many consecutive misses of one unit are reported as a
    /// configuration error.
    pub fn new(units: Vec<AcquisitionUnit>, miss_limit: Option<u64>) -> (r: Option<Acquisition>)
        ensures
            r is Some <==> valid_units(units@.map_values(|u: AcquisitionUnit| u@)),
            r matches Some(a) ==> a.wf() && a@ == initial(units@.map_values(|u: AcquisitionUnit| u@), miss_limit),
    {
        let ghost us = units@.map_values(|u: AcquisitionUnit| u@);
        let n = units.len();
        if n == 0 {
            return None;
        }
        let mut k: usize = 0;
        while k < n
            invariant
                n == units@.len(),
                us == units@.map_values(|u: AcquisitionUnit| u@),
                k <= n,
                forall|i: int| 0 <= i < k ==> (#[trigger] us[i]).id == i && us[i].state == UnitState::Idle,
            decreases n - k,
        {
            if units[k].id != k || units[k].state != UnitState::Idle {
                assert(!((#[trigger] us[k as int]).id == k && us[k as int].state == UnitState::Idle));
                return None;
            }
            k = k + 1;
        }
        let mut rest = units;
        let mut slots: Vec<Option<AcquisitionUnit>> = Vec::new();
        let mut misses: Vec<u64> = Vec::new();
        let mut j: usize = 0;
        while j < n
            invariant
                n == us.len(),
                j <= n,
                rest@.len() == n - j,
                forall|i: int| 0 <= i < n - j ==> (#[trigger] rest@[i])@ == us[i + j],
                slots@.len() == j,
                forall|i: int| 0 <= i < j ==> opt_view(#[trigger] slots@[i]) == Some(us[i]),
                misses@ == Seq::new(j as nat, |i: int| 0u64),
            decreases n - j,
        {
            let u = rest.remove(0);
            slots.push(Some(u));
            misses.push(0u64);
            j = j + 1;
            assert(misses@ =~= Seq::new(j as nat, |i: int| 0u64));
        }
        let a = Acquisition {
            register: OwnershipRegister { slots },
            slot: TransferSlot::new(),
            turn: RoundRobin::new(n),
            misses,
            miss_limit,
            halted: false,
        };
        assert(a@.register =~= us.map_values(|u: UnitView| Some(u)));
        Some(a)
    }

    /// Number of units served.
    pub fn unit_count(&self) -> (r: usize)
        requires
            self.wf(),
        ensures
            r == unit_count(self@),
    {
        self.turn.count
    }

    pub fn is_halted(&self) -> (r: bool)
        ensures
            r == self@.halted,
    {
        self.halted
    }

    /// Id of the unit whose transfer is in flight, if any.
    pub fn armed_id(&self) -> (r: Option<usize>)
        ensures
            r == (match self@.slot {
                Some(u) => Some(u.id),
                None => None,
            }),
    {
        self.slot.armed_id()
    }

    /// The unit whose transfer is in flight, if any, left in place.
    pub fn in_flight(&self) -> (r: Option<&AcquisitionUnit>)
        ensures
            r is None <==> self@.slot is None,
            r matches Some(u) ==> self@.slot == Some(u@),
    {
        self.slot.peek()
    }

    /// Id of the unit the next tick will try to arm.
    pub fn current_turn(&self) -> (r: usize)
        ensures
            r == self@.cursor,
    {
        self.turn.cursor
    }

    /// Consecutive misses of unit `id` since it was last armed.
    pub fn misses_of(&self, id: usize) -> (r: u64)
        requires
            self.wf(),
            id < unit_count(self@),
        ensures
            r == self@.misses[id as int],
    {
        self.misses[id]
    }

    /// Unit `id` as it sits in the register, if it is available there.
    pub fn unit(&self, id: usize) -> (r: Option<&AcquisitionUnit>)
        ensures
            r is None <==> !(id < self@.register.len() && self@.register[id as int] is Some),
            r matches Some(u) ==> self@.register[id as int] == Some(u@),
    {
        if id < self.register.slots.len() {
            match &self.register.slots[id] {
                Some(u) => Some(u),
                None => None,
            }
        } else {
            None
        }
    }

    /// Lends unit `id` out of the register, if it is there; it cannot be armed
    /// until it is put back.
    pub fn take(&mut self, id: usize) -> (r: Option<AcquisitionUnit>)
        requires
            old(self).wf(),
        ensures
            final(self).wf(),
            final(self)@ == (SysView { register: take_spec(old(self)@.register, id as int).0, ..old(self)@ }),
            opt_view(r) == take_spec(old(self)@.register, id as int).1,
    {
        let r = self.register.take(id);
        assert(self@.register.len() == old(self)@.register.len());
        r
    }

    /// Returns a lent-out unit to the register. Accepted (nothing handed back)
    /// only when the unit is idle, its id names an empty entry of the
    /// register, and no transfer of that id is in flight; otherwise the unit is
    /// handed back and nothing changes.
    pub fn put(&mut self, unit: AcquisitionUnit) -> (r: Option<AcquisitionUnit>)
        requires
            old(self).wf(),
        ensures
            final(self).wf(),
            ({
                let s = old(self)@;
                let ok = unit@.id < unit_count(s) && unit@.state == UnitState::Idle
                    && s.register[unit@.id as int] is None
                    && !(s.slot matches Some(v) && v.id == unit@.id);
                &&& ok ==> r is None && final(self)@ == (SysView {
                    register: s.register.update(unit@.id as int, Some(unit@)),
                    ..s
                })
                &&& !ok ==> opt_view(r) == Some(unit@) && final(self)@ == s
            }),
    {
        let id = unit.id;
        if id < self.register.len() && unit.state == UnitState::Idle && !self.register.is_present(id)
            && self.slot.armed_id() != Some(id) {
            let _ = self.register.put(id, unit);
            None
        } else {
            Some(unit)
        }
    }

    /// Attempts to arm unit `id`: when nothing is in flight and the unit is in
    /// the register, it moves into the transfer slot as armed; otherwise its
    /// consecutive-miss count goes up and the miss is reported.
    pub fn arm(&mut self, id: usize) -> (r: TickOutcome)
        requires
            old(self).wf(),
            id < unit_count(old(self)@),
        ensures
            final(self).wf(),
            (final(self)@, r) == arm_step(old(self)@, id as int),
    {
        if self.halted {
            return TickOutcome::Halted;
        }
        if self.slot.is_empty() {
            match self.register.take(id) {
                Some(u) => {
                    let mut u = u;
                    u.state = UnitState::Armed;
                    let _ = self.slot.store(u);
                    self.misses.set(id, 0);
                    assert(self@.register =~= old(self)@.register.update(id as int, None));
                    return TickOutcome::Armed { id };
                },
                None => {
                    assert(self@.register =~= old(self)@.register);
                },
            }
        }
        let m = self.misses[id].saturating_add(1);
        self.misses.set(id, m);
        match self.miss_limit {
            Some(l) => if m >= l {
                TickOutcome::ConfigurationError { id, misses: m }
            } else {
                TickOutcome::ResourceBusy { id, misses: m }
            },
            None => TickOutcome::ResourceBusy { id, misses: m },
        }
    }

    /// One scheduler tick: attempts to arm the unit whose turn it is, then
    /// passes the turn on.
    pub fn tick(&mut self) -> (r: TickOutcome)
        requires
            old(self).wf(),
        ensures
            final(self).wf(),
            (final(self)@, r) == tick_step(old(self)@),
    {
        if self.halted {
            return TickOutcome::Halted;
        }
        let id = self.turn.cursor;
        let r = self.arm(id);
        let _ = self.turn.next_id();
        r
    }

    /// Handles a completion signal carrying the samples of the finished
    /// transfer.
    pub fn complete(&mut self, samples: Vec<u16>) -> (r: CompletionOutcome)
        requires
            old(self).wf(),
        ensures
            final(self).wf(),
            (final(self)@, r) == complete_step(old(self)@, samples@),
    {
        if self.halted {
            return CompletionOutcome::Halted;
        }
        match self.slot.take() {
            None => CompletionOutcome::UnexpectedCompletion,
            Some(u) => {
                let mut u = u;
                let id = u.id;
                if samples.len() != u.buffer.len() {
                    let _ = self.slot.store(u);
                    self.halted = true;
                    CompletionOutcome::InvariantViolation { id }
                } else {
                    u.state = UnitState::Retired;
                    u.buffer = samples;
                    u.state = UnitState::Idle;
                    let _ = self.register.put(id, u);
                    CompletionOutcome::Retired { id }
                }
            },
        }
    }
}

} // verus!
