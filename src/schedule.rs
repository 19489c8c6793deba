use vstd::prelude::*;

verus! {

/// Largest representable instant.
pub const TIME_MAX: u64 = 0xffff_ffff_ffff_ffff;

/// A periodic timer: its next absolute deadline and its fixed period.
#[derive(Clone, Copy, Debug, PartialEq, Eq, Structural)]
pub struct ScheduleEntry {
    pub next_fire_time: u64,
    pub period: u64,
}

/// The deadline that follows `t` for a timer of period `p`, counted from the
/// previous scheduled time (never from the actual firing time), held at the
/// end of the clock's range.
pub open spec fn following_deadline(t: u64, p: u64) -> u64 {
    if t + p <= TIME_MAX {
        (t + p) as u64
    } else {
        TIME_MAX
    }
}

/// `i` is the entry that fires first: its deadline is the smallest, and among
/// equal deadlines its index is the lowest.
pub open spec fn is_earliest(entries: Seq<ScheduleEntry>, i: int) -> bool {
    &&& 0 <= i < entries.len()
    &&& forall|j: int| 0 <= j < entries.len() ==> entries[i].next_fire_time <= entries[j].next_fire_time
    &&& forall|j: int| 0 <= j < i ==> entries[i].next_fire_time < entries[j].next_fire_time
}

impl ScheduleEntry {
    /// A timer that first fires at `start + period`.
    pub fn new(start: u64, period: u64) -> (r: ScheduleEntry)
        ensures
            r.next_fire_time == following_deadline(start, period),
            r.period == period,
    {
        ScheduleEntry { next_fire_time: start.saturating_add(period), period }
    }

    /// Moves the deadline on by one period and returns the deadline that was
    /// just served.
    pub fn rearm(&mut self) -> (r: u64)
        ensures
            r == old(self).next_fire_time,
            final(self).next_fire_time == following_deadline(old(self).next_fire_time, old(self).period),
            final(self).period == old(self).period,
    {
        let served = self.next_fire_time;
        self.next_fire_time = served.saturating_add(self.period);
        served
    }
}

/// Timers that share one time base; the earliest deadline fires first.
pub struct DeadlineQueue {
    pub entries: Vec<ScheduleEntry>,
}

impl View for DeadlineQueue {
    type V = Seq<ScheduleEntry>;

    open spec fn view(&self) -> Seq<ScheduleEntry> {
        self.entries@
    }
}

impl DeadlineQueue {
    pub fn new() -> (r: DeadlineQueue)
        ensures
            r@ == Seq::<ScheduleEntry>::empty(),
    {
        DeadlineQueue { entries: Vec::new() }
    }

    /// Adds a timer and returns its index.
    pub fn add(&mut self, entry: ScheduleEntry) -> (r: usize)
        requires
            old(self)@.len() < usize::MAX,
        ensures
            final(self)@ == old(self)@.push(entry),
            r == old(self)@.len(),
    {
        let r = self.entries.len();
        self.entries.push(entry);
        r
    }

    pub fn len(&self) -> (r: usize)
        ensures
            r == self@.len(),
    {
        self.entries.len()
    }

    /// Index of the timer that fires first, if there is any timer.
    pub fn earliest(&self) -> (r: Option<usize>)
        ensures
            self@.len() == 0 ==> r is None,
            self@.len() > 0 ==> (r matches Some(i) && is_earliest(self@, i as int)),
    {
        if self.entries.len() == 0 {
            return None;
        }
        let mut best: usize = 0;
        let mut k: usize = 1;
        while k < self.entries.len()
            invariant
                1 <= k <= self@.len(),
                best < k,
                forall|j: int| 0 <= j < k ==> self@[best as int].next_fire_time <= self@[j].next_fire_time,
                forall|j: int| 0 <= j < best ==> self@[best as int].next_fire_time < self@[j].next_fire_time,
            decreases self@.len() - k,
        {
            if self.entries[k].next_fire_time < self.entries[best].next_fire_time {
                best = k;
            }
            k = k + 1;
        }
        Some(best)
    }

    /// Deadline of the timer that fires first, if there is any timer.
    pub fn next_deadline(&self) -> (r: Option<u64>)
        ensures
            self@.len() == 0 ==> r is None,
            self@.len() > 0 ==> exists|i: int| is_earliest(self@, i) && r == Some(self@[i].next_fire_time),
    {
        match self.earliest() {
            Some(i) => Some(self.entries[i].next_fire_time),
            None => None,
        }
    }

    /// At time `now`, fires the earliest timer if its deadline has come: it is
    /// re-armed one period after its previous deadline, and its index is
    /// returned. Otherwise nothing changes.
    pub fn fire_due(&mut self, now: u64) -> (r: Option<usize>)
        ensures
            r is None ==> final(self)@ == old(self)@,
            r is None ==> forall|j: int| 0 <= j < old(self)@.len() ==> now < old(self)@[j].next_fire_time,
            r matches Some(i) ==> {
                &&& is_earliest(old(self)@, i as int)
                &&& old(self)@[i as int].next_fire_time <= now
                &&& final(self)@ == old(self)@.update(i as int, ScheduleEntry {
                    next_fire_time: following_deadline(old(self)@[i as int].next_fire_time, old(self)@[i as int].period),
                    period: old(self)@[i as int].period,
                })
            },
    {
        match self.earliest() {
            None => None,
            Some(i) => {
                if self.entries[i].next_fire_time <= now {
                    let mut e = self.entries[i];
                    e.rearm();
                    self.entries.set(i, e);
                    Some(i)
                } else {
                    None
                }
            }
        }
    }
}

/// Cyclic choice over unit ids `0..count`.
pub struct RoundRobin {
    pub count: usize,
    pub cursor: usize,
}

/// The id after `c` in the cycle over `n` ids.
pub open spec fn cyclic_next(c: nat, n: nat) -> nat {
    if c + 1 < n { c + 1 } else { 0 }
}

impl RoundRobin {
    pub open spec fn wf(&self) -> bool {
        self.cursor < self.count
    }

    /// A cycle over `count` ids that starts at id 0.
    pub fn new(count: usize) -> (r: RoundRobin)
        requires
            count > 0,
        ensures
            r.wf(),
            r.count == count,
            r.cursor == 0,
    {
        RoundRobin { count, cursor: 0 }
    }

    /// Returns the id whose turn it is and passes the turn to the next one.
    pub fn next_id(&mut self) -> (r: usize)
        requires
            old(self).wf(),
        ensures
            final(self).wf(),
            r == old(self).cursor,
            final(self).count == old(self).count,
            final(self).cursor == cyclic_next(old(self).cursor as nat, old(self).count as nat),
    {
        let r = self.cursor;
        self.cursor = if self.cursor + 1 < self.count { self.cursor + 1 } else { 0 };
        r
    }
}

} // verus!
