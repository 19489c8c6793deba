use vstd::prelude::*;

use crate::unit::{AcquisitionUnit, UnitView, opt_view};

verus! {

/// For each unit id, the unit itself while it is available, or nothing while
/// it is lent out (in flight on the shared channel, or held elsewhere).
pub struct OwnershipRegister {
    pub slots: Vec<Option<AcquisitionUnit>>,
}

/// What the register holds after taking unit `id`, and what the take returns.
pub open spec fn take_spec(reg: Seq<Option<UnitView>>, id: int) -> (Seq<Option<UnitView>>, Option<UnitView>) {
    if 0 <= id < reg.len() {
        (reg.update(id, None), reg[id])
    } else {
        (reg, None)
    }
}

/// Taking from an entry that is already empty returns nothing and changes
/// nothing; so a second take right after any take of the same id observes
/// absence and leaves the register exactly as the first left it.
pub proof fn lemma_take_twice(reg: Seq<Option<UnitView>>, id: int)
    ensures
        ({
            let (once, _) = take_spec(reg, id);
            take_spec(once, id) == (once, None::<UnitView>)
        }),
        0 <= id < reg.len() && reg[id] is None ==> take_spec(reg, id) == (reg, None::<UnitView>),
{
    if 0 <= id < reg.len() {
        let once = take_spec(reg, id).0;
        assert(once.update(id, None) =~= once);
        if reg[id] is None {
            assert(reg.update(id, None) =~= reg);
        }
    }
}

impl View for OwnershipRegister {
    type V = Seq<Option<UnitView>>;

    open spec fn view(&self) -> Seq<Option<UnitView>> {
        self.slots@.map_values(|u: Option<AcquisitionUnit>| opt_view(u))
    }
}

impl OwnershipRegister {
    /// A register with one empty entry per unit id `0..count`.
    pub fn new(count: usize) -> (r: OwnershipRegister)
        ensures
            r@ == Seq::new(count as nat, |i: int| None::<UnitView>),
    {
        let mut slots: Vec<Option<AcquisitionUnit>> = Vec::new();
        let mut k: usize = 0;
        while k < count
            invariant
                k <= count,
                slots@.len() == k,
                forall|i: int| 0 <= i < k ==> slots@[i] is None,
            decreases count - k,
        {
            slots.push(None);
            k = k + 1;
        }
        let r = OwnershipRegister { slots };
        assert(r@ =~= Seq::new(count as nat, |i: int| None::<UnitView>));
        r
    }

    /// Number of unit ids the register has an entry for.
    pub fn len(&self) -> (r: usize)
        ensures
            r == self@.len(),
    {
        self.slots.len()
    }

    /// Whether unit `id` is currently available.
    pub fn is_present(&self, id: usize) -> (r: bool)
        ensures
            r == (id < self@.len() && self@[id as int] is Some),
    {
        id < self.slots.len() && self.slots[id].is_some()
    }

    /// Removes and returns unit `id` if it is present; otherwise returns
    /// nothing and leaves the register as it was.
    pub fn take(&mut self, id: usize) -> (r: Option<AcquisitionUnit>)
        ensures
            (final(self)@, opt_view(r)) == take_spec(old(self)@, id as int),
    {
        if id < self.slots.len() {
            let r = self.slots.remove(id);
            self.slots.insert(id, None);
            assert(self@ =~= old(self)@.update(id as int, None));
            r
        } else {
            None
        }
    }

    /// Stores `unit` under `id`, handing back whatever was there before. An
    /// id the register has no entry for is refused and the unit handed back.
    pub fn put(&mut self, id: usize, unit: AcquisitionUnit) -> (r: Option<AcquisitionUnit>)
        ensures
            id < old(self)@.len() ==> final(self)@ == old(self)@.update(id as int, Some(unit@))
                && opt_view(r) == old(self)@[id as int],
            id >= old(self)@.len() ==> final(self)@ == old(self)@ && opt_view(r) == Some(unit@),
    {
        let ghost v = unit@;
        if id < self.slots.len() {
            let r = self.slots.remove(id);
            self.slots.insert(id, Some(unit));
            assert(self@ =~= old(self)@.update(id as int, Some(v)));
            r
        } else {
            Some(unit)
        }
    }
}

} // verus!
