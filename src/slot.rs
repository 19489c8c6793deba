use vstd::prelude::*;

use crate::unit::{AcquisitionUnit, UnitView, opt_view};

verus! {

/// The single holding place for the unit whose transfer is in flight on the
/// shared channel. The hardware's own transfer handle stays with the driver
/// that started the transfer; the slot records which unit it belongs to.
pub struct TransferSlot {
    pub current: Option<AcquisitionUnit>,
}

impl View for TransferSlot {
    type V = Option<UnitView>;

    open spec fn view(&self) -> Option<UnitView> {
        opt_view(self.current)
    }
}

impl TransferSlot {
    /// An empty slot: nothing in flight.
    pub fn new() -> (r: TransferSlot)
        ensures
            r@ is None,
    {
        TransferSlot { current: None }
    }

    pub fn is_empty(&self) -> (r: bool)
        ensures
            r == (self@ is None),
    {
        self.current.is_none()
    }

    /// Id of the unit in flight, if any.
    pub fn armed_id(&self) -> (r: Option<usize>)
        ensures
            r == (match self@ {
                Some(u) => Some(u.id),
                None => None,
            }),
    {
        match &self.current {
            Some(u) => Some(u.id),
            None => None,
        }
    }

    /// The unit in flight, if any, left in place.
    pub fn peek(&self) -> (r: Option<&AcquisitionUnit>)
        ensures
            r is None <==> self@ is None,
            r matches Some(u) ==> self@ == Some(u@),
    {
        match &self.current {
            Some(u) => Some(u),
            None => None,
        }
    }

    /// Claims the unit in flight, leaving the slot empty.
    pub fn take(&mut self) -> (r: Option<AcquisitionUnit>)
        ensures
            opt_view(r) == old(self)@,
            final(self)@ is None,
    {
        self.current.take()
    }

    /// Places `unit` in the slot, handing back any previous occupant.
    pub fn store(&mut self, unit: AcquisitionUnit) -> (r: Option<AcquisitionUnit>)
        ensures
            final(self)@ == Some(unit@),
            opt_view(r) == old(self)@,
    {
        let prev = self.current.take();
        self.current = Some(unit);
        prev
    }
}

} // verus!
