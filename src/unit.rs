use vstd::prelude::*;

verus! {

/// Lifecycle state of an acquisition unit.
#[derive(Clone, Copy, Debug, PartialEq, Eq, Structural)]
pub enum UnitState {
    /// Held by the ownership register, available to be armed.
    Idle,
    /// Started on the shared channel, awaiting its completion signal.
    Armed,
    /// Finished on the hardware, being handed back (transient).
    Retired,
}

/// Which inputs a unit samples, in order, and with which sample time.
pub struct ConverterConfig {
    pub channels: Vec<u8>,
    pub sample_time: u8,
}

/// One converter configuration together with its fixed-size sample buffer.
pub struct AcquisitionUnit {
    pub id: usize,
    pub config: ConverterConfig,
    pub buffer: Vec<u16>,
    pub state: UnitState,
}

/// Mathematical model of an acquisition unit.
pub struct UnitView {
    pub id: usize,
    pub channels: Seq<u8>,
    pub sample_time: u8,
    pub buffer: Seq<u16>,
    pub state: UnitState,
}

impl UnitView {
    /// The same unit in another lifecycle state.
    pub open spec fn with_state(self, state: UnitState) -> UnitView {
        UnitView { state, ..self }
    }

    /// The same unit, back in the register with the samples of a transfer.
    pub open spec fn retired_with(self, samples: Seq<u16>) -> UnitView {
        UnitView { buffer: samples, state: UnitState::Idle, ..self }
    }
}

impl View for AcquisitionUnit {
    type V = UnitView;

    open spec fn view(&self) -> UnitView {
        UnitView {
            id: self.id,
            channels: self.config.channels@,
            sample_time: self.config.sample_time,
            buffer: self.buffer@,
            state: self.state,
        }
    }
}

/// View of an optional unit.
pub open spec fn opt_view(u: Option<AcquisitionUnit>) -> Option<UnitView> {
    match u {
        Some(x) => Some(x@),
        None => None,
    }
}

impl ConverterConfig {
    pub fn new(channels: Vec<u8>, sample_time: u8) -> (r: ConverterConfig)
        ensures
            r.channels@ == channels@,
            r.sample_time == sample_time,
    {
        ConverterConfig { channels, sample_time }
    }

    /// Number of conversions in one scan of this configuration.
    pub fn sequence_len(&self) -> (r: usize)
        ensures
            r == self.channels@.len(),
    {
        self.channels.len()
    }
}

impl AcquisitionUnit {
    /// A fresh idle unit whose buffer holds `buffer_len` zeroed samples.
    pub fn new(id: usize, config: ConverterConfig, buffer_len: usize) -> (r: AcquisitionUnit)
        ensures
            r@.id == id,
            r@.channels == config.channels@,
            r@.sample_time == config.sample_time,
            r@.buffer == Seq::new(buffer_len as nat, |i: int| 0u16),
            r@.state == UnitState::Idle,
    {
        let mut buffer: Vec<u16> = Vec::new();
        let mut k: usize = 0;
        while k < buffer_len
            invariant
                k <= buffer_len,
                buffer@ == Seq::new(k as nat, |i: int| 0u16),
            decreases buffer_len - k,
        {
            buffer.push(0u16);
            k = k + 1;
            assert(buffer@ =~= Seq::new(k as nat, |i: int| 0u16));
        }
        AcquisitionUnit { id, config, buffer, state: UnitState::Idle }
    }

    /// Number of sample words one transfer of this unit fills.
    pub fn buffer_len(&self) -> (r: usize)
        ensures
            r == self@.buffer.len(),
    {
        self.buffer.len()
    }
}

} // verus!
