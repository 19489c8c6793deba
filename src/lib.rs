//! Time-multiplexing of one shared converter/DMA channel between several
//! acquisition units: an ownership register, a single transfer slot, a
//! round-robin scheduler with a periodic deadline queue, and the completion
//! handler that retires finished transfers.
pub mod unit;
pub mod register;
pub mod slot;
pub mod schedule;
pub mod system;
pub mod laws;
