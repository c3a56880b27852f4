use std::sync::atomic::{AtomicBool, Ordering};
use std::sync::Arc;
use vstd::prelude::*;

verus! {

/// An atomic, thread shareable boolean switch.
///
/// Every clone shares the one underlying flag, which only ever goes from
/// 'off' to 'on'.
pub struct Switch(Arc<AtomicBool>);

impl Switch {
    /// A new switch set to 'off' (`false`).
    pub fn off() -> (r: Switch) {
        Switch(Arc::new(AtomicBool::new(false)))
    }

    /// Get the value of the switch.
    pub fn get(&self) -> (r: bool) {
        self.0.load(Ordering::Relaxed)
    }

    /// Flip the switch to the 'on' (`true`) position.
    pub fn flip_on(&self) {
        self.0.store(true, Ordering::Relaxed);
    }
}

impl Clone for Switch {
    /// A handle on the same flag, not a copy of its current value.
    fn clone(&self) -> (r: Switch) {
        Switch(Arc::clone(&self.0))
    }
}

} // verus!
