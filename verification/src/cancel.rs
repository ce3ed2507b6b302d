//! The flag by which a search or a filter run is told to stop.

use std::sync::atomic::AtomicBool;
use std::sync::atomic::Ordering;
use std::sync::Arc;
use vstd::prelude::*;

verus! {

/// A flag that is not set.
pub fn new_flag() -> (flag: Arc<AtomicBool>) {
    Arc::new(AtomicBool::new(false))
}

/// Sets the flag. Whoever shares it sees it set when it next looks.
pub fn request_stop(flag: &AtomicBool) {
    flag.store(true, Ordering::Relaxed);
}

/// Whether the flag is set. Another thread may set it at any time, so
/// nothing is known of the answer.
pub fn stop_requested(flag: &AtomicBool) -> (stop: bool) {
    flag.load(Ordering::Relaxed)
}

} // verus!
