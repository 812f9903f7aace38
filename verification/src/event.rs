//! The event ledger record: which inbound chat events were already
//! handled, so none is ever processed twice.

use vstd::prelude::*;

verus! {

/// A processed-event marker.  Its existence for an `id` means "do not
/// reprocess".
pub struct Event {
    pub id: String,
    pub event_type: String,
    pub handled: bool,
}

impl Clone for Event {
    fn clone(&self) -> (r: Self)
        ensures
            r == *self,
    {
        Event {
            id: self.id.clone(),
            event_type: self.event_type.clone(),
            handled: self.handled,
        }
    }
}

} // verus!
