//! Side effects of the events of the synchronous API.
use vstd::prelude::*;

use crate::store::StoreEvent;

verus! {

/// A policy: it intercepts an event and, by its kind, produces side effects. A failure
/// is returned as an error.
pub trait Policy<Event, Error> {
    fn handle_event(&self, event: &StoreEvent<Event>) -> Result<(), Error>;
}

} // verus!
