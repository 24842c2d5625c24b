//! The controller role: a type the embedding application implements to
//! react to plain application-level events.

use vstd::prelude::*;
use crate::event::Event;

verus! {

/// A receiver of plain application-level events.
pub trait Controller {
    /// React to one event.
    fn handle_message(&mut self, message: Event);
}

} // verus!
