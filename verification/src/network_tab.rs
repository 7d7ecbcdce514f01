//! State of the network tab; rendering it is the front end's work.

use vstd::prelude::*;

verus! {

/// Messages the network tab reacts to; none carries an effect yet (an
/// uninhabited set of messages cannot be declared here, so one inert
/// message stands in).
#[derive(Clone, Copy, Debug, PartialEq, Eq, Structural, Hash)]
pub enum NetworkMessage {
    Noop,
}

/// The network tab holds no state of its own; it renders the node's.
pub struct NetworkTab {}

impl NetworkTab {
    pub fn new() -> (r: NetworkTab)
        ensures
            r == (NetworkTab {  }),
    {
        NetworkTab {  }
    }
}

} // verus!
