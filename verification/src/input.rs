use crate::entry::Entry;
use crate::errors::Error;
use vstd::prelude::*;

verus! {

/// Where inbound records come from.  The host process implements this
/// trait over its transport and hands the engine one decoded record at a
/// time.
pub trait FilterInput {
    fn next(&mut self) -> Result<Entry, Error>;
}

} // verus!
