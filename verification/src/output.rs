use crate::errors::Error;
use vstd::prelude::*;

verus! {

/// Where outbound wire lines go.  The engine writes its responses through
/// this trait; the host process implements it over its transport.
pub trait FilterOutput {
    fn send(&mut self, msg: &str) -> Result<(), Error>;
}

/// An output that discards everything.
pub struct NullOutput {}

impl Default for NullOutput {
    fn default() -> (r: NullOutput)
        ensures
            r == (NullOutput {  }),
    {
        NullOutput {  }
    }
}

impl FilterOutput for NullOutput {
    fn send(&mut self, _msg: &str) -> Result<(), Error> {
        Ok(())
    }
}

} // verus!
