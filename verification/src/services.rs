//! What the REST routes call.

use vstd::prelude::*;

verus! {

#[derive(Clone, Copy, Debug)]
pub struct Services {
    pub echo: EchoService,
}

impl Services {
    pub fn new() -> (r: Services)
        ensures
            r.echo == (EchoService {  }),
    {
        Services { echo: EchoService {  } }
    }
}

#[derive(Clone, Copy, Debug)]
pub struct EchoService {}

impl Default for EchoService {
    fn default() -> (r: EchoService)
        ensures
            r == (EchoService {  }),
    {
        EchoService {  }
    }
}

impl EchoService {
    /// Gives a message back as it came.
    pub fn echo(&self, message: String) -> (r: String)
        ensures
            r == message,
    {
        message
    }
}

} // verus!
