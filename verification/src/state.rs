//! What the REST routes share.

use crate::config::Config;
use crate::services::{EchoService, Services};
use vstd::prelude::*;

verus! {

pub struct AppState {
    pub config: Config,
    pub services: Services,
    /// When the server started, in nanoseconds on a clock that does not go back.
    pub started_at: u128,
}

impl AppState {
    pub fn new(config: Config, started_at: u128) -> (r: AppState)
        ensures
            r.config == config,
            r.services.echo == (EchoService {  }),
            r.started_at == started_at,
    {
        AppState { config, services: Services::new(), started_at }
    }
}

} // verus!
