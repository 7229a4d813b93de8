use vstd::prelude::*;

use crate::router::Router;

verus! {

/// Relies on `num_cpus::get`: the number of logical processor cores, always
/// at least 1.
#[verifier::external_body]
fn cpu_count() -> (r: usize)
    ensures
        r >= 1,
{
    num_cpus::get()
}

/// The server bootstrap: owns a built router until the embedding program
/// binds a listener, fans it out across one event loop per worker, and
/// shares the router read-only between them. Everything the workers do with
/// the router goes through resolution; no mutation happens after this
/// hand-off.
pub struct Sylph<H> {
    pub router: Router<H>,
}

impl<H: Copy> Sylph<H> {
    /// Wraps a router for serving. The router must be built: from here on
    /// it is read-only.
    pub fn new(router: Router<H>) -> (r: Sylph<H>)
        requires
            router.wf(),
            router.built(),
        ensures
            r.router == router,
    {
        Sylph { router }
    }

    /// How many workers the listener fans out to: one independent event
    /// loop per available processor core, never fewer than one.
    pub fn worker_count(&self) -> (r: usize)
        ensures
            r >= 1,
    {
        cpu_count()
    }
}

} // verus!
