//! The tenant a job runs for, carried alongside the job rather than kept in the background.

use vstd::prelude::*;

verus! {

/// The tenant context of the job at hand.
#[derive(Clone, Debug)]
pub struct TenantContext {
    org: Option<String>,
}

impl View for TenantContext {
    type V = Option<String>;

    closed spec fn view(&self) -> Option<String> {
        self.org
    }
}

impl TenantContext {
    /// A context bound to no tenant.
    pub fn new() -> (ctx: TenantContext)
        ensures
            ctx@ is None,
    {
        TenantContext { org: None }
    }

    /// Binds the context to `org`; whatever it was bound to is forgotten.
    pub fn set_org(&mut self, org: String)
        ensures
            final(self)@ == Some(org),
    {
        self.org = Some(org);
    }

    /// The tenant the context is bound to, where it is bound.
    pub fn get_org(&self) -> (org: Option<String>)
        ensures
            org == self@,
    {
        match &self.org {
            Some(org) => Some(org.clone()),
            None => None,
        }
    }

    /// Releases the context from its tenant.
    pub fn clear(&mut self)
        ensures
            final(self)@ is None,
    {
        self.org = None;
    }
}

} // verus!
