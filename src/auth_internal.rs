//! The internal authentication service's application and its shared
//! environment, which holds nothing of its own.
use vstd::prelude::*;

verus! {

/// The name under which the service registers.
pub const APPNAME: &'static str = "open-ils.rs-auth-internal";

/// Environment shared by all of the service's workers.
#[derive(Debug, Clone, Copy, PartialEq, Eq, Structural)]
pub struct RsAuthInternalEnv {}

impl RsAuthInternalEnv {
    /// The environment.
    pub fn new() -> (r: RsAuthInternalEnv)
        ensures
            r == (RsAuthInternalEnv {}),
    {
        RsAuthInternalEnv {}
    }
}

/// The service's application.
#[derive(Debug, Clone, Copy, PartialEq, Eq, Structural)]
pub struct RsAuthInternalApplication {}

impl RsAuthInternalApplication {
    /// The application.
    pub fn new() -> (r: RsAuthInternalApplication)
        ensures
            r == (RsAuthInternalApplication {}),
    {
        RsAuthInternalApplication {}
    }

    /// The service name.
    pub fn name(&self) -> (r: &'static str)
        ensures
            r@ == APPNAME@,
    {
        APPNAME
    }
}

} // verus!
