//! The ANONYMOUS mechanism: no credentials at all.

use vstd::prelude::*;
use super::Authenticator;

verus! {

/// The ANONYMOUS authenticator; it sends nothing.
pub struct AnonAuth;

impl AnonAuth {
    /// A fresh ANONYMOUS authenticator.
    pub fn new() -> (r: AnonAuth) {
        AnonAuth
    }
}

impl Authenticator for AnonAuth {
    open spec fn ens_initial(pre: AnonAuth, post: AnonAuth, r: Result<Vec<u8>, &'static str>) -> bool {
        r matches Ok(d) && d@ == Seq::<u8>::empty()
    }

    open spec fn ens_continuation(
        pre: AnonAuth,
        post: AnonAuth,
        data: Seq<u8>,
        r: Result<Vec<u8>, &'static str>,
    ) -> bool {
        r matches Ok(d) && d@ == Seq::<u8>::empty()
    }

    fn initial(&mut self) -> (r: Result<Vec<u8>, &'static str>) {
        Ok(Vec::new())
    }

    fn continuation(&mut self, data: &[u8]) -> (r: Result<Vec<u8>, &'static str>) {
        Ok(Vec::new())
    }
}

} // verus!
