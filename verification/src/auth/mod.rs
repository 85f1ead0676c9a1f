//! The SASL mechanisms: PLAIN, ANONYMOUS, and SCRAM-SHA-1.

pub mod anon;
pub mod plain;
pub mod scram;

pub use self::anon::AnonAuth;
pub use self::plain::PlainAuth;
pub use self::scram::ScramAuth;

use vstd::prelude::*;

verus! {

/// A SASL mechanism: `initial` produces the first client message,
/// `continuation` answers one server message.  Each mechanism states its
/// exact outcome in its `ens_initial` and `ens_continuation`.
pub trait Authenticator: Sized {
    /// What `initial` promises, relating the state before and after to the
    /// result.
    spec fn ens_initial(pre: Self, post: Self, r: Result<Vec<u8>, &'static str>) -> bool;

    /// What `continuation` promises, relating the state before and after
    /// and the server's bytes to the result.
    spec fn ens_continuation(
        pre: Self,
        post: Self,
        data: Seq<u8>,
        r: Result<Vec<u8>, &'static str>,
    ) -> bool;

    /// The first client message of the exchange.
    fn initial(&mut self) -> (r: Result<Vec<u8>, &'static str>)
        ensures
            Self::ens_initial(*old(self), *final(self), r),
    ;

    /// The next client message, owed after the server's `data`; an empty
    /// result means no further data is owed.
    fn continuation(&mut self, data: &[u8]) -> (r: Result<Vec<u8>, &'static str>)
        ensures
            Self::ens_continuation(*old(self), *final(self), data@, r),
    ;
}

} // verus!
