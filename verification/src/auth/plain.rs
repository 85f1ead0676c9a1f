//! The PLAIN mechanism (RFC 4616): the credentials in one NUL-separated
//! message.

use vstd::prelude::*;
use vstd::string::StringSliceAdditionalSpecFns;
use super::Authenticator;
use crate::strutil::extend_bytes;

verus! {

/// The PLAIN authenticator.
pub struct PlainAuth {
    pub authcid: String,
    pub authzid: Option<String>,
    pub passwd: String,
}

/// The single PLAIN message: `[authzid] NUL authcid NUL passwd`.
pub open spec fn spec_plain_message(
    authcid: Seq<char>,
    passwd: Seq<char>,
    authzid: Option<Seq<char>>,
) -> Seq<u8> {
    (match authzid {
        Some(z) => vstd::utf8::encode_utf8(z),
        None => Seq::<u8>::empty(),
    }) + seq![0u8] + vstd::utf8::encode_utf8(authcid) + seq![0u8] + vstd::utf8::encode_utf8(passwd)
}

impl PlainAuth {
    /// A fresh PLAIN authenticator for the given credentials.
    pub fn new(authcid: String, passwd: String, authzid: Option<String>) -> (r: PlainAuth)
        ensures
            r.authcid@ == authcid@,
            r.passwd@ == passwd@,
            crate::element::view_opt_string(r.authzid) == crate::element::view_opt_string(authzid),
    {
        PlainAuth { authcid, passwd, authzid }
    }
}

impl Authenticator for PlainAuth {
    open spec fn ens_initial(pre: PlainAuth, post: PlainAuth, r: Result<Vec<u8>, &'static str>) -> bool {
        &&& post == pre
        &&& r matches Ok(d) && d@ == spec_plain_message(
            pre.authcid@,
            pre.passwd@,
            crate::element::view_opt_string(pre.authzid),
        )
    }

    open spec fn ens_continuation(
        pre: PlainAuth,
        post: PlainAuth,
        data: Seq<u8>,
        r: Result<Vec<u8>, &'static str>,
    ) -> bool {
        &&& post == pre
        &&& r matches Ok(d) && d@ == Seq::<u8>::empty()
    }

    fn initial(&mut self) -> (r: Result<Vec<u8>, &'static str>) {
        let mut data: Vec<u8> = Vec::new();
        match &self.authzid {
            Some(z) => extend_bytes(&mut data, z.as_str().as_bytes()),
            None => {},
        }
        data.push(0);
        extend_bytes(&mut data, self.authcid.as_str().as_bytes());
        data.push(0);
        extend_bytes(&mut data, self.passwd.as_str().as_bytes());
        proof {
            assert(data@ =~= spec_plain_message(
                self.authcid@,
                self.passwd@,
                crate::element::view_opt_string(self.authzid),
            ));
        }
        Ok(data)
    }

    fn continuation(&mut self, data: &[u8]) -> (r: Result<Vec<u8>, &'static str>) {
        Ok(Vec::new())
    }
}

} // verus!
