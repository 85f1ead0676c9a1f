//! The SCRAM-SHA-1 mechanism (RFC 5802, no channel binding): a linear
//! challenge–response handshake whose client messages are computed exactly
//! as stated, with the cryptographic primitives named and delegated.

use vstd::prelude::*;
use vstd::string::*;
use vstd::utf8::{encode_utf8, valid_utf8};
use super::Authenticator;
use crate::b64::{b64_of, b64_dec, b64_encode, b64_decode, view_opt_vec};
use crate::element::view_opt_string;
use crate::strutil::{push_char, extend_bytes, bytes_eq, bytes_prefix};

verus! {

/// The SHA-1 digest of a byte sequence; 20 bytes.
pub uninterp spec fn sha1_of(data: Seq<u8>) -> Seq<u8>;

/// The HMAC-SHA-1 tag over `data` under `key`; 20 bytes.
pub uninterp spec fn hmac_sha1_of(key: Seq<u8>, data: Seq<u8>) -> Seq<u8>;

/// The PBKDF2-HMAC-SHA-1 derivation of a 20-byte key.
pub uninterp spec fn pbkdf2_sha1_of(pass: Seq<u8>, salt: Seq<u8>, iter: int) -> Seq<u8>;

/// Relies on openssl's hash with MessageDigest::sha1: the digest is a
/// function of the data alone and is 20 bytes long.
#[verifier::external_body]
fn sha1(data: &[u8]) -> (r: Option<Vec<u8>>)
    ensures
        r matches Some(v) ==> v@ == sha1_of(data@) && v@.len() == 20,
{
    match openssl::hash::hash(openssl::hash::MessageDigest::sha1(), data) {
        Ok(d) => Some(d.to_vec()),
        Err(_) => None,
    }
}

/// Relies on openssl's HMAC (PKey::hmac, then Signer with
/// MessageDigest::sha1 and sign_oneshot_to_vec): the tag is a function of
/// key and data alone and is 20 bytes long.  PKey::hmac asserts that the
/// key fits a C int, so oversized keys are kept out.
#[verifier::external_body]
fn hmac_sha1(key: &[u8], data: &[u8]) -> (r: Option<Vec<u8>>)
    requires
        key@.len() <= 0x7fff_ffff,
    ensures
        r matches Some(v) ==> v@ == hmac_sha1_of(key@, data@) && v@.len() == 20,
{
    let pkey = match openssl::pkey::PKey::hmac(key) {
        Ok(k) => k,
        Err(_) => return None,
    };
    let mut signer = match openssl::sign::Signer::new(openssl::hash::MessageDigest::sha1(), &pkey) {
        Ok(s) => s,
        Err(_) => return None,
    };
    signer.sign_oneshot_to_vec(data).ok()
}

/// Relies on openssl's pkcs5::pbkdf2_hmac with MessageDigest::sha1: the
/// derived key is a function of password, salt and iteration count alone;
/// 20 bytes are requested and filled.  The lengths and the count must fit
/// a C int: pbkdf2_hmac unwraps the conversions.
#[verifier::external_body]
fn pbkdf2_sha1(pass: &[u8], salt: &[u8], iter: usize) -> (r: Option<Vec<u8>>)
    requires
        pass@.len() <= 0x7fff_ffff,
        salt@.len() <= 0x7fff_ffff,
        iter <= 0x7fff_ffff,
    ensures
        r matches Some(v) ==> v@ == pbkdf2_sha1_of(pass@, salt@, iter as int) && v@.len() == 20,
{
    let mut key = vec![0u8; 20];
    match openssl::pkcs5::pbkdf2_hmac(pass, salt, iter, openssl::hash::MessageDigest::sha1(), &mut key) {
        Ok(()) => Some(key),
        Err(_) => None,
    }
}

/// Relies on openssl's rand_bytes: a cryptographically random fill; nothing
/// is promised of the bytes beyond their number.  rand_bytes asserts that
/// the buffer fits a C int, so the count is bounded.
#[verifier::external_body]
fn rand_bytes_vec(n: usize) -> (r: Option<Vec<u8>>)
    requires
        n <= 0x7fff_ffff,
    ensures
        r matches Some(v) ==> v@.len() == n,
{
    let mut buf = vec![0u8; n];
    match openssl::rand::rand_bytes(&mut buf) {
        Ok(()) => Some(buf),
        Err(_) => None,
    }
}

/// Relies on str::from_utf8: it accepts exactly the valid UTF-8 byte
/// sequences.
#[verifier::external_body]
fn utf8_check(data: &[u8]) -> (r: bool)
    ensures
        r == valid_utf8(data@),
{
    core::str::from_utf8(data).is_ok()
}

/// Where the handshake stands.
pub enum State {
    Initial,
    WaitFirst(String, String),
    WaitFinal(Vec<u8>),
    Finished,
}

/// The SCRAM-SHA-1 authenticator.
pub struct ScramAuth {
    pub authcid: String,
    pub authzid: Option<String>,
    pub passwd: String,
    pub state: State,
}

/// A nonce character: printable ASCII from `!` to `}` other than the
/// comma, or `~` (the comma's replacement).
pub open spec fn nonce_char_ok(c: char) -> bool {
    (33 <= c as int <= 125 && c != ',') || c == '~'
}

/// A well-formed client nonce: 64 characters, each a nonce character.
pub open spec fn nonce_ok(cn: Seq<char>) -> bool {
    cn.len() == 64 && forall|i: int| 0 <= i < cn.len() ==> nonce_char_ok(#[trigger] cn[i])
}

/// The GS2 header: channel binding refused, with the optional
/// authorization identity.
pub open spec fn spec_gs2(authzid: Option<Seq<char>>) -> Seq<char> {
    match authzid {
        Some(z) => "n,a="@ + z + ","@,
        None => "n,,"@,
    }
}

/// The client-first-message-bare: `n=<authcid>,r=<cnonce>`.
pub open spec fn spec_cfmb(authcid: Seq<char>, cnonce: Seq<char>) -> Seq<char> {
    "n="@ + authcid + ",r="@ + cnonce
}

/// One field of the server-first-message, already split at the commas.
pub ghost struct ParseAcc {
    pub nonce: Option<Seq<u8>>,
    pub salt: Option<Seq<u8>>,
    pub iter: Option<u16>,
}

/// Index of the first comma at or after `pos`, or the length.
pub open spec fn spec_find_comma(data: Seq<u8>, pos: int) -> int
    decreases data.len() - pos,
{
    if pos < 0 || pos >= data.len() {
        data.len() as int
    } else if data[pos] == 44u8 {
        pos
    } else {
        spec_find_comma(data, pos + 1)
    }
}

/// The decimal value of a digit sequence.
pub open spec fn spec_digits_val(s: Seq<u8>) -> int
    decreases s.len(),
{
    if s.len() == 0 {
        0
    } else {
        spec_digits_val(s.drop_last()) * 10 + (s.last() - 48)
    }
}

/// Whether every byte is a decimal digit.
pub open spec fn spec_all_digits(s: Seq<u8>) -> bool {
    forall|i: int| 0 <= i < s.len() ==> 48 <= #[trigger] s[i] <= 57
}

/// A `u16` read as std's parser reads it: an optional `+`, then at least
/// one digit, and a value that fits.
pub open spec fn spec_parse_u16(s: Seq<u8>) -> Option<u16> {
    let t = if s.len() >= 1 && s[0] == 43 {
        s.drop_first()
    } else {
        s
    };
    if t.len() > 0 && spec_all_digits(t) && spec_digits_val(t) <= 65535 {
        Some(spec_digits_val(t) as u16)
    } else {
        None
    }
}

/// One step of reading the server-first-message: the fields are walked in
/// order, `r=`, `s=` and `i=` each overwrite what came before, an unusable
/// `s=` or `i=` stops the walk, and a mandatory extension `m=` is refused.
pub open spec fn spec_parse_fields(data: Seq<u8>, pos: int, acc: ParseAcc) -> Option<ParseAcc>
    decreases data.len() - pos,
{
    if pos < 0 || pos > data.len() {
        None
    } else if pos == data.len() {
        Some(acc)
    } else {
        let end = spec_find_comma(data, pos);
        let f = data.subrange(pos, end);
        let next = if end < data.len() {
            end + 1
        } else {
            end
        };
        let step = if f.len() >= 2 && f[0] == 114 && f[1] == 61 {
            Some(ParseAcc { nonce: Some(f.skip(2)), ..acc })
        } else if f.len() >= 2 && f[0] == 115 && f[1] == 61 {
            match b64_dec(f.skip(2)) {
                Some(v) => Some(ParseAcc { salt: Some(v), ..acc }),
                None => None,
            }
        } else if f.len() >= 2 && f[0] == 105 && f[1] == 61 {
            match spec_parse_u16(f.skip(2)) {
                Some(n) => Some(ParseAcc { iter: Some(n), ..acc }),
                None => None,
            }
        } else if f.len() >= 2 && f[0] == 109 && f[1] == 61 {
            None
        } else {
            Some(acc)
        };
        match step {
            None => None,
            Some(acc2) => if pos < next <= data.len() {
                spec_parse_fields(data, next, acc2)
            } else {
                None
            },
        }
    }
}

/// The server-first-message, parsed: nonce, salt and iteration count must
/// all be present and usable.
pub open spec fn spec_parse_server_first(data: Seq<u8>) -> Option<(Seq<u8>, Seq<u8>, u16)> {
    match spec_parse_fields(data, 0, ParseAcc { nonce: None, salt: None, iter: None }) {
        None => None,
        Some(acc) => match (acc.nonce, acc.salt, acc.iter) {
            (Some(n), Some(s), Some(i)) => Some((n, s, i)),
            _ => None,
        },
    }
}

/// The client-final-message-without-proof:
/// `c=<base64(gs2-header)>,r=<server nonce>`.
pub open spec fn spec_cfwp(authzid: Option<Seq<char>>, nonce: Seq<u8>) -> Seq<u8> {
    encode_utf8("c="@ + b64_of(encode_utf8(spec_gs2(authzid))) + ",r="@) + nonce
}

/// The AuthMessage the signatures are computed over.
pub open spec fn spec_auth_message(cfmb: Seq<char>, data: Seq<u8>, cfwp: Seq<u8>) -> Seq<u8> {
    encode_utf8(cfmb) + seq![44u8] + data + seq![44u8] + cfwp
}

/// Bytewise XOR of two sequences of equal length.
pub open spec fn spec_xor(a: Seq<u8>, b: Seq<u8>) -> Seq<u8> {
    Seq::new(a.len(), |i: int| a[i] ^ b[i])
}

/// The salted password.
pub open spec fn spec_salted_pw(passwd: Seq<char>, salt: Seq<u8>, iter: u16) -> Seq<u8> {
    pbkdf2_sha1_of(encode_utf8(passwd), salt, iter as int)
}

/// The client proof for the given handshake data.
pub open spec fn spec_client_proof(passwd: Seq<char>, salt: Seq<u8>, iter: u16, am: Seq<u8>) -> Seq<u8> {
    let sp = spec_salted_pw(passwd, salt, iter);
    let ck = hmac_sha1_of(sp, encode_utf8("Client Key"@));
    let sk = sha1_of(ck);
    let cs = hmac_sha1_of(sk, am);
    spec_xor(ck, cs)
}

/// The server signature the client verifies at the end.
pub open spec fn spec_server_sig(passwd: Seq<char>, salt: Seq<u8>, iter: u16, am: Seq<u8>) -> Seq<u8> {
    let sp = spec_salted_pw(passwd, salt, iter);
    let sk = hmac_sha1_of(sp, encode_utf8("Server Key"@));
    hmac_sha1_of(sk, am)
}

/// The whole client-final-message for a server-first-message that parsed
/// into `nonce`, `salt` and `iter`.
pub open spec fn spec_client_final(
    passwd: Seq<char>,
    authzid: Option<Seq<char>>,
    cfmb: Seq<char>,
    data: Seq<u8>,
    nonce: Seq<u8>,
    salt: Seq<u8>,
    iter: u16,
) -> Seq<u8> {
    let cfwp = spec_cfwp(authzid, nonce);
    let am = spec_auth_message(cfmb, data, cfwp);
    cfwp + encode_utf8(",p="@ + b64_of(spec_client_proof(passwd, salt, iter, am)))
}

/// What `initial` leaves behind on success: credentials kept, a fresh
/// well-formed nonce, the client-first-message-bare recorded, and the
/// output `gs2-header || client-first-message-bare`.
pub open spec fn scram_initial_ok(pre: ScramAuth, post: ScramAuth, r: Result<Vec<u8>, &'static str>) -> bool {
    &&& post.authcid@ == pre.authcid@
    &&& view_opt_string(post.authzid) == view_opt_string(pre.authzid)
    &&& post.passwd@ == pre.passwd@
    &&& match r {
        Ok(d) => {
            &&& post.state matches State::WaitFirst(cn, cfmb)
            &&& nonce_ok(cn@)
            &&& cfmb@ == spec_cfmb(pre.authcid@, cn@)
            &&& d@ == encode_utf8(spec_gs2(view_opt_string(pre.authzid))) + encode_utf8(cfmb@)
        },
        Err(_) => post == pre,
    }
}

/// What `continuation` in `WaitFirst` leaves behind: an error (and no
/// state change) on non-UTF-8 data, an unusable server-first-message or a
/// nonce that does not extend ours; otherwise, if the crypto calls
/// succeed, exactly the client-final-message, with the server signature
/// recorded for the final step.
pub open spec fn scram_first_ok(
    pre: ScramAuth,
    cn: Seq<char>,
    cfmb: Seq<char>,
    post: ScramAuth,
    data: Seq<u8>,
    r: Result<Vec<u8>, &'static str>,
) -> bool {
    let parsed = spec_parse_server_first(data);
    &&& post.authcid@ == pre.authcid@
    &&& view_opt_string(post.authzid) == view_opt_string(pre.authzid)
    &&& post.passwd@ == pre.passwd@
    &&& if !valid_utf8(data) || parsed is None {
        r is Err && post == pre
    } else {
        let (nonce, salt, iter) = parsed->0;
        if !(encode_utf8(cn).len() <= nonce.len() && nonce.subrange(
            0,
            encode_utf8(cn).len() as int,
        ) == encode_utf8(cn)) {
            r is Err && post == pre
        } else {
            match r {
                Ok(d) => {
                    &&& d@ == spec_client_final(
                        pre.passwd@,
                        view_opt_string(pre.authzid),
                        cfmb,
                        data,
                        nonce,
                        salt,
                        iter,
                    )
                    &&& post.state matches State::WaitFinal(sig) && sig@ == spec_server_sig(
                        pre.passwd@,
                        salt,
                        iter,
                        spec_auth_message(cfmb, data, spec_cfwp(view_opt_string(pre.authzid), nonce)),
                    )
                },
                Err(_) => post == pre,
            }
        }
    }
}

/// What `continuation` in `WaitFinal` leaves behind: the handshake
/// finishes exactly when the server hands back `v=<base64>` decoding to
/// the recorded server signature; everything else is an error and leaves
/// the state alone.
pub open spec fn scram_final_ok(
    pre: ScramAuth,
    sig: Seq<u8>,
    post: ScramAuth,
    data: Seq<u8>,
    r: Result<Vec<u8>, &'static str>,
) -> bool {
    let good = valid_utf8(data) && data.len() >= 2 && data[0] == 118 && data[1] == 61 && match b64_dec(
        data.skip(2),
    ) {
        Some(v) => v == sig,
        None => false,
    };
    &&& post.authcid@ == pre.authcid@
    &&& view_opt_string(post.authzid) == view_opt_string(pre.authzid)
    &&& post.passwd@ == pre.passwd@
    &&& if good {
        &&& r matches Ok(d) && d@ == Seq::<u8>::empty()
        &&& post.state is Finished
    } else {
        r is Err && post == pre
    }
}

/// The client-final-message is deterministic in the handshake inputs
/// (RFC 5802): two successful continuations from the same `WaitFirst`
/// state over the same server-first-message produce the same message and
/// record the same server signature.
pub proof fn lemma_client_final_deterministic(
    pre: ScramAuth,
    cn: Seq<char>,
    cfmb: Seq<char>,
    data: Seq<u8>,
    post1: ScramAuth,
    r1: Result<Vec<u8>, &'static str>,
    post2: ScramAuth,
    r2: Result<Vec<u8>, &'static str>,
)
    requires
        scram_first_ok(pre, cn, cfmb, post1, data, r1),
        scram_first_ok(pre, cn, cfmb, post2, data, r2),
    ensures
        r1 matches Ok(d1) ==> (r2 matches Ok(d2) ==> d1@ == d2@),
        (r1 is Ok && r2 is Ok) ==> (post1.state matches State::WaitFinal(s1) ==> (
            post2.state matches State::WaitFinal(s2) ==> s1@ == s2@)),
{
}

impl ScramAuth {
    /// A fresh SCRAM-SHA-1 authenticator for the given credentials.
    pub fn new(authcid: String, passwd: String, authzid: Option<String>) -> (r: ScramAuth)
        ensures
            r.authcid@ == authcid@,
            r.passwd@ == passwd@,
            view_opt_string(r.authzid) == view_opt_string(authzid),
            r.state is Initial,
    {
        ScramAuth { authcid, passwd, authzid, state: State::Initial }
    }

    /// Starts the exchange with the given client nonce instead of a random
    /// one, for reproducible exchanges; the output is
    /// `gs2-header || client-first-message-bare`.
    pub fn initial_with_cnonce(&mut self, cnonce: String) -> (r: Vec<u8>)
        ensures
            final(self).authcid@ == old(self).authcid@,
            view_opt_string(final(self).authzid) == view_opt_string(old(self).authzid),
            final(self).passwd@ == old(self).passwd@,
            ({
                let cfmb = spec_cfmb(old(self).authcid@, cnonce@);
                &&& final(self).state matches State::WaitFirst(cn, m) && cn@ == cnonce@ && m@
                    == cfmb
                &&& r@ == encode_utf8(spec_gs2(view_opt_string(old(self).authzid))) + encode_utf8(
                    cfmb,
                )
            }),
    {
        let mut gs2 = String::new();
        match &self.authzid {
            Some(z) => {
                gs2.append("n,a=");
                gs2.append(z.as_str());
                gs2.append(",");
            },
            None => {
                gs2.append("n,,");
            },
        }
        proof {
            assert(gs2@ =~= spec_gs2(view_opt_string(self.authzid)));
        }
        let mut cfmb = String::new();
        cfmb.append("n=");
        cfmb.append(self.authcid.as_str());
        cfmb.append(",r=");
        cfmb.append(cnonce.as_str());
        proof {
            assert(cfmb@ =~= spec_cfmb(self.authcid@, cnonce@));
        }
        let mut ret: Vec<u8> = Vec::new();
        extend_bytes(&mut ret, gs2.as_str().as_bytes());
        extend_bytes(&mut ret, cfmb.as_str().as_bytes());
        self.state = State::WaitFirst(cnonce, cfmb);
        ret
    }

    /// One handshake step past `WaitFirst`: checks and answers the
    /// server-first-message.
    fn handle_server_first(&mut self, data: &[u8]) -> (r: Result<Vec<u8>, &'static str>)
        requires
            old(self).state matches State::WaitFirst(_, _),
        ensures
            old(self).state matches State::WaitFirst(cn, cfmb) ==> scram_first_ok(
                *old(self),
                cn@,
                cfmb@,
                *final(self),
                data@,
                r,
            ),
    {
        let (cn, cfmb) = match &self.state {
            State::WaitFirst(c, m) => (c.clone(), m.clone()),
            _ => unreached(),
        };
        if !utf8_check(data) {
            return Err("SCRAM: Server sent non-UTF-8 data");
        }
        let (nonce, salt, iter) = match parse_server_first(data) {
            Ok(t) => t,
            Err(e) => {
                return Err(e);
            },
        };
        if !bytes_prefix(cn.as_str().as_bytes(), nonce.as_slice()) {
            return Err("SCRAM: Server replied with invalid nonce");
        }
        let mut gs2 = String::new();
        match &self.authzid {
            Some(z) => {
                gs2.append("n,a=");
                gs2.append(z.as_str());
                gs2.append(",");
            },
            None => {
                gs2.append("n,,");
            },
        }
        proof {
            assert(gs2@ =~= spec_gs2(view_opt_string(self.authzid)));
        }
        let gs2b64 = b64_encode(gs2.as_str().as_bytes());
        let mut head = String::new();
        head.append("c=");
        head.append(gs2b64.as_str());
        head.append(",r=");
        let mut result: Vec<u8> = Vec::new();
        extend_bytes(&mut result, head.as_str().as_bytes());
        extend_bytes(&mut result, nonce.as_slice());
        proof {
            assert(result@ =~= spec_cfwp(view_opt_string(self.authzid), nonce@));
        }

        let mut auth_message: Vec<u8> = Vec::new();
        extend_bytes(&mut auth_message, cfmb.as_str().as_bytes());
        auth_message.push(44);
        extend_bytes(&mut auth_message, data);
        auth_message.push(44);
        extend_bytes(&mut auth_message, result.as_slice());
        proof {
            assert(auth_message@ =~= spec_auth_message(
                cfmb@,
                data@,
                spec_cfwp(view_opt_string(self.authzid), nonce@),
            ));
        }

        if self.passwd.as_str().as_bytes().len() > 0x7fff_ffff || salt.len() > 0x7fff_ffff {
            return Err("SCRAM: Failed to compute Hi()");
        }
        let salted = match pbkdf2_sha1(self.passwd.as_str().as_bytes(), salt.as_slice(), iter as usize) {
            Some(v) => v,
            None => {
                return Err("SCRAM: Failed to compute Hi()");
            },
        };
        let client_key = match hmac_sha1(salted.as_slice(), "Client Key".as_bytes()) {
            Some(v) => v,
            None => {
                return Err("SCRAM: Failed to compute HMAC");
            },
        };
        let stored_key = match sha1(client_key.as_slice()) {
            Some(v) => v,
            None => {
                return Err("SCRAM: Failed to compute digest");
            },
        };
        let client_signature = match hmac_sha1(stored_key.as_slice(), auth_message.as_slice()) {
            Some(v) => v,
            None => {
                return Err("SCRAM: Failed to compute HMAC");
            },
        };
        let server_key = match hmac_sha1(salted.as_slice(), "Server Key".as_bytes()) {
            Some(v) => v,
            None => {
                return Err("SCRAM: Failed to compute HMAC");
            },
        };
        let server_signature = match hmac_sha1(server_key.as_slice(), auth_message.as_slice()) {
            Some(v) => v,
            None => {
                return Err("SCRAM: Failed to compute HMAC");
            },
        };

        let n = client_key.len();
        let mut client_proof: Vec<u8> = Vec::new();
        let mut i: usize = 0;
        while i < n
            invariant
                n == client_key@.len(),
                client_key@.len() == client_signature@.len(),
                i <= n,
                client_proof@.len() == i,
                forall|k: int|
                    0 <= k < i ==> client_proof@[k] == (client_key@[k] ^ client_signature@[k]),
            decreases n - i,
        {
            client_proof.push(client_key[i] ^ client_signature[i]);
            i = i + 1;
        }
        proof {
            assert(client_proof@ =~= spec_xor(client_key@, client_signature@));
        }

        let mut tail = String::new();
        tail.append(",p=");
        let pb64 = b64_encode(client_proof.as_slice());
        tail.append(pb64.as_str());
        extend_bytes(&mut result, tail.as_str().as_bytes());
        proof {
            assert(result@ =~= spec_client_final(
                self.passwd@,
                view_opt_string(self.authzid),
                cfmb@,
                data@,
                nonce@,
                salt@,
                iter,
            ));
        }

        self.state = State::WaitFinal(server_signature);
        Ok(result)
    }

    /// The last handshake step: checks the server's `v=` verifier against
    /// the recorded server signature.
    fn handle_server_final(&mut self, data: &[u8]) -> (r: Result<Vec<u8>, &'static str>)
        requires
            old(self).state matches State::WaitFinal(_),
        ensures
            old(self).state matches State::WaitFinal(sig) ==> scram_final_ok(
                *old(self),
                sig@,
                *final(self),
                data@,
                r,
            ),
    {
        if !utf8_check(data) {
            return Err("SCRAM: Server sent non-UTF-8 data");
        }
        if data.len() < 2 || data[0] != 118 || data[1] != 61 {
            return Err("SCRAM: Server didn't sent a verifier");
        }
        let rest = vstd::slice::slice_subrange(data, 2, data.len());
        let verifier = match b64_decode(rest) {
            Some(v) => v,
            None => {
                return Err("SCRAM: Server sent verifier with invalid base64 encoding");
            },
        };
        let ok = match &self.state {
            State::WaitFinal(sig) => bytes_eq(sig.as_slice(), verifier.as_slice()),
            _ => unreached(),
        };
        if !ok {
            return Err("SCRAM: Server sent invalid verifier");
        }
        self.state = State::Finished;
        Ok(Vec::new())
    }
}

/// Reads the server-first-message: comma-separated fields, of which `r=`,
/// `s=` (base64) and `i=` (a decimal count) must each be present; a
/// mandatory extension `m=` is refused.
#[verifier::loop_isolation(false)]
pub fn parse_server_first(data: &[u8]) -> (r: Result<(Vec<u8>, Vec<u8>, u16), &'static str>)
    ensures
        match spec_parse_server_first(data@) {
            Some((n, s, i)) => r matches Ok(t) && t.0@ == n && t.1@ == s && t.2 == i,
            None => r is Err,
        },
{
    let len = data.len();
    let ghost acc0 = ParseAcc { nonce: None, salt: None, iter: None };
    let mut nonce: Option<Vec<u8>> = None;
    let mut salt: Option<Vec<u8>> = None;
    let mut iter: Option<u16> = None;
    let mut pos: usize = 0;
    while pos < len
        invariant
            len == data@.len(),
            pos <= len,
            spec_parse_fields(
                data@,
                pos as int,
                ParseAcc {
                    nonce: view_opt_vec(nonce),
                    salt: view_opt_vec(salt),
                    iter: iter,
                },
            ) == spec_parse_fields(data@, 0, acc0),
        decreases len - pos,
    {
        let mut end: usize = pos;
        while end < len && data[end] != 44
            invariant
                pos <= end <= len,
                len == data@.len(),
                forall|k: int| pos <= k < end ==> data@[k] != 44u8,
            decreases len - end,
        {
            end = end + 1;
        }
        proof {
            lemma_find_comma(data@, pos as int, end as int);
        }
        let ghost curacc = ParseAcc {
            nonce: view_opt_vec(nonce),
            salt: view_opt_vec(salt),
            iter: iter,
        };
        let ghost specf = data@.subrange(pos as int, end as int);
        let f = vstd::slice::slice_subrange(data, pos, end);
        proof {
            assert(f@ == specf);
            if f@.len() >= 2 {
                assert(f@.subrange(2, f@.len() as int) =~= specf.skip(2));
            }
        }
        if f.len() >= 2 && f[0] == 114 && f[1] == 61 {
            nonce = Some(vstd::slice::slice_to_vec(vstd::slice::slice_subrange(f, 2, f.len())));
            proof {
                assert(view_opt_vec(nonce) == Some(specf.skip(2)));
            }
        } else if f.len() >= 2 && f[0] == 115 && f[1] == 61 {
            match b64_decode(vstd::slice::slice_subrange(f, 2, f.len())) {
                Some(v) => {
                    salt = Some(v);
                    proof {
                        assert(view_opt_vec(salt) == b64_dec(specf.skip(2)));
                    }
                },
                None => {
                    proof {
                        assert(spec_parse_fields(data@, pos as int, curacc) is None);
                    }
                    return Err("SCRAM: Invalid base64 encoding for salt");
                },
            }
        } else if f.len() >= 2 && f[0] == 105 && f[1] == 61 {
            match parse_u16(vstd::slice::slice_subrange(f, 2, f.len())) {
                Some(n) => {
                    iter = Some(n);
                },
                None => {
                    proof {
                        assert(spec_parse_fields(data@, pos as int, curacc) is None);
                    }
                    return Err("SCRAM: Iteration count is not a number");
                },
            }
        } else if f.len() >= 2 && f[0] == 109 && f[1] == 61 {
            proof {
                assert(spec_parse_fields(data@, pos as int, curacc) is None);
            }
            return Err("SCRAM: Unsupported mandatory extension found");
        }
        pos = if end < len {
            end + 1
        } else {
            end
        };
        proof {
            assert(spec_parse_fields(
                data@,
                pos as int,
                ParseAcc {
                    nonce: view_opt_vec(nonce),
                    salt: view_opt_vec(salt),
                    iter: iter,
                },
            ) == spec_parse_fields(data@, 0, acc0));
        }
    }
    let n = match nonce {
        Some(v) => v,
        None => {
            return Err("SCRAM: No nonce found");
        },
    };
    let s = match salt {
        Some(v) => v,
        None => {
            return Err("SCRAM: No salt found");
        },
    };
    let i = match iter {
        Some(v) => v,
        None => {
            return Err("SCRAM: No iteration count found");
        },
    };
    Ok((n, s, i))
}

/// Folds freshly drawn bytes into nonce characters: each byte lands in
/// `'!'..='}'` and the comma is remapped to `'~'`.
fn fold_nonce(bytes: &mut Vec<u8>)
    ensures
        final(bytes)@.len() == old(bytes)@.len(),
        forall|k: int|
            0 <= k < final(bytes)@.len() ==> nonce_char_ok(#[trigger] final(bytes)@[k] as char),
{
    let n = bytes.len();
    let mut i: usize = 0;
    while i < n
        invariant
            n == bytes@.len(),
            i <= n,
            forall|k: int| 0 <= k < i ==> nonce_char_ok(#[trigger] bytes@[k] as char),
        decreases n - i,
    {
        let b = bytes[i];
        let mut c = (b % (126 - 33)) + 33;
        if c == 44 {
            c = 126;
        }
        bytes.set(i, c);
        i = i + 1;
    }
}

/// A string of the given ASCII bytes.
fn ascii_string(bytes: &[u8]) -> (r: String)
    requires
        forall|k: int| 0 <= k < bytes@.len() ==> bytes@[k] < 128,
    ensures
        r@ == bytes@.map_values(|b: u8| b as char),
{
    let n = bytes.len();
    let mut out = String::new();
    let mut i: usize = 0;
    while i < n
        invariant
            n == bytes@.len(),
            i <= n,
            forall|k: int| 0 <= k < n ==> bytes@[k] < 128,
            out@ == bytes@.subrange(0, i as int).map_values(|b: u8| b as char),
        decreases n - i,
    {
        push_char(&mut out, bytes[i] as char);
        proof {
            assert(out@ =~= bytes@.subrange(0, i + 1).map_values(|b: u8| b as char));
        }
        i = i + 1;
    }
    proof {
        assert(bytes@.subrange(0, n as int) =~= bytes@);
    }
    out
}

impl Authenticator for ScramAuth {
    open spec fn ens_initial(pre: ScramAuth, post: ScramAuth, r: Result<Vec<u8>, &'static str>) -> bool {
        scram_initial_ok(pre, post, r)
    }

    open spec fn ens_continuation(
        pre: ScramAuth,
        post: ScramAuth,
        data: Seq<u8>,
        r: Result<Vec<u8>, &'static str>,
    ) -> bool {
        match pre.state {
            State::Initial => scram_initial_ok(pre, post, r),
            State::WaitFirst(cn, cfmb) => scram_first_ok(pre, cn@, cfmb@, post, data, r),
            State::WaitFinal(sig) => scram_final_ok(pre, sig@, post, data, r),
            State::Finished => {
                &&& post == pre
                &&& r matches Ok(d) && d@ == Seq::<u8>::empty()
            },
        }
    }

    fn initial(&mut self) -> (r: Result<Vec<u8>, &'static str>) {
        let mut nonce = match rand_bytes_vec(64) {
            Some(v) => v,
            None => {
                return Err("SCRAM: Couldn't generate nonce");
            },
        };
        fold_nonce(&mut nonce);
        proof {
            assert(forall|k: int|
                0 <= k < nonce@.len() ==> #[trigger] nonce@[k] < 128) by {
                assert(forall|k: int|
                    0 <= k < nonce@.len() ==> nonce_char_ok(#[trigger] nonce@[k] as char));
            }
        }
        let cnonce = ascii_string(nonce.as_slice());
        proof {
            assert(nonce_ok(cnonce@));
        }
        Ok(self.initial_with_cnonce(cnonce))
    }

    fn continuation(&mut self, data: &[u8]) -> (r: Result<Vec<u8>, &'static str>) {
        if matches!(self.state, State::Initial) {
            return self.initial();
        }
        if matches!(self.state, State::WaitFirst(_, _)) {
            return self.handle_server_first(data);
        }
        if matches!(self.state, State::WaitFinal(_)) {
            return self.handle_server_final(data);
        }
        Ok(Vec::new())
    }
}

/// A no-comma stretch places the first comma exactly at its end.
proof fn lemma_find_comma(data: Seq<u8>, pos: int, end: int)
    requires
        0 <= pos <= end <= data.len(),
        forall|k: int| pos <= k < end ==> data[k] != 44u8,
        end == data.len() || data[end] == 44u8,
    ensures
        spec_find_comma(data, pos) == end,
    decreases end - pos,
{
    if pos < end {
        lemma_find_comma(data, pos + 1, end);
    }
}

/// Reads a decimal `u16` as std's parser does: an optional `+`, then at
/// least one digit, value at most 65535.
#[verifier::loop_isolation(false)]
fn parse_u16(s: &[u8]) -> (r: Option<u16>)
    ensures
        r == spec_parse_u16(s@),
{
    let t: &[u8] = if s.len() >= 1 && s[0] == 43 {
        vstd::slice::slice_subrange(s, 1, s.len())
    } else {
        s
    };
    proof {
        assert(t@ =~= (if s@.len() >= 1 && s@[0] == 43 {
            s@.drop_first()
        } else {
            s@
        }));
    }
    let n = t.len();
    if n == 0 {
        return None;
    }
    let mut acc: u32 = 0;
    let mut i: usize = 0;
    while i < n
        invariant
            n == t@.len(),
            i <= n,
            spec_all_digits(t@.subrange(0, i as int)),
            spec_digits_val(t@.subrange(0, i as int)) <= 65535 ==> acc == spec_digits_val(
                t@.subrange(0, i as int),
            ),
            spec_digits_val(t@.subrange(0, i as int)) > 65535 ==> acc > 65535,
            acc <= 655359,
        decreases n - i,
    {
        let b = t[i];
        if b < 48 || b > 57 {
            proof {
                assert(!spec_all_digits(t@));
            }
            return None;
        }
        proof {
            let pre = t@.subrange(0, i as int);
            let cur = t@.subrange(0, i + 1);
            assert(cur.drop_last() =~= pre);
            assert(cur.last() == t@[i as int]);
        }
        if acc <= 65535 {
            acc = acc * 10 + ((b - 48) as u32);
        }
        i = i + 1;
    }
    proof {
        assert(t@.subrange(0, n as int) =~= t@);
    }
    if acc <= 65535 {
        Some(acc as u16)
    } else {
        None
    }
}

} // verus!
