//! The XML namespace strings that XMPP assigns to streams, stanzas and
//! stream features.

use vstd::prelude::*;

verus! {

pub const JABBER_CLIENT: &'static str = "jabber:client";

pub const JABBER_SERVER: &'static str = "jabber:server";

pub const STREAMS: &'static str = "http://etherx.jabber.org/streams";

pub const FEATURE_BIND: &'static str = "urn:ietf:params:xml:ns:xmpp-bind";

pub const FEATURE_SASL: &'static str = "urn:ietf:params:xml:ns:xmpp-sasl";

pub const FEATURE_TLS: &'static str = "urn:ietf:params:xml:ns:xmpp-tls";

pub const STANZA_ERRORS: &'static str = "urn:ietf:params:xml:ns:xmpp-stanzas";

pub const STREAM_ERRORS: &'static str = "urn:ietf:params:xml:ns:xmpp-streams";

} // verus!
