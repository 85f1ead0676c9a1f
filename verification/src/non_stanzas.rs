//! Outbound frames that are not stanzas: stream open and close, STARTTLS,
//! SASL auth and response, and stream-level errors, each rendered verbatim
//! to the wire.

use vstd::prelude::*;
use vstd::string::*;
use crate::ns;
use crate::xmpp_send::XmppSend;

verus! {

/// The stream header frame, for the given destination host.
pub open spec fn spec_stream_start_str(to: Seq<char>) -> Seq<char> {
    "<?xml version='1.0'?>\n<stream:stream xmlns:stream='"@ + ns::STREAMS@ + "' xmlns='"@
        + ns::JABBER_CLIENT@ + "' version='1.0' to='"@ + to + "'>"@
}

/// The stream closing tag.
pub open spec fn spec_stream_end_str() -> Seq<char> {
    "</stream:stream>"@
}

/// The STARTTLS request frame.
pub open spec fn spec_starttls_str() -> Seq<char> {
    "<starttls xmlns='"@ + ns::FEATURE_TLS@ + "'/>"@
}

/// The SASL `<auth>` frame for a mechanism and its base64 initial data.
pub open spec fn spec_auth_start_str(mech: Seq<char>, data: Seq<char>) -> Seq<char> {
    "<auth mechanism='"@ + mech + "' xmlns='"@ + ns::FEATURE_SASL@ + "'>"@ + data + "</auth>"@
}

/// The SASL `<response>` frame for base64 response data.
pub open spec fn spec_auth_response_str(data: Seq<char>) -> Seq<char> {
    "<response xmlns='"@ + ns::FEATURE_SASL@ + "'>"@ + data + "</response>"@
}

/// Opens a stream to the given host.
pub struct StreamStart<'a> {
    pub to: &'a str,
}

impl<'a> XmppSend for StreamStart<'a> {
    open spec fn spec_str(&self) -> Seq<char> {
        spec_stream_start_str(self.to@)
    }

    fn xmpp_str(&self) -> (r: String) {
        let mut out = String::new();
        out.append("<?xml version='1.0'?>\n<stream:stream xmlns:stream='");
        out.append(ns::STREAMS);
        out.append("' xmlns='");
        out.append(ns::JABBER_CLIENT);
        out.append("' version='1.0' to='");
        out.append(self.to);
        out.append("'>");
        assert(out@ =~= self.spec_str());
        out
    }
}

/// Closes the stream.
pub struct StreamEnd;

impl XmppSend for StreamEnd {
    open spec fn spec_str(&self) -> Seq<char> {
        spec_stream_end_str()
    }

    fn xmpp_str(&self) -> (r: String) {
        let mut out = String::new();
        out.append("</stream:stream>");
        assert(out@ =~= self.spec_str());
        out
    }
}

/// Asks the server to upgrade the connection to TLS.
pub struct StartTls;

impl XmppSend for StartTls {
    open spec fn spec_str(&self) -> Seq<char> {
        spec_starttls_str()
    }

    fn xmpp_str(&self) -> (r: String) {
        let mut out = String::new();
        out.append("<starttls xmlns='");
        out.append(ns::FEATURE_TLS);
        out.append("'/>");
        assert(out@ =~= self.spec_str());
        out
    }
}

/// Starts SASL authentication with a mechanism and its base64-encoded
/// initial data.
pub struct AuthStart<'a> {
    pub mech: &'a str,
    pub data: &'a str,
}

impl<'a> XmppSend for AuthStart<'a> {
    open spec fn spec_str(&self) -> Seq<char> {
        spec_auth_start_str(self.mech@, self.data@)
    }

    fn xmpp_str(&self) -> (r: String) {
        let mut out = String::new();
        out.append("<auth mechanism='");
        out.append(self.mech);
        out.append("' xmlns='");
        out.append(ns::FEATURE_SASL);
        out.append("'>");
        out.append(self.data);
        out.append("</auth>");
        assert(out@ =~= self.spec_str());
        out
    }
}

/// Continues SASL authentication with base64-encoded response data.
pub struct AuthResponse<'a> {
    pub data: &'a str,
}

impl<'a> XmppSend for AuthResponse<'a> {
    open spec fn spec_str(&self) -> Seq<char> {
        spec_auth_response_str(self.data@)
    }

    fn xmpp_str(&self) -> (r: String) {
        let mut out = String::new();
        out.append("<response xmlns='");
        out.append(ns::FEATURE_SASL);
        out.append("'>");
        out.append(self.data);
        out.append("</response>");
        assert(out@ =~= self.spec_str());
        out
    }
}

/// A defined stream-error condition; `SeeOtherHost` carries the new host as
/// text.
pub enum DefinedCondition {
    BadFormat,
    BadNamespacePrefix,
    Conflict,
    ConnectionTimeout,
    HostGone,
    HostUnknown,
    ImproperAddressing,
    InternalServerError,
    InvalidFrom,
    InvalidId,
    InvalidNamespace,
    InvalidXml,
    NotAuthorized,
    NotWellFormed,
    PolicyViolation,
    RemoteConnectionFailed,
    Reset,
    ResourceConstraint,
    RestrictedXml,
    SeeOtherHost(String),
    SystemShutdown,
    UndefinedCondition,
    UnsupportedEncoding,
    UnsupportedStanzaType,
    UnsupportedVersion,
}

impl DefinedCondition {
    /// The element name of this condition.
    pub open spec fn spec_name(self) -> Seq<char> {
        match self {
            DefinedCondition::BadFormat => "bad-format"@,
            DefinedCondition::BadNamespacePrefix => "bad-namespace-prefix"@,
            DefinedCondition::Conflict => "conflict"@,
            DefinedCondition::ConnectionTimeout => "connection-timeout"@,
            DefinedCondition::HostGone => "host-gone"@,
            DefinedCondition::HostUnknown => "host-unknown"@,
            DefinedCondition::ImproperAddressing => "improper-addressing"@,
            DefinedCondition::InternalServerError => "internal-server-error"@,
            DefinedCondition::InvalidFrom => "invalid-from"@,
            DefinedCondition::InvalidId => "invalid-id"@,
            DefinedCondition::InvalidNamespace => "invalid-namespace"@,
            DefinedCondition::InvalidXml => "invalid-xml"@,
            DefinedCondition::NotAuthorized => "not-authorized"@,
            DefinedCondition::NotWellFormed => "not-well-formed"@,
            DefinedCondition::PolicyViolation => "policy-violation"@,
            DefinedCondition::RemoteConnectionFailed => "remote-connection-failed"@,
            DefinedCondition::Reset => "reset"@,
            DefinedCondition::ResourceConstraint => "resource-constraint"@,
            DefinedCondition::RestrictedXml => "restricted-xml"@,
            DefinedCondition::SeeOtherHost(_) => "see-other-host"@,
            DefinedCondition::SystemShutdown => "system-shutdown"@,
            DefinedCondition::UndefinedCondition => "undefined-condition"@,
            DefinedCondition::UnsupportedEncoding => "unsupported-encoding"@,
            DefinedCondition::UnsupportedStanzaType => "unsupported-stanza-type"@,
            DefinedCondition::UnsupportedVersion => "unsupported-version"@,
        }
    }
}

impl XmppSend for DefinedCondition {
    open spec fn spec_str(&self) -> Seq<char> {
        match *self {
            DefinedCondition::SeeOtherHost(ref host) => "<see-other-host xmlns='"@
                + ns::STREAM_ERRORS@ + "'>"@ + host@ + "</see-other-host>"@,
            _ => "<"@ + self.spec_name() + " xmlns='"@ + ns::STREAM_ERRORS@ + "'/>"@,
        }
    }

    fn xmpp_str(&self) -> (r: String) {
        match self {
            DefinedCondition::SeeOtherHost(host) => {
                let mut out = String::new();
                out.append("<see-other-host xmlns='");
                out.append(ns::STREAM_ERRORS);
                out.append("'>");
                out.append(host.as_str());
                out.append("</see-other-host>");
                assert(out@ =~= self.spec_str());
                out
            },
            _ => {
                let name: &'static str = match self {
                    DefinedCondition::BadFormat => "bad-format",
                    DefinedCondition::BadNamespacePrefix => "bad-namespace-prefix",
                    DefinedCondition::Conflict => "conflict",
                    DefinedCondition::ConnectionTimeout => "connection-timeout",
                    DefinedCondition::HostGone => "host-gone",
                    DefinedCondition::HostUnknown => "host-unknown",
                    DefinedCondition::ImproperAddressing => "improper-addressing",
                    DefinedCondition::InternalServerError => "internal-server-error",
                    DefinedCondition::InvalidFrom => "invalid-from",
                    DefinedCondition::InvalidId => "invalid-id",
                    DefinedCondition::InvalidNamespace => "invalid-namespace",
                    DefinedCondition::InvalidXml => "invalid-xml",
                    DefinedCondition::NotAuthorized => "not-authorized",
                    DefinedCondition::NotWellFormed => "not-well-formed",
                    DefinedCondition::PolicyViolation => "policy-violation",
                    DefinedCondition::RemoteConnectionFailed => "remote-connection-failed",
                    DefinedCondition::Reset => "reset",
                    DefinedCondition::ResourceConstraint => "resource-constraint",
                    DefinedCondition::RestrictedXml => "restricted-xml",
                    DefinedCondition::SeeOtherHost(_) => "see-other-host",
                    DefinedCondition::SystemShutdown => "system-shutdown",
                    DefinedCondition::UndefinedCondition => "undefined-condition",
                    DefinedCondition::UnsupportedEncoding => "unsupported-encoding",
                    DefinedCondition::UnsupportedStanzaType => "unsupported-stanza-type",
                    DefinedCondition::UnsupportedVersion => "unsupported-version",
                };
                let mut out = String::new();
                out.append("<");
                out.append(name);
                out.append(" xmlns='");
                out.append(ns::STREAM_ERRORS);
                out.append("'/>");
                assert(out@ =~= self.spec_str());
                out
            },
        }
    }
}

/// A stream-level error with its condition and an optional descriptive
/// text.
pub struct StreamError<'a> {
    pub cond: DefinedCondition,
    pub text: Option<&'a str>,
}

impl<'a> XmppSend for StreamError<'a> {
    open spec fn spec_str(&self) -> Seq<char> {
        "<stream:error>"@ + self.cond.spec_str() + (match self.text {
            Some(t) => "<text xmlns='"@ + ns::STREAM_ERRORS@ + "'>"@ + t@ + "</text>"@,
            None => Seq::<char>::empty(),
        }) + "</stream:error>"@
    }

    fn xmpp_str(&self) -> (r: String) {
        let mut out = String::new();
        out.append("<stream:error>");
        let c = self.cond.xmpp_str();
        out.append(c.as_str());
        match self.text {
            Some(t) => {
                out.append("<text xmlns='");
                out.append(ns::STREAM_ERRORS);
                out.append("'>");
                out.append(t);
                out.append("</text>");
            },
            None => {},
        }
        out.append("</stream:error>");
        assert(out@ =~= self.spec_str());
        out
    }
}

} // verus!
