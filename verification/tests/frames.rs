//! Wire form of the non-stanza frames.

use xmpp::non_stanzas::{
    AuthResponse, AuthStart, DefinedCondition, StartTls, StreamEnd, StreamError, StreamStart,
};
use xmpp::xmpp_send::XmppSend;

#[test]
fn stream_start_frame() {
    let f = StreamStart { to: "example.net" };
    assert_eq!(
        f.xmpp_str(),
        "<?xml version='1.0'?>\n<stream:stream xmlns:stream='http://etherx.jabber.org/streams' \
         xmlns='jabber:client' version='1.0' to='example.net'>"
    );
}

#[test]
fn stream_end_and_starttls_frames() {
    assert_eq!(StreamEnd.xmpp_str(), "</stream:stream>");
    assert_eq!(StartTls.xmpp_str(), "<starttls xmlns='urn:ietf:params:xml:ns:xmpp-tls'/>");
}

#[test]
fn auth_frames() {
    let f = AuthStart { mech: "PLAIN", data: "AGFsaWNlAHRlc3Q=" };
    assert_eq!(
        f.xmpp_str(),
        "<auth mechanism='PLAIN' xmlns='urn:ietf:params:xml:ns:xmpp-sasl'>AGFsaWNlAHRlc3Q=</auth>"
    );
    let f = AuthResponse { data: "YmlsbA==" };
    assert_eq!(
        f.xmpp_str(),
        "<response xmlns='urn:ietf:params:xml:ns:xmpp-sasl'>YmlsbA==</response>"
    );
}

#[test]
fn stream_error_frames() {
    let f = StreamError { cond: DefinedCondition::PolicyViolation, text: None };
    assert_eq!(
        f.xmpp_str(),
        "<stream:error><policy-violation xmlns='urn:ietf:params:xml:ns:xmpp-streams'/>\
         </stream:error>"
    );
    let f = StreamError { cond: DefinedCondition::SystemShutdown, text: Some("bye") };
    assert_eq!(
        f.xmpp_str(),
        "<stream:error><system-shutdown xmlns='urn:ietf:params:xml:ns:xmpp-streams'/>\
         <text xmlns='urn:ietf:params:xml:ns:xmpp-streams'>bye</text></stream:error>"
    );
}

#[test]
fn see_other_host_carries_the_host() {
    let f = StreamError {
        cond: DefinedCondition::SeeOtherHost("other.example.net:5222".to_owned()),
        text: None,
    };
    assert_eq!(
        f.xmpp_str(),
        "<stream:error><see-other-host xmlns='urn:ietf:params:xml:ns:xmpp-streams'>\
         other.example.net:5222</see-other-host></stream:error>"
    );
}
