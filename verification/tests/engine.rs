//! The negotiation engine: feature handling, STARTTLS and SASL sequencing,
//! bind tracking, stanza routing and the iq response guard.

use xmpp::auth::scram::ScramAuth;
use xmpp::element::{Attribute, Child, Element};
use xmpp::xmpp_send::XmppSend;
use xmpp::stanzas::{Iq, IqType, Stanza};
use xmpp::{Action, AuthMech, Event, XmppHandler};

fn attr(name: &str, value: &str) -> Attribute {
    Attribute { name: name.to_owned(), ns: None, value: value.to_owned() }
}

fn elem(name: &str, ns: &str, attrs: Vec<Attribute>, children: Vec<Child>) -> Element {
    Element { name: name.to_owned(), ns: Some(ns.to_owned()), attributes: attrs, children }
}

fn handler() -> XmppHandler {
    XmppHandler::new("alice".to_owned(), "test".to_owned(), "localhost".to_owned())
}

fn mechanisms(names: &[&str]) -> Element {
    let kids = names
        .iter()
        .map(|n| {
            let mut m = elem("mechanism", "urn:ietf:params:xml:ns:xmpp-sasl", vec![], vec![]);
            m.text((*n).to_owned());
            Child::Node(m)
        })
        .collect();
    elem("mechanisms", "urn:ietf:params:xml:ns:xmpp-sasl", vec![], kids)
}

fn send_text(a: &Action) -> &str {
    match a {
        Action::Send(s) => s.as_str(),
        Action::StartTls => panic!("expected a Send action"),
    }
}

const STREAM_START: &str = "<?xml version='1.0'?>\n<stream:stream \
    xmlns:stream='http://etherx.jabber.org/streams' xmlns='jabber:client' \
    version='1.0' to='localhost'>";

#[test]
fn stream_start_frame_is_exact() {
    let h = handler();
    assert_eq!(h.start_stream(), STREAM_START);
}

#[test]
fn close_stream_emits_the_closing_tag_once() {
    let mut h = handler();
    assert_eq!(h.close_stream(), Some("</stream:stream>".to_owned()));
    assert_eq!(h.close_stream(), None);
    assert_eq!(h.close_stream(), None);
}

#[test]
fn stream_end_closes_once_and_yields_stream_closed() {
    let mut h = handler();
    let (acts, ev) = h.handle_stream_end();
    assert!(matches!(ev, Event::StreamClosed));
    assert_eq!(acts.len(), 1);
    assert_eq!(send_text(&acts[0]), "</stream:stream>");
    let (acts, ev) = h.handle_stream_end();
    assert!(matches!(ev, Event::StreamClosed));
    assert!(acts.is_empty());
}

#[test]
fn parse_error_sends_invalid_xml_and_closes() {
    let mut h = handler();
    let acts = h.handle_parse_error();
    assert_eq!(acts.len(), 2);
    assert_eq!(
        send_text(&acts[0]),
        "<stream:error><invalid-xml xmlns='urn:ietf:params:xml:ns:xmpp-streams'/></stream:error>"
    );
    assert_eq!(send_text(&acts[1]), "</stream:stream>");
    let acts = h.handle_parse_error();
    assert_eq!(acts.len(), 1);
}

#[test]
fn starttls_proceed_upgrades_then_restarts_stream() {
    let mut h = handler();
    let proceed = elem("proceed", "urn:ietf:params:xml:ns:xmpp-tls", vec![], vec![]);
    let acts = h.handle_element(proceed).0;
    assert_eq!(acts.len(), 2);
    assert!(matches!(acts[0], Action::StartTls));
    assert_eq!(send_text(&acts[1]), STREAM_START);
    assert!(h.secure);
}

#[test]
fn starttls_failure_is_ignored() {
    let mut h = handler();
    let failure = elem("failure", "urn:ietf:params:xml:ns:xmpp-tls", vec![], vec![]);
    let (acts, ev) = h.handle_element(failure);
    assert!(acts.is_empty());
    assert!(ev.is_none());
}

#[test]
fn features_prefer_starttls_on_a_plain_socket() {
    let mut h = handler();
    let features = elem(
        "features",
        "http://etherx.jabber.org/streams",
        vec![],
        vec![
            Child::Node(elem("starttls", "urn:ietf:params:xml:ns:xmpp-tls", vec![], vec![])),
            Child::Node(mechanisms(&["PLAIN"])),
        ],
    );
    let acts = h.handle_element(features).0;
    assert_eq!(acts.len(), 1);
    assert_eq!(send_text(&acts[0]), "<starttls xmlns='urn:ietf:params:xml:ns:xmpp-tls'/>");
}

#[test]
fn features_pick_mechanisms_once_secure() {
    let mut h = handler();
    h.secure = true;
    let features = elem(
        "features",
        "http://etherx.jabber.org/streams",
        vec![],
        vec![
            Child::Node(elem("starttls", "urn:ietf:params:xml:ns:xmpp-tls", vec![], vec![])),
            Child::Node(mechanisms(&["PLAIN"])),
        ],
    );
    let acts = h.handle_element(features).0;
    assert_eq!(acts.len(), 1);
    assert_eq!(
        send_text(&acts[0]),
        "<auth mechanism='PLAIN' xmlns='urn:ietf:params:xml:ns:xmpp-sasl'>AGFsaWNlAHRlc3Q=</auth>"
    );
    assert!(matches!(h.authenticator, Some(AuthMech::Plain(_))));
}

#[test]
fn unknown_mechanisms_are_skipped_in_order() {
    let mut h = handler();
    let acts = h.handle_features(&elem(
        "features",
        "http://etherx.jabber.org/streams",
        vec![],
        vec![Child::Node(mechanisms(&["EXTERNAL", "DIGEST-MD5", "ANONYMOUS", "PLAIN"]))],
    ));
    assert_eq!(acts.len(), 1);
    assert_eq!(
        send_text(&acts[0]),
        "<auth mechanism='ANONYMOUS' xmlns='urn:ietf:params:xml:ns:xmpp-sasl'></auth>"
    );
}

#[test]
fn no_recognized_mechanism_sends_nothing() {
    let mut h = handler();
    let acts = h.handle_features(&elem(
        "features",
        "http://etherx.jabber.org/streams",
        vec![],
        vec![Child::Node(mechanisms(&["EXTERNAL"]))],
    ));
    assert!(acts.is_empty());
    assert!(h.authenticator.is_none());
}

#[test]
fn sasl_success_restarts_the_stream() {
    let mut h = handler();
    let _ = h.handle_features(&elem(
        "features",
        "http://etherx.jabber.org/streams",
        vec![],
        vec![Child::Node(mechanisms(&["PLAIN"]))],
    ));
    let success = elem("success", "urn:ietf:params:xml:ns:xmpp-sasl", vec![], vec![]);
    let acts = h.handle_element(success).0;
    assert_eq!(acts.len(), 1);
    assert_eq!(send_text(&acts[0]), STREAM_START);
}

#[test]
fn sasl_failure_and_unsolicited_challenge_are_ignored() {
    let mut h = handler();
    let failure = elem("failure", "urn:ietf:params:xml:ns:xmpp-sasl", vec![], vec![]);
    assert!(h.handle_element(failure).0.is_empty());
    // no authenticator picked yet: a challenge cannot be answered
    let challenge = elem("challenge", "urn:ietf:params:xml:ns:xmpp-sasl", vec![], vec![]);
    assert!(h.handle_element(challenge).0.is_empty());
}

#[test]
fn sasl_challenge_is_answered_through_the_mechanism() {
    let mut h = XmppHandler::new("user".to_owned(), "pencil".to_owned(), "localhost".to_owned());
    let mut a = ScramAuth::new("user".to_owned(), "pencil".to_owned(), None);
    let _ = a.initial_with_cnonce("fyko+d2lbbFgONRv9qkxdawL".to_owned());
    h.authenticator = Some(AuthMech::Scram(a));
    let server_first = b"r=fyko+d2lbbFgONRv9qkxdawL3rfcNHYJY1ZVvWVs7j,s=QSXCR+Q6sek8bf92,i=4096";
    let mut ch = elem("challenge", "urn:ietf:params:xml:ns:xmpp-sasl", vec![], vec![]);
    ch.text(base64::encode(server_first));
    let acts = h.handle_element(ch).0;
    assert_eq!(acts.len(), 1);
    let expected = base64::encode(
        "c=biws,r=fyko+d2lbbFgONRv9qkxdawL3rfcNHYJY1ZVvWVs7j,p=v0X8v3Bz2T0CJGbJQyF0X+HI4Ts=",
    );
    assert_eq!(
        send_text(&acts[0]),
        format!("<response xmlns='urn:ietf:params:xml:ns:xmpp-sasl'>{}</response>", expected)
    );
}

#[test]
fn bind_feature_sends_the_bind_request() {
    let mut h = handler();
    let features = elem(
        "features",
        "http://etherx.jabber.org/streams",
        vec![],
        vec![Child::Node(elem("bind", "urn:ietf:params:xml:ns:xmpp-bind", vec![], vec![]))],
    );
    let acts = h.handle_element(features).0;
    assert_eq!(acts.len(), 1);
    assert_eq!(
        send_text(&acts[0]),
        "<iq type='set' id='bind'><bind xmlns='urn:ietf:params:xml:ns:xmpp-bind'/></iq>"
    );
    assert_eq!(h.pending_bind_id.as_deref(), Some("bind"));
}

#[test]
fn bind_result_yields_bound_with_the_jid() {
    let mut h = handler();
    h.pending_bind_id = Some("bind".to_owned());
    let mut jid = elem("jid", "urn:ietf:params:xml:ns:xmpp-bind", vec![], vec![]);
    jid.text("alice@localhost/res".to_owned());
    let mut bind = elem("bind", "urn:ietf:params:xml:ns:xmpp-bind", vec![], vec![]);
    bind.tag(jid);
    let mut iq = elem("iq", "jabber:client", vec![attr("type", "result"), attr("id", "bind")], vec![]);
    iq.tag(bind);
    let (acts, ev) = h.handle_element(iq);
    assert!(acts.is_empty());
    match ev {
        Some(Event::Bound(j)) => assert_eq!(j.as_deref(), Some("alice@localhost/res")),
        other => panic!("expected Bound, got {}", kind_of(&other)),
    }
    assert!(h.pending_bind_id.is_none());
}

#[test]
fn bind_error_yields_bind_error_not_iq_response() {
    let mut h = handler();
    h.pending_bind_id = Some("bind".to_owned());
    let iq = elem("iq", "jabber:client", vec![attr("type", "error"), attr("id", "bind")], vec![]);
    let (_, ev) = h.handle_element(iq);
    assert!(matches!(ev, Some(Event::BindError(_))));
    assert!(h.pending_bind_id.is_none());
}

#[test]
fn other_iq_responses_stay_iq_responses() {
    let mut h = handler();
    h.pending_bind_id = Some("bind".to_owned());
    let iq = elem("iq", "jabber:client", vec![attr("type", "result"), attr("id", "ping7")], vec![]);
    let (_, ev) = h.handle_element(iq);
    assert!(matches!(ev, Some(Event::IqResponse(_))));
    assert_eq!(h.pending_bind_id.as_deref(), Some("bind"));
}

#[test]
fn inbound_message_is_surfaced_and_echoable() {
    let mut h = handler();
    let mut body = elem("body", "jabber:client", vec![], vec![]);
    body.text("hi".to_owned());
    let mut msg = elem(
        "message",
        "jabber:client",
        vec![attr("from", "bob@x"), attr("to", "alice@x"), attr("type", "chat")],
        vec![],
    );
    msg.tag(body);
    let (acts, ev) = h.handle_element(msg);
    assert!(acts.is_empty());
    let mut m = match ev {
        Some(Event::Message(m)) => m,
        other => panic!("expected Message, got {}", kind_of(&other)),
    };
    let back = m.from().map(|s| s.to_owned());
    m.set_to(back);
    m.set_from(None);
    assert_eq!(m.xmpp_str(), "<message to='bob@x' type='chat'><body>hi</body></message>");
}

#[test]
fn iq_request_respond_marks_and_serializes() {
    let mut h = handler();
    let ping = elem("ping", "urn:xmpp:ping", vec![], vec![]);
    let mut iq = elem(
        "iq",
        "jabber:client",
        vec![attr("type", "get"), attr("id", "p1"), attr("from", "a@b")],
        vec![],
    );
    iq.tag(ping);
    let (_, ev) = h.handle_element(iq);
    let mut guard = match ev {
        Some(Event::IqRequest(g)) => g,
        other => panic!("expected IqRequest, got {}", kind_of(&other)),
    };
    let mut pong = Iq::new(IqType::Result, "p1".to_owned());
    pong.set_to(Some("a@b".to_owned()));
    let wire = guard.respond(&pong);
    assert_eq!(wire, "<iq type='result' id='p1' to='a@b'/>");
    // answered: releasing owes nothing
    assert_eq!(guard.release(), None);
}

#[test]
fn iq_request_dropped_unanswered_sends_the_default_error() {
    let mut h = handler();
    let mut iq = elem(
        "iq",
        "jabber:client",
        vec![attr("type", "get"), attr("id", "p1"), attr("from", "a@b")],
        vec![],
    );
    iq.tag(elem("ping", "urn:xmpp:ping", vec![], vec![]));
    let (_, ev) = h.handle_element(iq);
    let guard = match ev {
        Some(Event::IqRequest(g)) => g,
        other => panic!("expected IqRequest, got {}", kind_of(&other)),
    };
    assert_eq!(
        guard.release(),
        Some(
            "<iq type='error' id='p1' to='a@b'><error type='cancel'>\
             <service-unavailable xmlns='urn:ietf:params:xml:ns:xmpp-stanzas'/></error></iq>"
                .to_owned()
        )
    );
}

#[test]
fn iq_request_without_id_is_released_silently() {
    let mut h = handler();
    let iq = elem("iq", "jabber:client", vec![attr("type", "get"), attr("from", "a@b")], vec![]);
    let (_, ev) = h.handle_element(iq);
    let guard = match ev {
        Some(Event::IqRequest(g)) => g,
        other => panic!("expected IqRequest, got {}", kind_of(&other)),
    };
    assert_eq!(guard.release(), None);
}

#[test]
fn iq_without_usable_type_yields_no_event() {
    let mut h = handler();
    let iq = elem("iq", "jabber:client", vec![attr("id", "p1")], vec![]);
    let (acts, ev) = h.handle_element(iq);
    assert!(acts.is_empty());
    assert!(ev.is_none());
}

#[test]
fn inbound_presence_is_surfaced() {
    let mut h = handler();
    let p = elem("presence", "jabber:client", vec![attr("from", "bob@x")], vec![]);
    let (acts, ev) = h.handle_element(p);
    assert!(acts.is_empty());
    assert!(matches!(ev, Some(Event::Presence(_))));
}

#[test]
fn challenge_with_bad_base64_is_ignored() {
    let mut h = XmppHandler::new("user".to_owned(), "pencil".to_owned(), "localhost".to_owned());
    let mut a = ScramAuth::new("user".to_owned(), "pencil".to_owned(), None);
    let _ = a.initial_with_cnonce("fyko+d2lbbFgONRv9qkxdawL".to_owned());
    h.authenticator = Some(AuthMech::Scram(a));
    let mut ch = elem("challenge", "urn:ietf:params:xml:ns:xmpp-sasl", vec![], vec![]);
    ch.text("!!!not base64!!!".to_owned());
    let (acts, ev) = h.handle_element(ch);
    assert!(acts.is_empty());
    assert!(ev.is_none());
}

#[test]
fn unknown_namespace_elements_are_ignored() {
    let mut h = handler();
    let e = elem("weird", "urn:example:unknown", vec![], vec![]);
    let (acts, ev) = h.handle_element(e);
    assert!(acts.is_empty());
    assert!(ev.is_none());
}

fn kind_of(ev: &Option<Event>) -> &'static str {
    match ev {
        None => "none",
        Some(Event::IqRequest(_)) => "IqRequest",
        Some(Event::IqResponse(_)) => "IqResponse",
        Some(Event::Message(_)) => "Message",
        Some(Event::Presence(_)) => "Presence",
        Some(Event::Bound(_)) => "Bound",
        Some(Event::BindError(_)) => "BindError",
        Some(Event::StreamError(_)) => "StreamError",
        Some(Event::StreamClosed) => "StreamClosed",
    }
}
