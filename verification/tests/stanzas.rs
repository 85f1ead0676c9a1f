//! Stanza model behavior: conversion, accessors, setters, error replies
//! and serialization.

use xmpp::element::{Attribute, Child, Element};
use xmpp::stanzas::{
    AStanza, DefinedCondition, ErrorType, Iq, IqType, Message, MessageType, Presence, PresenceType,
    Stanza,
};
use xmpp::xmpp_send::XmppSend;

fn attr(name: &str, value: &str) -> Attribute {
    Attribute { name: name.to_owned(), ns: None, value: value.to_owned() }
}

fn elem(name: &str, ns: &str, attrs: Vec<Attribute>, children: Vec<Child>) -> Element {
    Element { name: name.to_owned(), ns: Some(ns.to_owned()), attributes: attrs, children }
}

#[test]
fn iq_new_serializes_with_type_and_id() {
    let iq = Iq::new(IqType::Result, "p1".to_owned());
    assert_eq!(iq.xmpp_str(), "<iq type='result' id='p1'/>");
}

#[test]
fn iq_new_set_to_appends_attribute() {
    let mut iq = Iq::new(IqType::Result, "p1".to_owned());
    iq.set_to(Some("a@b".to_owned()));
    assert_eq!(iq.xmpp_str(), "<iq type='result' id='p1' to='a@b'/>");
}

#[test]
fn message_default_type_is_normal() {
    let m = elem("message", "jabber:client", vec![], vec![]);
    let m = Message::from_element(m).unwrap();
    assert_eq!(m.stanza_type(), Some(MessageType::Normal));
}

#[test]
fn presence_default_type_is_available() {
    let p = elem("presence", "jabber:client", vec![], vec![]);
    let p = Presence::from_element(p).unwrap();
    assert_eq!(p.stanza_type(), Some(PresenceType::Available));
}

#[test]
fn presence_available_omits_type_attribute() {
    let p = Presence::new(PresenceType::Available, "x1".to_owned());
    assert_eq!(p.xmpp_str(), "<presence id='x1'/>");
}

#[test]
fn presence_unavailable_keeps_type_attribute() {
    let p = Presence::new(PresenceType::Unavailable, "x2".to_owned());
    assert_eq!(p.xmpp_str(), "<presence type='unavailable' id='x2'/>");
}

#[test]
fn iq_type_table_reads_all_kinds() {
    for (s, t) in [
        ("get", IqType::Get),
        ("set", IqType::SetQuery),
        ("result", IqType::Result),
        ("error", IqType::Error),
    ] {
        let e = elem("iq", "jabber:client", vec![attr("type", s)], vec![]);
        let iq = Iq::from_element(e).unwrap();
        assert_eq!(iq.stanza_type(), Some(t));
    }
    let e = elem("iq", "jabber:client", vec![attr("type", "odd")], vec![]);
    assert_eq!(Iq::from_element(e).unwrap().stanza_type(), None);
    let e = elem("iq", "jabber:client", vec![], vec![]);
    assert_eq!(Iq::from_element(e).unwrap().stanza_type(), None);
}

#[test]
fn from_element_rejects_wrong_namespace_and_name() {
    let e = elem("iq", "urn:ietf:params:xml:ns:xmpp-sasl", vec![], vec![]);
    assert!(Iq::from_element(e).is_err());
    let e = elem("query", "jabber:client", vec![], vec![]);
    assert!(Iq::from_element(e).is_err());
    let e = elem("iq", "jabber:server", vec![], vec![]);
    assert!(Iq::from_element(e).is_ok());
}

#[test]
fn parse_then_into_inner_preserves_element() {
    let mk = || {
        elem(
            "iq",
            "jabber:client",
            vec![attr("type", "get"), attr("id", "z9")],
            vec![Child::Node(elem("ping", "urn:xmpp:ping", vec![], vec![]))],
        )
    };
    let parsed = Iq::from_element(mk()).unwrap();
    assert_eq!(parsed.into_inner().xml_string(), mk().xml_string());
}

#[test]
fn set_to_roundtrip() {
    let e = elem("message", "jabber:client", vec![], vec![]);
    let mut m = Message::from_element(e).unwrap();
    m.set_to(Some("juliet@example.com".to_owned()));
    assert_eq!(m.to(), Some("juliet@example.com"));
    m.set_to(None);
    assert_eq!(m.to(), None);
}

#[test]
fn astanza_classifies_by_local_name() {
    let e = elem("message", "jabber:client", vec![], vec![]);
    assert!(matches!(AStanza::from_element(e), Ok(AStanza::MessageStanza(_))));
    let e = elem("presence", "jabber:client", vec![], vec![]);
    assert!(matches!(AStanza::from_element(e), Ok(AStanza::PresenceStanza(_))));
    let e = elem("iq", "jabber:client", vec![], vec![]);
    assert!(matches!(AStanza::from_element(e), Ok(AStanza::IqStanza(_))));
    let e = elem("features", "http://etherx.jabber.org/streams", vec![], vec![]);
    assert!(AStanza::from_element(e).is_err());
}

#[test]
fn error_reply_swaps_addressing_and_keeps_id() {
    let e = elem(
        "iq",
        "jabber:client",
        vec![attr("type", "get"), attr("id", "p1"), attr("from", "a@b")],
        vec![],
    );
    let iq = Iq::from_element(e).unwrap();
    let reply = iq.error_reply(ErrorType::Cancel, DefinedCondition::ServiceUnavailable, None);
    assert_eq!(reply.to(), Some("a@b"));
    assert_eq!(reply.from(), None);
    assert_eq!(reply.id(), Some("p1"));
    assert_eq!(reply.stanza_type(), Some(IqType::Error));
    assert_eq!(
        reply.xmpp_str(),
        "<iq type='error' id='p1' to='a@b'><error type='cancel'>\
         <service-unavailable xmlns='urn:ietf:params:xml:ns:xmpp-stanzas'/></error></iq>"
    );
}

#[test]
fn error_reply_without_id_uses_empty_string() {
    let e = elem("iq", "jabber:client", vec![attr("type", "get")], vec![]);
    let iq = Iq::from_element(e).unwrap();
    let reply = iq.error_reply(ErrorType::Modify, DefinedCondition::BadRequest, None);
    assert_eq!(reply.id(), Some(""));
}

#[test]
fn error_reply_carries_optional_text() {
    let e = elem("message", "jabber:client", vec![attr("id", "m1")], vec![]);
    let m = Message::from_element(e).unwrap();
    let reply = m.error_reply(
        ErrorType::Cancel,
        DefinedCondition::Gone("xmpp:romeo@afterlife.example.org".to_owned()),
        Some("gone away".to_owned()),
    );
    assert_eq!(
        reply.xmpp_str(),
        "<message type='error' id='m1'><error type='cancel'>\
         <gone xmlns='urn:ietf:params:xml:ns:xmpp-stanzas'>xmpp:romeo@afterlife.example.org</gone>\
         <text xmlns='urn:ietf:params:xml:ns:xmpp-stanzas'>gone away</text></error></message>"
    );
}

#[test]
fn serialization_escapes_text_and_attributes() {
    let mut e = elem("message", "jabber:client", vec![attr("id", "a<b&c'd")], vec![]);
    e.text("1 < 2 & \"three\"".to_owned());
    assert_eq!(
        e.xml_string(),
        "<message id='a&lt;b&amp;c&apos;d'>1 &lt; 2 &amp; &quot;three&quot;</message>"
    );
}

#[test]
fn content_str_collects_nested_text() {
    let inner = {
        let mut x = elem("jid", "urn:ietf:params:xml:ns:xmpp-bind", vec![], vec![]);
        x.text("alice@localhost/res".to_owned());
        x
    };
    let mut bind = elem("bind", "urn:ietf:params:xml:ns:xmpp-bind", vec![], vec![]);
    bind.tag(inner);
    assert_eq!(bind.content_str(), "alice@localhost/res");
}

#[test]
fn bind_jid_is_read_from_the_bind_child() {
    let mut jid = elem("jid", "urn:ietf:params:xml:ns:xmpp-bind", vec![], vec![]);
    jid.text("alice@localhost/res".to_owned());
    let mut bind = elem("bind", "urn:ietf:params:xml:ns:xmpp-bind", vec![], vec![]);
    bind.tag(jid);
    let mut iq = elem("iq", "jabber:client", vec![attr("type", "result"), attr("id", "bind")], vec![]);
    iq.tag(bind);
    let iq = Iq::from_element(iq).unwrap();
    assert_eq!(iq.get_xmpp_bind_jid(), Some("alice@localhost/res".to_owned()));
}
