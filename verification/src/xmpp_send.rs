//! The serialization capability every outbound value offers: an exact wire
//! rendering, stated against the value's model.

use vstd::prelude::*;
use crate::element::{Element, spec_xml};
use crate::stanzas::{Iq, Message, Presence, Stanza};

verus! {

/// A value the engine can put on the wire.
pub trait XmppSend {
    /// The exact character sequence this value renders to.
    spec fn spec_str(&self) -> Seq<char>;

    /// Renders the value for the wire.
    fn xmpp_str(&self) -> (r: String)
        ensures
            r@ == self.spec_str(),
    ;
}

impl XmppSend for Element {
    open spec fn spec_str(&self) -> Seq<char> {
        spec_xml(self@, self@.ns)
    }

    fn xmpp_str(&self) -> (r: String) {
        self.xml_string()
    }
}

impl XmppSend for Iq {
    open spec fn spec_str(&self) -> Seq<char> {
        spec_xml(self.elemv(), self.elemv().ns)
    }

    fn xmpp_str(&self) -> (r: String) {
        self.as_element().xml_string()
    }
}

impl XmppSend for Message {
    open spec fn spec_str(&self) -> Seq<char> {
        spec_xml(self.elemv(), self.elemv().ns)
    }

    fn xmpp_str(&self) -> (r: String) {
        self.as_element().xml_string()
    }
}

impl XmppSend for Presence {
    open spec fn spec_str(&self) -> Seq<char> {
        spec_xml(self.elemv(), self.elemv().ns)
    }

    fn xmpp_str(&self) -> (r: String) {
        self.as_element().xml_string()
    }
}

} // verus!
