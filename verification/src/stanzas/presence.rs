//! The `presence` stanza.

use vstd::prelude::*;
use vstd::string::*;
use crate::element::{Element, ElemView, view_opt_str, view_opt_string, spec_attr_get};
use crate::ns;
use crate::strutil::str_eq;
use super::{
    Stanza, StanzaType, ErrorType, DefinedCondition, spec_set_attr, spec_stanza_accepts,
    spec_error_reply, build_error_reply, spec_new_stanza, build_new_stanza,
};

verus! {

/// The `type` attribute of a `presence` stanza; `Available` is the default
/// and is serialized by omitting the attribute.
#[derive(Clone, Copy, Debug, PartialEq, Eq, Structural)]
pub enum PresenceType {
    Error,
    Probe,
    Subscribe,
    Subscribed,
    Unavailable,
    Unsubscribe,
    Unsubscribed,
    Available,
}

impl StanzaType for PresenceType {
    open spec fn spec_attr(self) -> Option<Seq<char>> {
        match self {
            PresenceType::Error => Some("error"@),
            PresenceType::Probe => Some("probe"@),
            PresenceType::Subscribe => Some("subscribe"@),
            PresenceType::Subscribed => Some("subscribed"@),
            PresenceType::Unavailable => Some("unavailable"@),
            PresenceType::Unsubscribe => Some("unsubscribe"@),
            PresenceType::Unsubscribed => Some("unsubscribed"@),
            PresenceType::Available => None,
        }
    }

    fn attr_string(&self) -> (r: Option<&'static str>) {
        match *self {
            PresenceType::Error => Some("error"),
            PresenceType::Probe => Some("probe"),
            PresenceType::Subscribe => Some("subscribe"),
            PresenceType::Subscribed => Some("subscribed"),
            PresenceType::Unavailable => Some("unavailable"),
            PresenceType::Unsubscribe => Some("unsubscribe"),
            PresenceType::Unsubscribed => Some("unsubscribed"),
            PresenceType::Available => None,
        }
    }
}

/// A `presence` stanza.
pub struct Presence {
    elem: Element,
}

impl Presence {
    /// A fresh `presence` with the given kind and id; an `Available`
    /// presence carries no `type` attribute.
    pub fn new(ty: PresenceType, id: String) -> (r: Presence)
        ensures
            r.elemv() == spec_new_stanza("presence"@, ty.spec_attr(), id@),
    {
        Presence { elem: build_new_stanza("presence", ty.attr_string(), id) }
    }

    /// Appends a child element to the stanza.
    pub fn tag(&mut self, child: Element)
        ensures
            final(self).elemv() == (ElemView {
                kids: old(self).elemv().kids.push(crate::element::KidView::Node(child@)),
                ..old(self).elemv()
            }),
    {
        self.elem.tag(child);
    }
}

impl Stanza for Presence {
    type Ty = PresenceType;

    closed spec fn elemv(self) -> ElemView {
        self.elem@
    }

    open spec fn local_name() -> Seq<char> {
        "presence"@
    }

    open spec fn ty_of(s: Seq<char>) -> Option<PresenceType> {
        if s == "error"@ {
            Some(PresenceType::Error)
        } else if s == "probe"@ {
            Some(PresenceType::Probe)
        } else if s == "subscribe"@ {
            Some(PresenceType::Subscribe)
        } else if s == "subscribed"@ {
            Some(PresenceType::Subscribed)
        } else if s == "unavailable"@ {
            Some(PresenceType::Unavailable)
        } else if s == "unsubscribe"@ {
            Some(PresenceType::Unsubscribe)
        } else if s == "unsubscribed"@ {
            Some(PresenceType::Unsubscribed)
        } else {
            None
        }
    }

    open spec fn ty_default() -> Option<PresenceType> {
        Some(PresenceType::Available)
    }

    fn from_element(e: Element) -> (r: Result<Presence, Element>) {
        let ok = match &e.ns {
            Some(ns) => str_eq(ns.as_str(), ns::JABBER_CLIENT) || str_eq(
                ns.as_str(),
                ns::JABBER_SERVER,
            ),
            None => false,
        };
        if ok && str_eq(e.name.as_str(), "presence") {
            Ok(Presence { elem: e })
        } else {
            Err(e)
        }
    }

    fn as_element(&self) -> (r: &Element) {
        &self.elem
    }

    fn into_inner(self) -> (r: Element) {
        self.elem
    }

    fn to(&self) -> (r: Option<&str>) {
        self.elem.get_attribute("to", None)
    }

    fn from(&self) -> (r: Option<&str>) {
        self.elem.get_attribute("from", None)
    }

    fn id(&self) -> (r: Option<&str>) {
        self.elem.get_attribute("id", None)
    }

    fn stanza_type(&self) -> (r: Option<PresenceType>) {
        match self.elem.get_attribute("type", None) {
            Some(t) => {
                if str_eq(t, "error") {
                    Some(PresenceType::Error)
                } else if str_eq(t, "probe") {
                    Some(PresenceType::Probe)
                } else if str_eq(t, "subscribe") {
                    Some(PresenceType::Subscribe)
                } else if str_eq(t, "subscribed") {
                    Some(PresenceType::Subscribed)
                } else if str_eq(t, "unavailable") {
                    Some(PresenceType::Unavailable)
                } else if str_eq(t, "unsubscribe") {
                    Some(PresenceType::Unsubscribe)
                } else if str_eq(t, "unsubscribed") {
                    Some(PresenceType::Unsubscribed)
                } else {
                    None
                }
            },
            None => Some(PresenceType::Available),
        }
    }

    fn set_to(&mut self, to: Option<String>) {
        match to {
            Some(s) => {
                let _ = self.elem.set_attribute("to".to_owned(), None, s);
            },
            None => {
                let _ = self.elem.remove_attribute("to", None);
            },
        }
    }

    fn set_from(&mut self, from: Option<String>) {
        match from {
            Some(s) => {
                let _ = self.elem.set_attribute("from".to_owned(), None, s);
            },
            None => {
                let _ = self.elem.remove_attribute("from", None);
            },
        }
    }

    fn set_id(&mut self, id: Option<String>) {
        match id {
            Some(s) => {
                let _ = self.elem.set_attribute("id".to_owned(), None, s);
            },
            None => {
                let _ = self.elem.remove_attribute("id", None);
            },
        }
    }

    fn set_stanza_type(&mut self, ty: PresenceType) {
        match ty.attr_string() {
            Some(t) => {
                let _ = self.elem.set_attribute("type".to_owned(), None, t.to_owned());
            },
            None => {
                let _ = self.elem.remove_attribute("type", None);
            },
        }
    }

    fn error_reply(&self, ty: ErrorType, cond: DefinedCondition, text: Option<String>) -> (r: Presence) {
        Presence { elem: build_error_reply(&self.elem, "presence", ty, cond, text) }
    }
}

} // verus!
