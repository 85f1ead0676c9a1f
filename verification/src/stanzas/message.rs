//! The `message` stanza.

use vstd::prelude::*;
use vstd::string::*;
use crate::element::{Element, ElemView, view_opt_str, view_opt_string, spec_attr_get};
use crate::ns;
use crate::strutil::str_eq;
use super::{
    Stanza, StanzaType, ErrorType, DefinedCondition, spec_set_attr, spec_stanza_accepts,
    spec_error_reply, build_error_reply, spec_new_stanza, build_new_stanza,
};

verus! {

/// The `type` attribute of a `message` stanza; `Normal` is assumed when the
/// attribute is absent.
#[derive(Clone, Copy, Debug, PartialEq, Eq, Structural)]
pub enum MessageType {
    Normal,
    Headline,
    Chat,
    Groupchat,
    Error,
}

impl StanzaType for MessageType {
    open spec fn spec_attr(self) -> Option<Seq<char>> {
        match self {
            MessageType::Normal => Some("normal"@),
            MessageType::Headline => Some("headline"@),
            MessageType::Chat => Some("chat"@),
            MessageType::Groupchat => Some("groupchat"@),
            MessageType::Error => Some("error"@),
        }
    }

    fn attr_string(&self) -> (r: Option<&'static str>) {
        match *self {
            MessageType::Normal => Some("normal"),
            MessageType::Headline => Some("headline"),
            MessageType::Chat => Some("chat"),
            MessageType::Groupchat => Some("groupchat"),
            MessageType::Error => Some("error"),
        }
    }
}

/// A `message` stanza.
pub struct Message {
    elem: Element,
}

impl Message {
    /// A fresh `message` with the given kind and id.
    pub fn new(ty: MessageType, id: String) -> (r: Message)
        ensures
            r.elemv() == spec_new_stanza("message"@, ty.spec_attr(), id@),
    {
        Message { elem: build_new_stanza("message", ty.attr_string(), id) }
    }

    /// Appends a child element to the stanza.
    pub fn tag(&mut self, child: Element)
        ensures
            final(self).elemv() == (ElemView {
                kids: old(self).elemv().kids.push(crate::element::KidView::Node(child@)),
                ..old(self).elemv()
            }),
    {
        self.elem.tag(child);
    }
}

impl Stanza for Message {
    type Ty = MessageType;

    closed spec fn elemv(self) -> ElemView {
        self.elem@
    }

    open spec fn local_name() -> Seq<char> {
        "message"@
    }

    open spec fn ty_of(s: Seq<char>) -> Option<MessageType> {
        if s == "normal"@ {
            Some(MessageType::Normal)
        } else if s == "headline"@ {
            Some(MessageType::Headline)
        } else if s == "chat"@ {
            Some(MessageType::Chat)
        } else if s == "groupchat"@ {
            Some(MessageType::Groupchat)
        } else if s == "error"@ {
            Some(MessageType::Error)
        } else {
            None
        }
    }

    open spec fn ty_default() -> Option<MessageType> {
        Some(MessageType::Normal)
    }

    fn from_element(e: Element) -> (r: Result<Message, Element>) {
        let ok = match &e.ns {
            Some(ns) => str_eq(ns.as_str(), ns::JABBER_CLIENT) || str_eq(
                ns.as_str(),
                ns::JABBER_SERVER,
            ),
            None => false,
        };
        if ok && str_eq(e.name.as_str(), "message") {
            Ok(Message { elem: e })
        } else {
            Err(e)
        }
    }

    fn as_element(&self) -> (r: &Element) {
        &self.elem
    }

    fn into_inner(self) -> (r: Element) {
        self.elem
    }

    fn to(&self) -> (r: Option<&str>) {
        self.elem.get_attribute("to", None)
    }

    fn from(&self) -> (r: Option<&str>) {
        self.elem.get_attribute("from", None)
    }

    fn id(&self) -> (r: Option<&str>) {
        self.elem.get_attribute("id", None)
    }

    fn stanza_type(&self) -> (r: Option<MessageType>) {
        match self.elem.get_attribute("type", None) {
            Some(t) => {
                if str_eq(t, "normal") {
                    Some(MessageType::Normal)
                } else if str_eq(t, "headline") {
                    Some(MessageType::Headline)
                } else if str_eq(t, "chat") {
                    Some(MessageType::Chat)
                } else if str_eq(t, "groupchat") {
                    Some(MessageType::Groupchat)
                } else if str_eq(t, "error") {
                    Some(MessageType::Error)
                } else {
                    None
                }
            },
            None => Some(MessageType::Normal),
        }
    }

    fn set_to(&mut self, to: Option<String>) {
        match to {
            Some(s) => {
                let _ = self.elem.set_attribute("to".to_owned(), None, s);
            },
            None => {
                let _ = self.elem.remove_attribute("to", None);
            },
        }
    }

    fn set_from(&mut self, from: Option<String>) {
        match from {
            Some(s) => {
                let _ = self.elem.set_attribute("from".to_owned(), None, s);
            },
            None => {
                let _ = self.elem.remove_attribute("from", None);
            },
        }
    }

    fn set_id(&mut self, id: Option<String>) {
        match id {
            Some(s) => {
                let _ = self.elem.set_attribute("id".to_owned(), None, s);
            },
            None => {
                let _ = self.elem.remove_attribute("id", None);
            },
        }
    }

    fn set_stanza_type(&mut self, ty: MessageType) {
        match ty.attr_string() {
            Some(t) => {
                let _ = self.elem.set_attribute("type".to_owned(), None, t.to_owned());
            },
            None => {
                let _ = self.elem.remove_attribute("type", None);
            },
        }
    }

    fn error_reply(&self, ty: ErrorType, cond: DefinedCondition, text: Option<String>) -> (r: Message) {
        Message { elem: build_error_reply(&self.elem, "message", ty, cond, text) }
    }
}

} // verus!
