//! The `iq` stanza: request/response Info/Query.

use vstd::prelude::*;
use vstd::string::*;
use crate::element::{
    Element, ElemView, view_opt_str, view_opt_string, spec_attr_get, spec_get_child, spec_content,
};
use crate::ns;
use crate::strutil::str_eq;
use super::{
    Stanza, StanzaType, ErrorType, DefinedCondition, spec_set_attr, spec_stanza_accepts,
    spec_error_reply, build_error_reply, spec_new_stanza, build_new_stanza,
};

verus! {

/// The `type` attribute of an `iq` stanza.
#[derive(Clone, Copy, Debug, PartialEq, Eq, Structural)]
pub enum IqType {
    SetQuery,
    Get,
    Result,
    Error,
}

impl StanzaType for IqType {
    open spec fn spec_attr(self) -> Option<Seq<char>> {
        match self {
            IqType::SetQuery => Some("set"@),
            IqType::Get => Some("get"@),
            IqType::Result => Some("result"@),
            IqType::Error => Some("error"@),
        }
    }

    fn attr_string(&self) -> (r: Option<&'static str>) {
        match *self {
            IqType::SetQuery => Some("set"),
            IqType::Get => Some("get"),
            IqType::Result => Some("result"),
            IqType::Error => Some("error"),
        }
    }
}

/// An `iq` stanza.
pub struct Iq {
    elem: Element,
}

/// The `jid` a bind result carries, when it holds one.
pub open spec fn spec_bind_jid(ev: ElemView) -> Option<Seq<char>> {
    match spec_get_child(ev.kids, "bind"@, Some(ns::FEATURE_BIND@)) {
        None => None,
        Some(b) => match spec_get_child(b.kids, "jid"@, Some(ns::FEATURE_BIND@)) {
            None => None,
            Some(j) => Some(spec_content(j)),
        },
    }
}

impl Iq {
    /// A fresh `iq` with the given kind and id.
    pub fn new(ty: IqType, id: String) -> (r: Iq)
        ensures
            r.elemv() == spec_new_stanza("iq"@, ty.spec_attr(), id@),
    {
        Iq { elem: build_new_stanza("iq", ty.attr_string(), id) }
    }

    /// The JID from a resource-binding result:
    /// `<bind xmlns='urn:ietf:params:xml:ns:xmpp-bind'><jid>…</jid></bind>`.
    pub fn get_xmpp_bind_jid(&self) -> (r: Option<String>)
        ensures
            view_opt_string(r) == spec_bind_jid(self.elemv()),
    {
        match self.elem.get_child("bind", Some(ns::FEATURE_BIND)) {
            None => None,
            Some(bind) => match bind.get_child("jid", Some(ns::FEATURE_BIND)) {
                None => None,
                Some(jid) => Some(jid.content_str()),
            },
        }
    }

    /// Appends a child element to the stanza.
    pub fn tag(&mut self, child: Element)
        ensures
            final(self).elemv() == (ElemView {
                kids: old(self).elemv().kids.push(crate::element::KidView::Node(child@)),
                ..old(self).elemv()
            }),
    {
        self.elem.tag(child);
    }
}

impl Stanza for Iq {
    type Ty = IqType;

    closed spec fn elemv(self) -> ElemView {
        self.elem@
    }

    open spec fn local_name() -> Seq<char> {
        "iq"@
    }

    open spec fn ty_of(s: Seq<char>) -> Option<IqType> {
        if s == "get"@ {
            Some(IqType::Get)
        } else if s == "set"@ {
            Some(IqType::SetQuery)
        } else if s == "result"@ {
            Some(IqType::Result)
        } else if s == "error"@ {
            Some(IqType::Error)
        } else {
            None
        }
    }

    open spec fn ty_default() -> Option<IqType> {
        None
    }

    fn from_element(e: Element) -> (r: Result<Iq, Element>) {
        let ok = match &e.ns {
            Some(ns) => str_eq(ns.as_str(), ns::JABBER_CLIENT) || str_eq(
                ns.as_str(),
                ns::JABBER_SERVER,
            ),
            None => false,
        };
        if ok && str_eq(e.name.as_str(), "iq") {
            Ok(Iq { elem: e })
        } else {
            Err(e)
        }
    }

    fn as_element(&self) -> (r: &Element) {
        &self.elem
    }

    fn into_inner(self) -> (r: Element) {
        self.elem
    }

    fn to(&self) -> (r: Option<&str>) {
        self.elem.get_attribute("to", None)
    }

    fn from(&self) -> (r: Option<&str>) {
        self.elem.get_attribute("from", None)
    }

    fn id(&self) -> (r: Option<&str>) {
        self.elem.get_attribute("id", None)
    }

    fn stanza_type(&self) -> (r: Option<IqType>) {
        match self.elem.get_attribute("type", None) {
            Some(t) => {
                if str_eq(t, "get") {
                    Some(IqType::Get)
                } else if str_eq(t, "set") {
                    Some(IqType::SetQuery)
                } else if str_eq(t, "result") {
                    Some(IqType::Result)
                } else if str_eq(t, "error") {
                    Some(IqType::Error)
                } else {
                    None
                }
            },
            None => None,
        }
    }

    fn set_to(&mut self, to: Option<String>) {
        match to {
            Some(s) => {
                let _ = self.elem.set_attribute("to".to_owned(), None, s);
            },
            None => {
                let _ = self.elem.remove_attribute("to", None);
            },
        }
    }

    fn set_from(&mut self, from: Option<String>) {
        match from {
            Some(s) => {
                let _ = self.elem.set_attribute("from".to_owned(), None, s);
            },
            None => {
                let _ = self.elem.remove_attribute("from", None);
            },
        }
    }

    fn set_id(&mut self, id: Option<String>) {
        match id {
            Some(s) => {
                let _ = self.elem.set_attribute("id".to_owned(), None, s);
            },
            None => {
                let _ = self.elem.remove_attribute("id", None);
            },
        }
    }

    fn set_stanza_type(&mut self, ty: IqType) {
        match ty.attr_string() {
            Some(t) => {
                let _ = self.elem.set_attribute("type".to_owned(), None, t.to_owned());
            },
            None => {
                let _ = self.elem.remove_attribute("type", None);
            },
        }
    }

    fn error_reply(&self, ty: ErrorType, cond: DefinedCondition, text: Option<String>) -> (r: Iq) {
        Iq { elem: build_error_reply(&self.elem, "iq", ty, cond, text) }
    }
}

} // verus!
