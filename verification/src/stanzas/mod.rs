//! The stanza model: typed wrappers over an XML element constrained to the
//! stanza namespaces and to one of the local names `iq`, `message` and
//! `presence`, with accessors, setters and error-reply construction.

pub mod iq;
pub mod message;
pub mod presence;

pub use self::iq::Iq;
pub use self::iq::IqType;
pub use self::message::Message;
pub use self::message::MessageType;
pub use self::presence::Presence;
pub use self::presence::PresenceType;

use vstd::prelude::*;
use vstd::string::*;
use crate::element::{
    Element, ElemView, AttrView, KidView, Attribute, view_opt_str, view_opt_string, spec_attr_get,
    spec_attr_idx, spec_get_child, spec_content, attr_matches, lemma_attr_idx,
    lemma_attr_idx_found,
};
use crate::ns;
use crate::strutil::str_eq;

verus! {

/// The `type` attribute of a stanza `<error>` child.
pub enum ErrorType {
    Auth,
    Cancel,
    Continue,
    Modify,
    Wait,
}

impl ErrorType {
    /// The wire value of this error type.
    pub open spec fn spec_attr(self) -> Seq<char> {
        match self {
            ErrorType::Auth => "auth"@,
            ErrorType::Cancel => "cancel"@,
            ErrorType::Continue => "continue"@,
            ErrorType::Modify => "modify"@,
            ErrorType::Wait => "wait"@,
        }
    }

    /// The wire value of this error type.
    pub fn attr_string(&self) -> (r: &'static str)
        ensures
            r@ == self.spec_attr(),
    {
        match *self {
            ErrorType::Auth => "auth",
            ErrorType::Cancel => "cancel",
            ErrorType::Continue => "continue",
            ErrorType::Modify => "modify",
            ErrorType::Wait => "wait",
        }
    }
}

/// A defined stanza-error condition; `Gone` and `Redirect` carry a new
/// address as text.
pub enum DefinedCondition {
    BadRequest,
    Conflict,
    FeatureNotImplemented,
    Forbidden,
    Gone(String),
    InternalServerError,
    ItemNotFound,
    JidMalformed,
    NotAcceptable,
    NotAllowed,
    NotAuthorized,
    PolicyViolation,
    RecipientUnavailable,
    Redirect(String),
    RegistrationRequired,
    RemoteServerNotFound,
    RemoteServerTimeout,
    ResourceConstraint,
    ServiceUnavailable,
    SubscriptionRequired,
    UndefinedCondition,
    UnexpectedRequest,
}

impl DefinedCondition {
    /// The element name of this condition.
    pub open spec fn spec_name(self) -> Seq<char> {
        match self {
            DefinedCondition::BadRequest => "bad-request"@,
            DefinedCondition::Conflict => "conflict"@,
            DefinedCondition::FeatureNotImplemented => "feature-not-implemented"@,
            DefinedCondition::Forbidden => "forbidden"@,
            DefinedCondition::Gone(_) => "gone"@,
            DefinedCondition::InternalServerError => "internal-server-error"@,
            DefinedCondition::ItemNotFound => "item-not-found"@,
            DefinedCondition::JidMalformed => "jid-malformed"@,
            DefinedCondition::NotAcceptable => "not-acceptable"@,
            DefinedCondition::NotAllowed => "not-allowed"@,
            DefinedCondition::NotAuthorized => "not-authorized"@,
            DefinedCondition::PolicyViolation => "policy-violation"@,
            DefinedCondition::RecipientUnavailable => "recipient-unavailable"@,
            DefinedCondition::Redirect(_) => "redirect"@,
            DefinedCondition::RegistrationRequired => "registration-required"@,
            DefinedCondition::RemoteServerNotFound => "remote-server-not-found"@,
            DefinedCondition::RemoteServerTimeout => "remote-server-timeout"@,
            DefinedCondition::ResourceConstraint => "resource-constraint"@,
            DefinedCondition::ServiceUnavailable => "service-unavailable"@,
            DefinedCondition::SubscriptionRequired => "subscription-required"@,
            DefinedCondition::UndefinedCondition => "undefined-condition"@,
            DefinedCondition::UnexpectedRequest => "unexpected-request"@,
        }
    }

    /// The text carried by the parameterized conditions.
    pub open spec fn spec_text(self) -> Option<Seq<char>> {
        match self {
            DefinedCondition::Gone(g) => Some(g@),
            DefinedCondition::Redirect(r) => Some(r@),
            _ => None,
        }
    }

    /// The condition rendered as an element in the stanza-errors namespace.
    pub open spec fn spec_element(self) -> ElemView {
        ElemView {
            name: self.spec_name(),
            ns: Some(ns::STANZA_ERRORS@),
            attrs: Seq::empty(),
            kids: match self.spec_text() {
                Some(t) => seq![KidView::Text(t)],
                None => Seq::empty(),
            },
        }
    }

    /// Builds the condition element.
    pub fn element(self) -> (r: Element)
        ensures
            r@ == self.spec_element(),
    {
        let name: &'static str = match &self {
            DefinedCondition::BadRequest => "bad-request",
            DefinedCondition::Conflict => "conflict",
            DefinedCondition::FeatureNotImplemented => "feature-not-implemented",
            DefinedCondition::Forbidden => "forbidden",
            DefinedCondition::Gone(_) => "gone",
            DefinedCondition::InternalServerError => "internal-server-error",
            DefinedCondition::ItemNotFound => "item-not-found",
            DefinedCondition::JidMalformed => "jid-malformed",
            DefinedCondition::NotAcceptable => "not-acceptable",
            DefinedCondition::NotAllowed => "not-allowed",
            DefinedCondition::NotAuthorized => "not-authorized",
            DefinedCondition::PolicyViolation => "policy-violation",
            DefinedCondition::RecipientUnavailable => "recipient-unavailable",
            DefinedCondition::Redirect(_) => "redirect",
            DefinedCondition::RegistrationRequired => "registration-required",
            DefinedCondition::RemoteServerNotFound => "remote-server-not-found",
            DefinedCondition::RemoteServerTimeout => "remote-server-timeout",
            DefinedCondition::ResourceConstraint => "resource-constraint",
            DefinedCondition::ServiceUnavailable => "service-unavailable",
            DefinedCondition::SubscriptionRequired => "subscription-required",
            DefinedCondition::UndefinedCondition => "undefined-condition",
            DefinedCondition::UnexpectedRequest => "unexpected-request",
        };
        let mut e = Element::new(name.to_owned(), Some(ns::STANZA_ERRORS.to_owned()), Vec::new());
        match self {
            DefinedCondition::Gone(g) => {
                e.text(g);
            },
            DefinedCondition::Redirect(r) => {
                e.text(r);
            },
            _ => {},
        }
        proof {
            assert(e@ =~~= self.spec_element());
        }
        e
    }
}

/// The stanza-specific `type` attribute: a finite table of wire values, with
/// `None` for a kind that is serialized by omitting the attribute.
pub trait StanzaType: Sized {
    /// The wire value of this kind.
    spec fn spec_attr(self) -> Option<Seq<char>>;

    /// The wire value of this kind.
    fn attr_string(&self) -> (r: Option<&'static str>)
        ensures
            view_opt_str(r) == self.spec_attr(),
    ;
}

/// An attribute sequence with `name` (no namespace) bound to `value`,
/// replacing the first binding or appending a new one.
pub open spec fn spec_attrs_put(attrs: Seq<AttrView>, name: Seq<char>, value: Seq<char>) -> Seq<AttrView> {
    let i = spec_attr_idx(attrs, name, None);
    let nv = AttrView { name: name, ns: None, value: value };
    if i == -1 {
        attrs.push(nv)
    } else {
        attrs.update(i, nv)
    }
}

/// An attribute sequence with the first binding of `name` (no namespace)
/// removed.
pub open spec fn spec_attrs_drop(attrs: Seq<AttrView>, name: Seq<char>) -> Seq<AttrView> {
    let i = spec_attr_idx(attrs, name, None);
    if i == -1 {
        attrs
    } else {
        attrs.remove(i)
    }
}

/// The element with `name` bound to `v`, or with `name` removed when `v` is
/// `None`.
pub open spec fn spec_set_attr(ev: ElemView, name: Seq<char>, v: Option<Seq<char>>) -> ElemView {
    ElemView {
        attrs: match v {
            Some(s) => spec_attrs_put(ev.attrs, name, s),
            None => spec_attrs_drop(ev.attrs, name),
        },
        ..ev
    }
}

/// Whether an attribute key occurs at most once, as it does in any element
/// read off the wire or built by this crate's setters.
pub open spec fn attr_key_unique(attrs: Seq<AttrView>, name: Seq<char>) -> bool {
    forall|i: int, j: int|
        0 <= i < attrs.len() && 0 <= j < attrs.len() && attr_matches(
            #[trigger] attrs[i],
            name,
            None,
        ) && attr_matches(#[trigger] attrs[j], name, None) ==> i == j
}

/// Setting an attribute and reading it back yields exactly the value set:
/// binding a value makes the attribute read as that value, and removing it
/// leaves nothing to read.  The element must carry the key at most once,
/// as every element read off the wire does.
pub proof fn lemma_set_then_get(ev: ElemView, name: Seq<char>, v: Option<Seq<char>>)
    requires
        attr_key_unique(ev.attrs, name),
    ensures
        spec_attr_get(spec_set_attr(ev, name, v).attrs, name, None) == v,
{
    let attrs = ev.attrs;
    let i = spec_attr_idx(attrs, name, None);
    lemma_attr_idx(attrs, name, None);
    match v {
        Some(s) => {
            let nv = AttrView { name: name, ns: None, value: s };
            if i == -1 {
                let na = attrs.push(nv);
                lemma_attr_idx_found(na, name, None, attrs.len() as int);
            } else {
                let na = attrs.update(i, nv);
                lemma_attr_idx_found(na, name, None, i);
            }
        },
        None => {
            if i != -1 {
                let na = attrs.remove(i);
                lemma_attr_idx(na, name, None);
                if spec_attr_idx(na, name, None) != -1 {
                    let k = spec_attr_idx(na, name, None);
                    if k < i {
                        assert(na[k] == attrs[k]);
                    } else {
                        assert(na[k] == attrs[k + 1]);
                    }
                    assert(false);
                }
            }
        },
    }
}

/// Whether `ns` is one of the two namespaces a stanza may stand in.
pub open spec fn spec_stanza_ns(ns: Option<Seq<char>>) -> bool {
    ns == Some(crate::ns::JABBER_CLIENT@) || ns == Some(crate::ns::JABBER_SERVER@)
}

/// Whether an element converts to the stanza kind with local name `local`.
pub open spec fn spec_stanza_accepts(ev: ElemView, local: Seq<char>) -> bool {
    spec_stanza_ns(ev.ns) && ev.name == local
}

/// The reply the engine sends for a stanza it cannot serve: same local name,
/// addressed back to the sender, the original id (empty when there was
/// none), `type='error'`, and an `<error>` child holding the condition and
/// an optional text.
pub open spec fn spec_error_reply(
    ev: ElemView,
    local: Seq<char>,
    ty: ErrorType,
    cond: DefinedCondition,
    text: Option<Seq<char>>,
) -> ElemView {
    let id = match spec_attr_get(ev.attrs, "id"@, None) {
        Some(i) => i,
        None => Seq::empty(),
    };
    let err = ElemView {
        name: "error"@,
        ns: Some(ns::JABBER_CLIENT@),
        attrs: seq![AttrView { name: "type"@, ns: None, value: ty.spec_attr() }],
        kids: match text {
            Some(t) => seq![
                KidView::Node(cond.spec_element()),
                KidView::Node(
                    ElemView {
                        name: "text"@,
                        ns: Some(ns::STANZA_ERRORS@),
                        attrs: Seq::empty(),
                        kids: seq![KidView::Text(t)],
                    },
                ),
            ],
            None => seq![KidView::Node(cond.spec_element())],
        },
    };
    let reply = ElemView {
        name: local,
        ns: Some(ns::JABBER_CLIENT@),
        attrs: seq![
            AttrView { name: "type"@, ns: None, value: "error"@ },
            AttrView { name: "id"@, ns: None, value: id },
        ],
        kids: seq![KidView::Node(err)],
    };
    match spec_attr_get(ev.attrs, "from"@, None) {
        Some(f) => spec_set_attr(reply, "to"@, Some(f)),
        None => reply,
    }
}

/// Builds the error reply described by [`spec_error_reply`].
pub fn build_error_reply(
    orig: &Element,
    local: &str,
    ty: ErrorType,
    cond: DefinedCondition,
    text: Option<String>,
) -> (r: Element)
    ensures
        r@ == spec_error_reply(orig@, local@, ty, cond, view_opt_string(text)),
{
    proof {
        reveal_strlit("to");
        reveal_strlit("type");
        reveal_strlit("id");
        assert("to"@.len() == 2);
        assert("type"@.len() == 4);
        assert("id"@.len() == 2);
        assert("to"@[0] == 't');
        assert("id"@[0] == 'i');
        assert("to"@ != "type"@);
        assert("to"@ != "id"@);
        assert("type"@ != "id"@);
    }
    let ghost textv = view_opt_string(text);
    let id: String = match orig.get_attribute("id", None) {
        Some(s) => s.to_owned(),
        None => String::new(),
    };
    let to: Option<String> = match orig.get_attribute("from", None) {
        Some(s) => Some(s.to_owned()),
        None => None,
    };
    let ghost idv = id@;
    let mut attrs: Vec<Attribute> = Vec::new();
    attrs.push(Attribute { name: "type".to_owned(), ns: None, value: "error".to_owned() });
    attrs.push(Attribute { name: "id".to_owned(), ns: None, value: id });
    let mut reply = Element::new(local.to_owned(), Some(ns::JABBER_CLIENT.to_owned()), attrs);

    let ghost target = spec_error_reply(orig@, local@, ty, cond, textv);
    let ghost condev = cond.spec_element();
    let mut eattrs: Vec<Attribute> = Vec::new();
    eattrs.push(Attribute { name: "type".to_owned(), ns: None, value: ty.attr_string().to_owned() });
    let mut error = Element::new("error".to_owned(), Some(ns::JABBER_CLIENT.to_owned()), eattrs);
    error.tag(cond.element());
    match text {
        Some(t) => {
            let mut te = Element::new("text".to_owned(), Some(ns::STANZA_ERRORS.to_owned()), Vec::new());
            te.text(t);
            proof {
                assert(te@ =~~= (ElemView {
                    name: "text"@,
                    ns: Some(ns::STANZA_ERRORS@),
                    attrs: Seq::empty(),
                    kids: seq![KidView::Text(textv->0)],
                }));
            }
            error.tag(te);
        },
        None => {},
    }
    let ghost errv = ElemView {
        name: "error"@,
        ns: Some(ns::JABBER_CLIENT@),
        attrs: seq![AttrView { name: "type"@, ns: None, value: ty.spec_attr() }],
        kids: match textv {
            Some(t) => seq![
                KidView::Node(condev),
                KidView::Node(
                    ElemView {
                        name: "text"@,
                        ns: Some(ns::STANZA_ERRORS@),
                        attrs: Seq::empty(),
                        kids: seq![KidView::Text(t)],
                    },
                ),
            ],
            None => seq![KidView::Node(condev)],
        },
    };
    proof {
        assert(error@.name == errv.name);
        assert(error@.ns == errv.ns);
        assert(error@.attrs =~~= errv.attrs);
        assert(error@.kids =~~= errv.kids);
        assert(error@ =~~= errv);
    }
    reply.tag(error);
    proof {
        assert(reply@.attrs =~~= seq![
            AttrView { name: "type"@, ns: None, value: "error"@ },
            AttrView { name: "id"@, ns: None, value: idv },
        ]);
        assert(reply@.kids =~~= seq![KidView::Node(errv)]);
    }
    match to {
        Some(t) => {
            proof {
                crate::element::lemma_attr_idx(reply@.attrs, "to"@, None);
            }
            let _ = reply.set_attribute("to".to_owned(), None, t);
        },
        None => {},
    }
    proof {
        assert(reply@ =~~= target);
    }
    reply
}

/// The element a fresh stanza starts from: the given local name in the
/// client namespace, a `type` attribute where the kind has a wire value,
/// and the given id.
pub open spec fn spec_new_stanza(local: Seq<char>, tyattr: Option<Seq<char>>, id: Seq<char>) -> ElemView {
    ElemView {
        name: local,
        ns: Some(ns::JABBER_CLIENT@),
        attrs: match tyattr {
            Some(v) => seq![
                AttrView { name: "type"@, ns: None, value: v },
                AttrView { name: "id"@, ns: None, value: id },
            ],
            None => seq![AttrView { name: "id"@, ns: None, value: id }],
        },
        kids: Seq::empty(),
    }
}

/// Builds the element described by [`spec_new_stanza`].
pub fn build_new_stanza(local: &str, tyattr: Option<&'static str>, id: String) -> (r: Element)
    ensures
        r@ == spec_new_stanza(local@, view_opt_str(tyattr), id@),
{
    let ghost idv = id@;
    let mut attrs: Vec<Attribute> = Vec::new();
    match tyattr {
        Some(t) => {
            attrs.push(Attribute { name: "type".to_owned(), ns: None, value: t.to_owned() });
        },
        None => {},
    }
    attrs.push(Attribute { name: "id".to_owned(), ns: None, value: id });
    let r = Element::new(local.to_owned(), Some(ns::JABBER_CLIENT.to_owned()), attrs);
    proof {
        assert(r@ =~~= spec_new_stanza(local@, view_opt_str(tyattr), idv));
    }
    r
}

/// The capability set every stanza kind offers.
pub trait Stanza: Sized {
    /// The stanza's `type` attribute domain.
    type Ty: StanzaType;

    /// The model of the underlying element.
    spec fn elemv(self) -> ElemView;

    /// The local name this kind requires: `iq`, `message` or `presence`.
    spec fn local_name() -> Seq<char>;

    /// The per-kind table from a `type` attribute value to a kind.
    spec fn ty_of(s: Seq<char>) -> Option<Self::Ty>;

    /// The kind assumed when the `type` attribute is absent.
    spec fn ty_default() -> Option<Self::Ty>;

    /// Converts an element into this stanza kind; an element in the wrong
    /// namespace or under another name comes back unchanged.
    fn from_element(e: Element) -> (r: Result<Self, Element>)
        ensures
            spec_stanza_accepts(e@, Self::local_name()) ==> (r matches Ok(s) && s.elemv() == e@),
            !spec_stanza_accepts(e@, Self::local_name()) ==> (r matches Err(e2) && e2 == e),
    ;

    /// The underlying element.
    fn as_element(&self) -> (r: &Element)
        ensures
            r@ == self.elemv(),
    ;

    /// The underlying element.
    fn into_inner(self) -> (r: Element)
        ensures
            r@ == self.elemv(),
    ;

    /// The `to` attribute.
    fn to(&self) -> (r: Option<&str>)
        ensures
            view_opt_str(r) == spec_attr_get(self.elemv().attrs, "to"@, None),
    ;

    /// The `from` attribute.
    fn from(&self) -> (r: Option<&str>)
        ensures
            view_opt_str(r) == spec_attr_get(self.elemv().attrs, "from"@, None),
    ;

    /// The `id` attribute.
    fn id(&self) -> (r: Option<&str>)
        ensures
            view_opt_str(r) == spec_attr_get(self.elemv().attrs, "id"@, None),
    ;

    /// The stanza's kind, read from the `type` attribute through the
    /// per-kind table.
    fn stanza_type(&self) -> (r: Option<Self::Ty>)
        ensures
            r == (match spec_attr_get(self.elemv().attrs, "type"@, None) {
                Some(t) => Self::ty_of(t),
                None => Self::ty_default(),
            }),
    ;

    /// Sets or removes the `to` attribute.
    fn set_to(&mut self, to: Option<String>)
        ensures
            final(self).elemv() == spec_set_attr(old(self).elemv(), "to"@, view_opt_string(to)),
    ;

    /// Sets or removes the `from` attribute.
    fn set_from(&mut self, from: Option<String>)
        ensures
            final(self).elemv() == spec_set_attr(
                old(self).elemv(),
                "from"@,
                view_opt_string(from),
            ),
    ;

    /// Sets or removes the `id` attribute.
    fn set_id(&mut self, id: Option<String>)
        ensures
            final(self).elemv() == spec_set_attr(old(self).elemv(), "id"@, view_opt_string(id)),
    ;

    /// Sets the `type` attribute, removing it for a kind whose wire form is
    /// the absent attribute.
    fn set_stanza_type(&mut self, ty: Self::Ty)
        ensures
            final(self).elemv() == spec_set_attr(old(self).elemv(), "type"@, ty.spec_attr()),
    ;

    /// The error reply for this stanza; see [`spec_error_reply`].
    fn error_reply(&self, ty: ErrorType, cond: DefinedCondition, text: Option<String>) -> (r: Self)
        ensures
            r.elemv() == spec_error_reply(
                self.elemv(),
                Self::local_name(),
                ty,
                cond,
                view_opt_string(text),
            ),
    ;
}

/// The disjoint union of the three stanza kinds.
pub enum AStanza {
    IqStanza(Iq),
    MessageStanza(Message),
    PresenceStanza(Presence),
}

impl AStanza {
    /// Classifies an element in a stanza namespace by its local name; any
    /// other element comes back unchanged.
    pub fn from_element(e: Element) -> (r: Result<AStanza, Element>)
        ensures
            spec_stanza_accepts(e@, "iq"@) ==> (r matches Ok(s) && s matches AStanza::IqStanza(iq)
                && iq.elemv() == e@),
            spec_stanza_accepts(e@, "message"@) ==> (r matches Ok(s) && s matches
                AStanza::MessageStanza(m) && m.elemv() == e@),
            spec_stanza_accepts(e@, "presence"@) ==> (r matches Ok(s) && s matches
                AStanza::PresenceStanza(p) && p.elemv() == e@),
            !(spec_stanza_accepts(e@, "iq"@) || spec_stanza_accepts(e@, "message"@)
                || spec_stanza_accepts(e@, "presence"@)) ==> (r matches Err(e2) && e2 == e),
    {
        proof {
            reveal_strlit("iq");
            reveal_strlit("message");
            reveal_strlit("presence");
            assert("iq"@.len() == 2);
            assert("message"@.len() == 7);
            assert("presence"@.len() == 8);
            assert("iq"@ != "message"@);
            assert("iq"@ != "presence"@);
            assert("message"@ != "presence"@);
        }
        let in_ns = match &e.ns {
            Some(ns) => str_eq(ns.as_str(), ns::JABBER_CLIENT) || str_eq(
                ns.as_str(),
                ns::JABBER_SERVER,
            ),
            None => false,
        };
        if !in_ns {
            return Err(e);
        }
        if str_eq(e.name.as_str(), "iq") {
            match Stanza::from_element(e) {
                Ok(s) => Ok(AStanza::IqStanza(s)),
                Err(e) => Err(e),
            }
        } else if str_eq(e.name.as_str(), "message") {
            match Stanza::from_element(e) {
                Ok(s) => Ok(AStanza::MessageStanza(s)),
                Err(e) => Err(e),
            }
        } else if str_eq(e.name.as_str(), "presence") {
            match Stanza::from_element(e) {
                Ok(s) => Ok(AStanza::PresenceStanza(s)),
                Err(e) => Err(e),
            }
        } else {
            Err(e)
        }
    }
}

} // verus!
