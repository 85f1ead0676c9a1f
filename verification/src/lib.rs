//! Client-side XMPP protocol engine.
//!
//! The crate holds the verified core of an XMPP client: the stanza model,
//! the SASL mechanisms (PLAIN, ANONYMOUS, SCRAM-SHA-1), the serialization of
//! stream-level frames, the UTF-8 chunking rule for socket reads, and the
//! stream-negotiation state machine.  Socket, TLS and XML-parser plumbing
//! live outside the library and drive it through plain values: the engine
//! classifies each complete inbound element, advances the negotiation, and
//! hands back the frames to put on the wire.

pub mod ns;
pub mod strutil;
pub mod element;
pub mod stanzas;
pub mod non_stanzas;
pub mod xmpp_send;
pub mod read_str;
pub mod b64;
pub mod auth;

use vstd::prelude::*;
use vstd::string::*;
use vstd::utf8::encode_utf8;
use crate::auth::{AnonAuth, Authenticator, PlainAuth, ScramAuth};
use crate::auth::scram::{spec_gs2, spec_cfmb, nonce_ok, State};
use crate::b64::{b64_of, b64_dec, b64_encode, b64_decode};
use crate::element::{
    Element, ElemView, KidView, lemma_kids_view, spec_attr_get, spec_content, spec_get_child,
    spec_xml, view_opt_string, opt_str_eq,
};
use crate::non_stanzas::{
    AuthResponse, AuthStart, DefinedCondition, StartTls, StreamEnd, StreamError, StreamStart,
    spec_stream_start_str, spec_stream_end_str, spec_starttls_str, spec_auth_start_str,
    spec_auth_response_str,
};
use crate::stanzas::{
    AStanza, ErrorType, Iq, IqType, Message, Presence, Stanza, spec_stanza_accepts,
    spec_error_reply, spec_new_stanza,
};
use crate::strutil::str_eq;
use crate::xmpp_send::XmppSend;

verus! {

/// One step the driver must take on the wire, in order: write the given
/// text and flush, or upgrade the socket to TLS.
pub enum Action {
    Send(String),
    StartTls,
}

/// Whether an action writes exactly the given characters.
pub open spec fn act_is_send(a: Action, s: Seq<char>) -> bool {
    a matches Action::Send(x) && x@ == s
}

/// The mechanism the engine authenticates with, picked during negotiation.
pub enum AuthMech {
    Anon(AnonAuth),
    Plain(PlainAuth),
    Scram(ScramAuth),
}

/// What one `continuation` call of a held mechanism promises, between an
/// optional holder before and after.
pub open spec fn mech_cont_opt(
    a: AuthMech,
    ob: Option<AuthMech>,
    d: Seq<u8>,
    cr: Result<Vec<u8>, &'static str>,
) -> bool {
    ob matches Some(b) && mech_cont(a, b, d, cr)
}

/// What one `continuation` call of the held mechanism promises.
pub open spec fn mech_cont(
    a: AuthMech,
    b: AuthMech,
    d: Seq<u8>,
    cr: Result<Vec<u8>, &'static str>,
) -> bool {
    match (a, b) {
        (AuthMech::Anon(x), AuthMech::Anon(y)) => AnonAuth::ens_continuation(x, y, d, cr),
        (AuthMech::Plain(x), AuthMech::Plain(y)) => PlainAuth::ens_continuation(x, y, d, cr),
        (AuthMech::Scram(x), AuthMech::Scram(y)) => ScramAuth::ens_continuation(x, y, d, cr),
        _ => false,
    }
}

/// The negotiation state the engine keeps between inbound elements.
pub struct XmppHandler {
    pub username: String,
    pub password: String,
    pub domain: String,
    pub closed: bool,
    pub secure: bool,
    pub authenticator: Option<AuthMech>,
    pub pending_bind_id: Option<String>,
}

/// The obligation to answer an inbound iq request: either `respond` is
/// called, or releasing the guard yields the default error reply to send.
pub struct IqGuard {
    iq: Iq,
    responded: bool,
}

/// What the caller sees from one `handle_element` call, once negotiation
/// frames have been taken care of.
pub enum Event {
    IqRequest(IqGuard),
    IqResponse(Iq),
    Message(Message),
    Presence(Presence),
    /// The server-assigned JID after resource binding.
    Bound(Option<String>),
    BindError(Iq),
    /// Reserved: the engine does not yet surface `<stream:error>`
    /// elements; they fall through classification unanswered.
    StreamError(Element),
    StreamClosed,
}

impl IqGuard {
    /// The model of the iq this guard answers for.
    pub closed spec fn spec_iq(self) -> ElemView {
        self.iq.elemv()
    }

    /// Whether `respond` has been called.
    pub closed spec fn spec_responded(self) -> bool {
        self.responded
    }

    /// The iq this guard answers for.
    pub fn iq(&self) -> (r: &Iq)
        ensures
            r.elemv() == self.spec_iq(),
    {
        &self.iq
    }

    /// Marks the request as answered and returns the wire form of the
    /// response for the driver to send.
    pub fn respond(&mut self, response: &Iq) -> (r: String)
        ensures
            final(self).spec_iq() == old(self).spec_iq(),
            final(self).spec_responded(),
            r@ == spec_xml(response.elemv(), response.elemv().ns),
    {
        self.responded = true;
        response.xmpp_str()
    }

    /// Releases the guard.  An unanswered request with an id yields
    /// exactly one default error reply — `type='error'`, condition
    /// `service-unavailable`, error type `cancel`, addressed back to the
    /// sender under the original id — and nothing is owed otherwise.
    pub fn release(self) -> (r: Option<String>)
        ensures
            ({
                let must_reply = !self.spec_responded() && spec_attr_get(
                    self.spec_iq().attrs,
                    "id"@,
                    None,
                ) is Some;
                &&& must_reply ==> (r matches Some(s) && s@ == {
                    let reply = spec_error_reply(
                        self.spec_iq(),
                        "iq"@,
                        ErrorType::Cancel,
                        stanzas::DefinedCondition::ServiceUnavailable,
                        None,
                    );
                    spec_xml(reply, reply.ns)
                })
                &&& !must_reply ==> r is None
            }),
    {
        if self.responded {
            return None;
        }
        match self.iq.id() {
            None => None,
            Some(_) => {
                let reply = self.iq.error_reply(
                    ErrorType::Cancel,
                    stanzas::DefinedCondition::ServiceUnavailable,
                    None,
                );
                Some(reply.xmpp_str())
            },
        }
    }
}

/// Fields `close_stream` leaves alone, and the close frame it owes: the
/// first close sends `</stream:stream>` once, every later one nothing.
pub open spec fn spec_close_stream(h: XmppHandler) -> (XmppHandler, Option<Seq<char>>) {
    if h.closed {
        (h, None)
    } else {
        (XmppHandler { closed: true, ..h }, Some(spec_stream_end_str()))
    }
}

/// However often the stream is closed, at most one closing tag is ever
/// produced: a second close right after a first one yields nothing.
pub proof fn lemma_close_stream_at_most_once(h: XmppHandler)
    ensures
        spec_close_stream(spec_close_stream(h).0).1 is None,
{
}

/// What `handle_starttls` promises: on `proceed` the socket is upgraded
/// and the very next outbound text is a fresh stream header; anything else
/// is ignored.
pub open spec fn starttls_ok(
    pre: XmppHandler,
    post: XmppHandler,
    ev: ElemView,
    acts: Seq<Action>,
) -> bool {
    if ev.name == "proceed"@ {
        &&& post == (XmppHandler { secure: true, ..pre })
        &&& acts.len() == 2
        &&& acts[0] is StartTls
        &&& act_is_send(acts[1], spec_stream_start_str(pre.domain@))
    } else {
        post == pre && acts.len() == 0
    }
}

/// What starting one mechanism promises: the authenticator is installed
/// with the engine's credentials, and the one outbound frame is the
/// `<auth>` element carrying the mechanism's initial data in base64.
pub open spec fn mech_started(pre: XmppHandler, post: XmppHandler, m: Seq<char>, a: Action) -> bool {
    if m == "PLAIN"@ {
        &&& post.authenticator matches Some(AuthMech::Plain(p)) && p.authcid@ == pre.username@
            && p.passwd@ == pre.password@ && p.authzid is None
        &&& act_is_send(
            a,
            spec_auth_start_str(
                m,
                b64_of(auth::plain::spec_plain_message(pre.username@, pre.password@, None)),
            ),
        )
    } else if m == "ANONYMOUS"@ {
        &&& post.authenticator matches Some(AuthMech::Anon(_))
        &&& act_is_send(a, spec_auth_start_str(m, b64_of(Seq::<u8>::empty())))
    } else if m == "SCRAM-SHA-1"@ {
        &&& post.authenticator matches Some(AuthMech::Scram(sc)) && {
            &&& sc.authcid@ == pre.username@
            &&& sc.passwd@ == pre.password@
            &&& sc.authzid is None
            &&& sc.state matches State::WaitFirst(cn, cfmb) && nonce_ok(cn@) && cfmb@ == spec_cfmb(
                pre.username@,
                cn@,
            ) && act_is_send(
                a,
                spec_auth_start_str(
                    m,
                    b64_of(encode_utf8(spec_gs2(None)) + encode_utf8(cfmb@)),
                ),
            )
        }
    } else {
        false
    }
}

/// The mechanism names offered by a `<mechanisms>` element, in document
/// order.
pub open spec fn spec_mechs(kids: Seq<KidView>) -> Seq<Seq<char>>
    decreases kids,
{
    if kids.len() == 0 {
        Seq::empty()
    } else {
        (match kids[0] {
            KidView::Node(c) => if c.name == "mechanism"@ && c.ns == Some(
                ns::FEATURE_SASL@,
            ) {
                seq![spec_content(c)]
            } else {
                Seq::empty()
            },
            KidView::Text(_) => Seq::empty(),
        }) + spec_mechs(kids.drop_first())
    }
}

/// The offered names split at any point: what comes before a child and
/// what comes from it on.
pub proof fn lemma_mechs_split(kids: Seq<KidView>, i: int)
    requires
        0 <= i <= kids.len(),
    ensures
        spec_mechs(kids) == spec_mechs(kids.take(i)) + spec_mechs(kids.skip(i)),
    decreases i,
{
    if i == 0 {
        assert(kids.take(0) =~= Seq::<KidView>::empty());
        assert(kids.skip(0) =~= kids);
        assert(spec_mechs(kids) =~= spec_mechs(kids.take(0)) + spec_mechs(kids.skip(0)));
    } else {
        lemma_mechs_split(kids.drop_first(), i - 1);
        assert(kids.take(i).drop_first() =~= kids.drop_first().take(i - 1));
        assert(kids.take(i)[0] == kids[0]);
        assert(kids.skip(i) =~= kids.drop_first().skip(i - 1));
        assert(spec_mechs(kids) =~= spec_mechs(kids.take(i)) + spec_mechs(kids.skip(i)));
    }
}

/// What `handle_mechs` promises: at most one `<auth>` goes out; when one
/// does, it starts the first workable mechanism the server offered —
/// earlier names were either unrecognized or a SCRAM offer whose nonce
/// could not be drawn — and when none does, nothing changed.
pub open spec fn mechs_ok(
    pre: XmppHandler,
    post: XmppHandler,
    ms: Seq<Seq<char>>,
    acts: Seq<Action>,
) -> bool {
    &&& post.username == pre.username
    &&& post.password == pre.password
    &&& post.domain == pre.domain
    &&& post.closed == pre.closed
    &&& post.secure == pre.secure
    &&& post.pending_bind_id == pre.pending_bind_id
    &&& acts.len() <= 1
    &&& acts.len() == 0 ==> post == pre
    &&& acts.len() == 1 ==> exists|j: int|
        {
            &&& 0 <= j < ms.len()
            &&& #[trigger] mech_started(pre, post, ms[j], acts[0])
            &&& forall|i: int|
                0 <= i < j ==> !(ms[i] == "PLAIN"@ || ms[i] == "ANONYMOUS"@)
        }
    &&& (exists|i: int|
        #![trigger ms[i]]
        0 <= i < ms.len() && (ms[i] == "PLAIN"@ || ms[i] == "ANONYMOUS"@)) ==> acts.len() == 1
}

/// What `handle_bind` promises: the bind request goes out under the fixed
/// id `bind`, which is recorded so the matching response can be told
/// apart.
pub open spec fn bind_ok(pre: XmppHandler, post: XmppHandler, acts: Seq<Action>) -> bool {
    let bindreq = ElemView {
        kids: seq![
            KidView::Node(
                ElemView {
                    name: "bind"@,
                    ns: Some(ns::FEATURE_BIND@),
                    attrs: Seq::empty(),
                    kids: Seq::empty(),
                },
            ),
        ],
        ..spec_new_stanza("iq"@, Some("set"@), "bind"@)
    };
    &&& post.username == pre.username
    &&& post.password == pre.password
    &&& post.domain == pre.domain
    &&& post.closed == pre.closed
    &&& post.secure == pre.secure
    &&& post.authenticator == pre.authenticator
    &&& post.pending_bind_id matches Some(s) && s@ == "bind"@
    &&& acts.len() == 1
    &&& act_is_send(acts[0], spec_xml(bindreq, bindreq.ns))
}

/// What `handle_features` promises, branch by branch: STARTTLS first when
/// offered on a plain socket, else SASL, else binding, else nothing.
pub open spec fn features_ok(
    pre: XmppHandler,
    post: XmppHandler,
    ev: ElemView,
    acts: Seq<Action>,
) -> bool {
    if spec_get_child(ev.kids, "starttls"@, Some(ns::FEATURE_TLS@)) is Some && !pre.secure {
        &&& post == pre
        &&& acts.len() == 1
        &&& act_is_send(acts[0], spec_starttls_str())
    } else {
        match spec_get_child(ev.kids, "mechanisms"@, Some(ns::FEATURE_SASL@)) {
            Some(mechs) => mechs_ok(pre, post, spec_mechs(mechs.kids), acts),
            None => {
                if spec_get_child(ev.kids, "bind"@, Some(ns::FEATURE_BIND@)) is Some {
                    bind_ok(pre, post, acts)
                } else {
                    post == pre && acts.len() == 0
                }
            },
        }
    }
}

/// What `handle_sasl` promises: a challenge is answered through the held
/// mechanism and a success restarts the stream, while undecodable data, a
/// missing authenticator, a mechanism error and every other element are
/// ignored.
pub open spec fn sasl_ok(
    pre: XmppHandler,
    post: XmppHandler,
    ev: ElemView,
    acts: Seq<Action>,
) -> bool {
    &&& post.username == pre.username
    &&& post.password == pre.password
    &&& post.domain == pre.domain
    &&& post.closed == pre.closed
    &&& post.secure == pre.secure
    &&& post.pending_bind_id == pre.pending_bind_id
    &&& if ev.name == "challenge"@ {
        match pre.authenticator {
            None => post == pre && acts.len() == 0,
            Some(a) => match b64_dec(encode_utf8(spec_content(ev))) {
                None => post == pre && acts.len() == 0,
                Some(d) => exists|cr: Result<Vec<u8>, &'static str>|
                    {
                        &&& #[trigger] mech_cont_opt(a, post.authenticator, d, cr)
                        &&& match cr {
                            Ok(out) => acts.len() == 1 && act_is_send(
                                acts[0],
                                spec_auth_response_str(b64_of(out@)),
                            ),
                            Err(_) => acts.len() == 0,
                        }
                    },
            },
        }
    } else if ev.name == "success"@ {
        match pre.authenticator {
            None => post == pre && acts.len() == 0,
            Some(a) => match b64_dec(encode_utf8(spec_content(ev))) {
                None => post == pre && acts.len() == 0,
                Some(d) => exists|cr: Result<Vec<u8>, &'static str>|
                    {
                        &&& #[trigger] mech_cont_opt(a, post.authenticator, d, cr)
                        &&& match cr {
                            Ok(_) => acts.len() == 1 && act_is_send(
                                acts[0],
                                spec_stream_start_str(pre.domain@),
                            ),
                            Err(_) => acts.len() == 0,
                        }
                    },
            },
        }
    } else {
        post == pre && acts.len() == 0
    }
}

/// What `handle_non_stanza` promises: dispatch on the element's
/// namespace, exactly as the branch predicates say.
pub open spec fn non_stanza_ok(
    pre: XmppHandler,
    post: XmppHandler,
    ev: ElemView,
    acts: Seq<Action>,
) -> bool {
    if ev.ns == Some(ns::STREAMS@) && ev.name == "features"@ {
        features_ok(pre, post, ev, acts)
    } else if ev.ns == Some(ns::FEATURE_TLS@) {
        starttls_ok(pre, post, ev, acts)
    } else if ev.ns == Some(ns::FEATURE_SASL@) {
        sasl_ok(pre, post, ev, acts)
    } else {
        post == pre && acts.len() == 0
    }
}

/// What `handle_element` promises: a message or presence stanza is
/// surfaced as its event; an iq is routed by kind — requests get a guard,
/// responses match against the pending bind id first; everything else
/// goes through negotiation handling and yields no event.
pub open spec fn element_ok(
    pre: XmppHandler,
    post: XmppHandler,
    ev: ElemView,
    acts: Seq<Action>,
    event: Option<Event>,
) -> bool {
    if spec_stanza_accepts(ev, "message"@) {
        &&& post == pre
        &&& acts.len() == 0
        &&& event matches Some(Event::Message(m)) && m.elemv() == ev
    } else if spec_stanza_accepts(ev, "presence"@) {
        &&& post == pre
        &&& acts.len() == 0
        &&& event matches Some(Event::Presence(p)) && p.elemv() == ev
    } else if spec_stanza_accepts(ev, "iq"@) {
        let ty = match spec_attr_get(ev.attrs, "type"@, None) {
            Some(t) => <Iq as Stanza>::ty_of(t),
            None => <Iq as Stanza>::ty_default(),
        };
        let for_bind = view_opt_string(pre.pending_bind_id) == spec_attr_get(ev.attrs, "id"@, None);
        match ty {
            None => post == pre && acts.len() == 0 && event is None,
            Some(IqType::Result) => {
                if for_bind {
                    &&& post == (XmppHandler { pending_bind_id: None, ..pre })
                    &&& acts.len() == 0
                    &&& event matches Some(Event::Bound(j)) && view_opt_string(j)
                        == stanzas::iq::spec_bind_jid(ev)
                } else {
                    &&& post == pre
                    &&& acts.len() == 0
                    &&& event matches Some(Event::IqResponse(iq)) && iq.elemv() == ev
                }
            },
            Some(IqType::Error) => {
                if for_bind {
                    &&& post == (XmppHandler { pending_bind_id: None, ..pre })
                    &&& acts.len() == 0
                    &&& event matches Some(Event::BindError(iq)) && iq.elemv() == ev
                } else {
                    &&& post == pre
                    &&& acts.len() == 0
                    &&& event matches Some(Event::IqResponse(iq)) && iq.elemv() == ev
                }
            },
            Some(IqType::Get) | Some(IqType::SetQuery) => {
                &&& post == pre
                &&& acts.len() == 0
                &&& event matches Some(Event::IqRequest(g)) && g.spec_iq() == ev
                    && !g.spec_responded()
            },
        }
    } else {
        event is None && non_stanza_ok(pre, post, ev, acts)
    }
}

/// Element handling never reopens a closed stream: once `closed` is set,
/// every inbound element leaves it set, so the one closing tag that
/// `close_stream` produced stays the only one.
pub proof fn lemma_element_keeps_closed(
    pre: XmppHandler,
    post: XmppHandler,
    ev: ElemView,
    acts: Seq<Action>,
    event: Option<Event>,
)
    requires
        element_ok(pre, post, ev, acts, event),
    ensures
        post.closed == pre.closed,
{
}

impl XmppHandler {
    /// A fresh handler for the given account, not yet connected: plain
    /// socket, stream open, no mechanism picked, no bind pending.
    pub fn new(username: String, password: String, domain: String) -> (r: XmppHandler)
        ensures
            r.username == username,
            r.password == password,
            r.domain == domain,
            !r.closed,
            !r.secure,
            r.authenticator is None,
            r.pending_bind_id is None,
    {
        XmppHandler {
            username,
            password,
            domain,
            closed: false,
            secure: false,
            authenticator: None,
            pending_bind_id: None,
        }
    }

    /// The stream header that opens (or reopens) the stream to this
    /// handler's domain.
    pub fn start_stream(&self) -> (r: String)
        ensures
            r@ == spec_stream_start_str(self.domain@),
    {
        let frame = StreamStart { to: self.domain.as_str() };
        frame.xmpp_str()
    }

    /// Closes the stream: the first call yields the closing tag, any
    /// further call yields nothing.
    pub fn close_stream(&mut self) -> (r: Option<String>)
        ensures
            *final(self) == spec_close_stream(*old(self)).0,
            view_opt_string(r) == spec_close_stream(*old(self)).1,
    {
        if !self.closed {
            self.closed = true;
            Some(StreamEnd.xmpp_str())
        } else {
            None
        }
    }

    /// Answers a STARTTLS element: on `proceed`, the socket is upgraded
    /// and a fresh stream header follows at once.
    pub fn handle_starttls(&mut self, e: &Element) -> (r: Vec<Action>)
        ensures
            starttls_ok(*old(self), *final(self), e@, r@),
    {
        if str_eq(e.name.as_str(), "proceed") {
            self.secure = true;
            let ss = self.start_stream();
            let mut acts: Vec<Action> = Vec::new();
            acts.push(Action::StartTls);
            acts.push(Action::Send(ss));
            acts
        } else {
            Vec::new()
        }
    }

    /// Requests resource binding under the fixed id `bind` and records
    /// that id.
    pub fn handle_bind(&mut self) -> (r: Vec<Action>)
        ensures
            bind_ok(*old(self), *final(self), r@),
    {
        let id: String = "bind".to_owned();
        let mut bind_iq = Iq::new(IqType::SetQuery, id.clone());
        let belem = Element::new("bind".to_owned(), Some(ns::FEATURE_BIND.to_owned()), Vec::new());
        proof {
            assert(belem@.attrs =~= Seq::<element::AttrView>::empty());
            assert(belem@ =~~= (ElemView {
                name: "bind"@,
                ns: Some(ns::FEATURE_BIND@),
                attrs: Seq::empty(),
                kids: Seq::empty(),
            }));
        }
        bind_iq.tag(belem);
        self.pending_bind_id = Some(id);
        let s = bind_iq.xmpp_str();
        proof {
            let target = ElemView {
                kids: seq![
                    KidView::Node(
                        ElemView {
                            name: "bind"@,
                            ns: Some(ns::FEATURE_BIND@),
                            attrs: Seq::empty(),
                            kids: Seq::empty(),
                        },
                    ),
                ],
                ..spec_new_stanza("iq"@, Some("set"@), "bind"@)
            };
            assert(bind_iq.elemv().name == target.name);
            assert(bind_iq.elemv().ns == target.ns);
            assert(bind_iq.elemv().attrs =~~= target.attrs);
            assert(bind_iq.elemv().kids =~~= target.kids);
            assert(bind_iq.elemv() =~~= (ElemView {
                kids: seq![
                    KidView::Node(
                        ElemView {
                            name: "bind"@,
                            ns: Some(ns::FEATURE_BIND@),
                            attrs: Seq::empty(),
                            kids: Seq::empty(),
                        },
                    ),
                ],
                ..spec_new_stanza("iq"@, Some("set"@), "bind"@)
            }));
        }
        let mut acts: Vec<Action> = Vec::new();
        acts.push(Action::Send(s));
        acts
    }

    /// Picks the first workable mechanism the server offers and opens
    /// authentication with it.
    #[verifier::loop_isolation(false)]
    pub fn handle_mechs(&mut self, mechs: &Element) -> (r: Vec<Action>)
        ensures
            mechs_ok(*old(self), *final(self), spec_mechs(mechs@.kids), r@),
    {
        proof {
            lemma_kids_view(*mechs);
            reveal_strlit("SCRAM-SHA-1");
            reveal_strlit("PLAIN");
            reveal_strlit("ANONYMOUS");
            assert("SCRAM-SHA-1"@.len() == 11);
            assert("PLAIN"@.len() == 5);
            assert("ANONYMOUS"@.len() == 9);
            assert("SCRAM-SHA-1"@ != "PLAIN"@);
            assert("SCRAM-SHA-1"@ != "ANONYMOUS"@);
            assert("PLAIN"@ != "ANONYMOUS"@);
        }
        let ghost kids = mechs@.kids;
        let ghost ms = spec_mechs(kids);
        let n = mechs.children.len();
        let mut i: usize = 0;
        let ghost mut jm: int = 0;
        while i < n
            invariant
                *self == *old(self),
                i <= n,
                0 <= jm <= ms.len(),
                spec_mechs(kids.take(i as int)) == ms.take(jm),
                jm == spec_mechs(kids.take(i as int)).len(),
                forall|k: int| 0 <= k < jm ==> !(ms[k] == "PLAIN"@ || ms[k] == "ANONYMOUS"@),
            decreases n - i,
        {
            proof {
                lemma_mechs_split(kids, i as int);
                lemma_mechs_split(kids, i + 1);
                assert(kids.skip(i as int)[0] == kids[i as int]);
                assert(kids.skip(i as int).drop_first() =~= kids.skip(i + 1));
                assert(kids.take(i + 1).take(i as int) =~= kids.take(i as int));
                lemma_mechs_split(kids.take(i + 1), i as int);
                assert(kids.take(i + 1).skip(i as int) =~= seq![kids[i as int]]);
            }
            match &mechs.children[i] {
                element::Child::Node(c) => {
                    if str_eq(c.name.as_str(), "mechanism") && opt_str_eq(
                        Some(ns::FEATURE_SASL),
                        &c.ns,
                    ) {
                        let m = c.content_str();
                        proof {
                            assert(spec_mechs(seq![kids[i as int]]) =~= seq![spec_content(c@)]);
                            assert(ms.take(jm + 1) =~= ms.take(jm).push(m@));
                            assert(ms[jm] == m@);
                        }
                        if str_eq(m.as_str(), "SCRAM-SHA-1") {
                            let mut a = ScramAuth::new(
                                self.username.clone(),
                                self.password.clone(),
                                None,
                            );
                            match a.initial() {
                                Ok(d) => {
                                    self.authenticator = Some(AuthMech::Scram(a));
                                    let data = b64_encode(d.as_slice());
                                    let frame = AuthStart { mech: m.as_str(), data: data.as_str() };
                                    let out = frame.xmpp_str();
                                    let mut acts: Vec<Action> = Vec::new();
                                    acts.push(Action::Send(out));
                                    proof {
                                        assert(jm < ms.len());
                                        assert(mech_started(
                                            *old(self),
                                            *self,
                                            ms[jm],
                                            acts@[0],
                                        ));
                                    }
                                    return acts;
                                },
                                Err(_) => {},
                            }
                        } else if str_eq(m.as_str(), "PLAIN") {
                            let mut a = PlainAuth::new(
                                self.username.clone(),
                                self.password.clone(),
                                None,
                            );
                            let d = match a.initial() {
                                Ok(d) => d,
                                Err(_) => unreached(),
                            };
                            self.authenticator = Some(AuthMech::Plain(a));
                            let data = b64_encode(d.as_slice());
                            let frame = AuthStart { mech: m.as_str(), data: data.as_str() };
                            let out = frame.xmpp_str();
                            let mut acts: Vec<Action> = Vec::new();
                            acts.push(Action::Send(out));
                            proof {
                                assert(jm < ms.len());
                                assert(mech_started(*old(self), *self, ms[jm], acts@[0]));
                            }
                            return acts;
                        } else if str_eq(m.as_str(), "ANONYMOUS") {
                            let mut a = AnonAuth::new();
                            let d = match a.initial() {
                                Ok(d) => d,
                                Err(_) => unreached(),
                            };
                            self.authenticator = Some(AuthMech::Anon(a));
                            let data = b64_encode(d.as_slice());
                            let frame = AuthStart { mech: m.as_str(), data: data.as_str() };
                            let out = frame.xmpp_str();
                            let mut acts: Vec<Action> = Vec::new();
                            acts.push(Action::Send(out));
                            proof {
                                assert(jm < ms.len());
                                assert(mech_started(*old(self), *self, ms[jm], acts@[0]));
                            }
                            return acts;
                        }
                        proof {
                            jm = jm + 1;
                        }
                    } else {
                        proof {
                            assert(spec_mechs(seq![kids[i as int]]) =~= Seq::<Seq<char>>::empty());
                            assert(ms.take(jm) =~= spec_mechs(kids.take(i + 1)));
                        }
                    }
                },
                element::Child::Text(_) => {
                    proof {
                        assert(spec_mechs(seq![kids[i as int]]) =~= Seq::<Seq<char>>::empty());
                        assert(ms.take(jm) =~= spec_mechs(kids.take(i + 1)));
                    }
                },
            }
            i = i + 1;
        }
        proof {
            assert(kids.take(n as int) =~= kids);
            assert(jm == ms.len());
        }
        Vec::new()
    }

    /// Answers one SASL element from the server: a challenge through the
    /// held mechanism, a success by restarting the stream.
    pub fn handle_sasl(&mut self, e: &Element) -> (r: Vec<Action>)
        ensures
            sasl_ok(*old(self), *final(self), e@, r@),
    {
        let is_challenge = str_eq(e.name.as_str(), "challenge");
        let is_success = str_eq(e.name.as_str(), "success");
        if !is_challenge && !is_success {
            return Vec::new();
        }
        let content = e.content_str();
        let decoded = match b64_decode(content.as_str().as_bytes()) {
            Some(d) => d,
            None => {
                return Vec::new();
            },
        };
        let auth = self.authenticator.take();
        let a = match auth {
            Some(a) => a,
            None => {
                return Vec::new();
            },
        };
        let ghost apre = a;
        let (a2, cr) = match a {
            AuthMech::Anon(mut x) => {
                let cr = x.continuation(decoded.as_slice());
                (AuthMech::Anon(x), cr)
            },
            AuthMech::Plain(mut x) => {
                let cr = x.continuation(decoded.as_slice());
                (AuthMech::Plain(x), cr)
            },
            AuthMech::Scram(mut x) => {
                let cr = x.continuation(decoded.as_slice());
                (AuthMech::Scram(x), cr)
            },
        };
        self.authenticator = Some(a2);
        let ghost gcr = cr;
        proof {
            assert(mech_cont_opt(apre, self.authenticator, decoded@, gcr));
        }
        let acts: Vec<Action> = match cr {
            Ok(out) => {
                if is_challenge {
                    let data = b64_encode(out.as_slice());
                    let s = AuthResponse { data: data.as_str() }.xmpp_str();
                    let mut acts: Vec<Action> = Vec::new();
                    acts.push(Action::Send(s));
                    proof {
                        assert(act_is_send(acts@[0], spec_auth_response_str(b64_of(out@))));
                    }
                    acts
                } else {
                    let s = self.start_stream();
                    let mut acts: Vec<Action> = Vec::new();
                    acts.push(Action::Send(s));
                    acts
                }
            },
            Err(_) => Vec::new(),
        };
        proof {
            if is_challenge {
                assert(exists|c: Result<Vec<u8>, &'static str>|
                    {
                        &&& #[trigger] mech_cont_opt(apre, self.authenticator, decoded@, c)
                        &&& match c {
                            Ok(out) => acts@.len() == 1 && act_is_send(
                                acts@[0],
                                spec_auth_response_str(b64_of(out@)),
                            ),
                            Err(_) => acts@.len() == 0,
                        }
                    }) by {
                    assert(mech_cont_opt(apre, self.authenticator, decoded@, gcr));
                }
            } else {
                assert(exists|c: Result<Vec<u8>, &'static str>|
                    {
                        &&& #[trigger] mech_cont_opt(apre, self.authenticator, decoded@, c)
                        &&& match c {
                            Ok(_) => acts@.len() == 1 && act_is_send(
                                acts@[0],
                                spec_stream_start_str(old(self).domain@),
                            ),
                            Err(_) => acts@.len() == 0,
                        }
                    }) by {
                    assert(mech_cont_opt(apre, self.authenticator, decoded@, gcr));
                }
            }
            assert(b64_dec(encode_utf8(spec_content(e@))) matches Some(dd) && dd == decoded@);
            assert(sasl_ok(*old(self), *self, e@, acts@));
        }
        acts
    }

    /// Routes an element that is no stanza: features, STARTTLS answers and
    /// SASL elements; anything else is ignored.
    pub fn handle_non_stanza(&mut self, e: &Element) -> (r: Vec<Action>)
        ensures
            non_stanza_ok(*old(self), *final(self), e@, r@),
    {
        match &e.ns {
            Some(nsv) => {
                if str_eq(nsv.as_str(), ns::STREAMS) && str_eq(e.name.as_str(), "features") {
                    self.handle_features(e)
                } else if str_eq(nsv.as_str(), ns::FEATURE_TLS) {
                    self.handle_starttls(e)
                } else if str_eq(nsv.as_str(), ns::FEATURE_SASL) {
                    self.handle_sasl(e)
                } else {
                    Vec::new()
                }
            },
            None => Vec::new(),
        }
    }

    /// Advances negotiation on a features element, one branch at a time:
    /// STARTTLS when offered on a plain socket, else a SASL mechanism,
    /// else resource binding.
    pub fn handle_features(&mut self, features: &Element) -> (r: Vec<Action>)
        ensures
            features_ok(*old(self), *final(self), features@, r@),
    {
        let has_tls = features.get_child("starttls", Some(ns::FEATURE_TLS)).is_some();
        if has_tls && !self.secure {
            let mut acts: Vec<Action> = Vec::new();
            acts.push(Action::Send(StartTls.xmpp_str()));
            return acts;
        }
        match features.get_child("mechanisms", Some(ns::FEATURE_SASL)) {
            Some(mechs) => {
                return self.handle_mechs(mechs);
            },
            None => {},
        }
        if features.get_child("bind", Some(ns::FEATURE_BIND)).is_some() {
            return self.handle_bind();
        }
        Vec::new()
    }

    /// Classifies one complete inbound element: stanzas become events,
    /// negotiation elements are answered on the spot.
    pub fn handle_element(&mut self, e: Element) -> (r: (Vec<Action>, Option<Event>))
        ensures
            element_ok(*old(self), *final(self), e@, r.0@, r.1),
    {
        let ghost ev = e@;
        match AStanza::from_element(e) {
            Err(e) => {
                let acts = self.handle_non_stanza(&e);
                (acts, None)
            },
            Ok(AStanza::MessageStanza(m)) => (Vec::new(), Some(Event::Message(m))),
            Ok(AStanza::PresenceStanza(p)) => (Vec::new(), Some(Event::Presence(p))),
            Ok(AStanza::IqStanza(iq)) => {
                match iq.stanza_type() {
                    None => (Vec::new(), None),
                    Some(IqType::Result) => {
                        if opt_str_eq(iq.id(), &self.pending_bind_id) {
                            self.pending_bind_id = None;
                            let jid = iq.get_xmpp_bind_jid();
                            (Vec::new(), Some(Event::Bound(jid)))
                        } else {
                            (Vec::new(), Some(Event::IqResponse(iq)))
                        }
                    },
                    Some(IqType::Error) => {
                        if opt_str_eq(iq.id(), &self.pending_bind_id) {
                            self.pending_bind_id = None;
                            (Vec::new(), Some(Event::BindError(iq)))
                        } else {
                            (Vec::new(), Some(Event::IqResponse(iq)))
                        }
                    },
                    Some(IqType::Get) | Some(IqType::SetQuery) => (
                        Vec::new(),
                        Some(Event::IqRequest(IqGuard { iq, responded: false })),
                    ),
                }
            },
        }
    }

    /// Answers a malformed inbound subtree: a stream error goes out, and
    /// the stream is closed once.
    pub fn handle_parse_error(&mut self) -> (r: Vec<Action>)
        ensures
            *final(self) == spec_close_stream(*old(self)).0,
            ({
                let close = spec_close_stream(*old(self)).1;
                let err = "<stream:error>"@ + "<"@ + "invalid-xml"@ + " xmlns='"@
                    + ns::STREAM_ERRORS@ + "'/>"@ + "</stream:error>"@;
                match close {
                    Some(c) => r@.len() == 2 && act_is_send(r@[0], err) && act_is_send(r@[1], c),
                    None => r@.len() == 1 && act_is_send(r@[0], err),
                }
            }),
    {
        let mut acts: Vec<Action> = Vec::new();
        let frame = StreamError { cond: DefinedCondition::InvalidXml, text: None };
        let fs = frame.xmpp_str();
        proof {
            assert(fs@ =~= "<stream:error>"@ + "<"@ + "invalid-xml"@ + " xmlns='"@
                + ns::STREAM_ERRORS@ + "'/>"@ + "</stream:error>"@);
        }
        acts.push(Action::Send(fs));
        match self.close_stream() {
            Some(s) => {
                acts.push(Action::Send(s));
            },
            None => {},
        }
        acts
    }

    /// Answers the peer's closing tag: the stream is closed once, and the
    /// session ends.
    pub fn handle_stream_end(&mut self) -> (r: (Vec<Action>, Event))
        ensures
            *final(self) == spec_close_stream(*old(self)).0,
            r.1 is StreamClosed,
            ({
                let close = spec_close_stream(*old(self)).1;
                match close {
                    Some(c) => r.0@.len() == 1 && act_is_send(r.0@[0], c),
                    None => r.0@.len() == 0,
                }
            }),
    {
        let mut acts: Vec<Action> = Vec::new();
        match self.close_stream() {
            Some(s) => {
                acts.push(Action::Send(s));
            },
            None => {},
        }
        (acts, Event::StreamClosed)
    }
}

} // verus!
