//! The XML element model the engine works on: a tree of named elements with
//! optional namespaces, attributes and text children, together with the
//! queries, the mutations and the wire serialization the stanza layer needs.
//!
//! The mathematical model of an element is [`ElemView`]: every contract in
//! the crate speaks of it through the element's view.

use vstd::prelude::*;
use vstd::string::*;
use crate::strutil::{str_eq, spec_escape, escape_into};

verus! {

/// One attribute of an element, keyed by name and optional namespace.
#[derive(Debug)]
pub struct Attribute {
    pub name: String,
    pub ns: Option<String>,
    pub value: String,
}

/// A child node: a nested element or a run of character data.
#[derive(Debug)]
pub enum Child {
    Node(Element),
    Text(String),
}

/// An XML element: local name, optional namespace, attributes in document
/// order, and ordered children.
#[derive(Debug)]
pub struct Element {
    pub name: String,
    pub ns: Option<String>,
    pub attributes: Vec<Attribute>,
    pub children: Vec<Child>,
}

/// The mathematical value of an attribute.
#[verifier::ext_equal]
pub ghost struct AttrView {
    pub name: Seq<char>,
    pub ns: Option<Seq<char>>,
    pub value: Seq<char>,
}

/// The mathematical value of a child node.
#[verifier::ext_equal]
pub ghost enum KidView {
    Node(ElemView),
    Text(Seq<char>),
}

/// The mathematical value of an element.
#[verifier::ext_equal]
pub ghost struct ElemView {
    pub name: Seq<char>,
    pub ns: Option<Seq<char>>,
    pub attrs: Seq<AttrView>,
    pub kids: Seq<KidView>,
}

/// The character sequences of an optional owned string.
pub open spec fn view_opt_string(o: Option<String>) -> Option<Seq<char>> {
    match o {
        Some(s) => Some(s@),
        None => None,
    }
}

/// The character sequences of an optional string slice.
pub open spec fn view_opt_str(o: Option<&str>) -> Option<Seq<char>> {
    match o {
        Some(s) => Some(s@),
        None => None,
    }
}

/// The view of one attribute.
pub open spec fn attr_view_of(a: Attribute) -> AttrView {
    AttrView { name: a.name@, ns: view_opt_string(a.ns), value: a.value@ }
}

/// The views of a sequence of attributes.
pub open spec fn attrs_view(attrs: Seq<Attribute>) -> Seq<AttrView> {
    attrs.map_values(|a: Attribute| attr_view_of(a))
}

/// The view of an element.
pub open spec fn elem_view(e: Element) -> ElemView
    decreases e, 1int, 0int,
{
    ElemView {
        name: e.name@,
        ns: view_opt_string(e.ns),
        attrs: attrs_view(e.attributes@),
        kids: kids_view_from(e, 0),
    }
}

/// The views of the children of `e` from index `i` on.
pub open spec fn kids_view_from(e: Element, i: int) -> Seq<KidView>
    decreases e, 0int, e.children@.len() - i,
{
    if i < 0 || i >= e.children@.len() {
        Seq::empty()
    } else {
        seq![
            match e.children@[i] {
                Child::Node(c) => KidView::Node(elem_view(c)),
                Child::Text(t) => KidView::Text(t@),
            },
        ] + kids_view_from(e, i + 1)
    }
}

/// The view of one child node.
pub open spec fn kid_view_of(c: Child) -> KidView {
    match c {
        Child::Node(e) => KidView::Node(elem_view(e)),
        Child::Text(t) => KidView::Text(t@),
    }
}

impl View for Element {
    type V = ElemView;

    open spec fn view(&self) -> ElemView {
        elem_view(*self)
    }
}

/// An element's view lists the view of each of its children, in order.
pub proof fn lemma_kids_view(e: Element)
    ensures
        e@.kids.len() == e.children@.len(),
        forall|k: int|
            0 <= k < e.children@.len() ==> e@.kids[k] == kid_view_of(e.children@[k]),
{
    lemma_kids_view_from(e, 0);
}

proof fn lemma_kids_view_from(e: Element, i: int)
    requires
        0 <= i <= e.children@.len(),
    ensures
        kids_view_from(e, i).len() == e.children@.len() - i,
        forall|k: int|
            0 <= k < e.children@.len() - i ==> kids_view_from(e, i)[k] == kid_view_of(
                e.children@[i + k],
            ),
    decreases e.children@.len() - i,
{
    if i < e.children@.len() {
        lemma_kids_view_from(e, i + 1);
    }
}

/// Two elements with the same children have the same child views.
pub proof fn lemma_kids_same(a: Element, b: Element)
    requires
        a.children@ == b.children@,
    ensures
        a@.kids == b@.kids,
{
    lemma_kids_view(a);
    lemma_kids_view(b);
    assert(a@.kids =~= b@.kids);
}

/// Whether an attribute has the given name and namespace.
pub open spec fn attr_matches(a: AttrView, name: Seq<char>, ns: Option<Seq<char>>) -> bool {
    a.name == name && a.ns == ns
}

/// Index of the first attribute with the given name and namespace, or -1.
pub open spec fn spec_attr_idx(attrs: Seq<AttrView>, name: Seq<char>, ns: Option<Seq<char>>) -> int
    decreases attrs.len(),
{
    if attrs.len() == 0 {
        -1
    } else if attr_matches(attrs[0], name, ns) {
        0
    } else {
        let r = spec_attr_idx(attrs.drop_first(), name, ns);
        if r == -1 {
            -1
        } else {
            r + 1
        }
    }
}

/// The value of the first attribute with the given name and namespace.
pub open spec fn spec_attr_get(attrs: Seq<AttrView>, name: Seq<char>, ns: Option<Seq<char>>) -> Option<Seq<char>> {
    let i = spec_attr_idx(attrs, name, ns);
    if i == -1 {
        None
    } else {
        Some(attrs[i].value)
    }
}

/// What `spec_attr_idx` points at: the first match, or -1 when there is none.
pub proof fn lemma_attr_idx(attrs: Seq<AttrView>, name: Seq<char>, ns: Option<Seq<char>>)
    ensures
        spec_attr_idx(attrs, name, ns) == -1 ==> forall|k: int|
            0 <= k < attrs.len() ==> !attr_matches(attrs[k], name, ns),
        spec_attr_idx(attrs, name, ns) != -1 ==> {
            let i = spec_attr_idx(attrs, name, ns);
            &&& 0 <= i < attrs.len()
            &&& attr_matches(attrs[i], name, ns)
            &&& forall|k: int| 0 <= k < i ==> !attr_matches(attrs[k], name, ns)
        },
    decreases attrs.len(),
{
    if attrs.len() > 0 && !attr_matches(attrs[0], name, ns) {
        lemma_attr_idx(attrs.drop_first(), name, ns);
        let rest = attrs.drop_first();
        assert(forall|k: int| 1 <= k < attrs.len() ==> attrs[k] == rest[k - 1]);
    }
}

/// A prefix free of matches keeps `spec_attr_idx` pointing at the first match.
pub proof fn lemma_attr_idx_found(attrs: Seq<AttrView>, name: Seq<char>, ns: Option<Seq<char>>, i: int)
    requires
        0 <= i < attrs.len(),
        attr_matches(attrs[i], name, ns),
        forall|k: int| 0 <= k < i ==> !attr_matches(attrs[k], name, ns),
    ensures
        spec_attr_idx(attrs, name, ns) == i,
    decreases i,
{
    if i > 0 {
        let rest = attrs.drop_first();
        assert(forall|k: int| 0 <= k < i - 1 ==> rest[k] == attrs[k + 1]);
        lemma_attr_idx_found(rest, name, ns, i - 1);
    }
}

/// Whether a child is an element with the given name and namespace.
pub open spec fn kid_matches(c: KidView, name: Seq<char>, ns: Option<Seq<char>>) -> bool {
    match c {
        KidView::Node(e) => e.name == name && e.ns == ns,
        KidView::Text(_) => false,
    }
}

/// Index of the first child element with the given name and namespace, or -1.
pub open spec fn spec_kid_idx(kids: Seq<KidView>, name: Seq<char>, ns: Option<Seq<char>>) -> int
    decreases kids.len(),
{
    if kids.len() == 0 {
        -1
    } else if kid_matches(kids[0], name, ns) {
        0
    } else {
        let r = spec_kid_idx(kids.drop_first(), name, ns);
        if r == -1 {
            -1
        } else {
            r + 1
        }
    }
}

/// The first child element with the given name and namespace.
pub open spec fn spec_get_child(kids: Seq<KidView>, name: Seq<char>, ns: Option<Seq<char>>) -> Option<ElemView> {
    let i = spec_kid_idx(kids, name, ns);
    if i == -1 {
        None
    } else {
        Some(kids[i]->Node_0)
    }
}

/// What `spec_kid_idx` points at: the first match, or -1 when there is none.
pub proof fn lemma_kid_idx(kids: Seq<KidView>, name: Seq<char>, ns: Option<Seq<char>>)
    ensures
        spec_kid_idx(kids, name, ns) == -1 ==> forall|k: int|
            0 <= k < kids.len() ==> !kid_matches(kids[k], name, ns),
        spec_kid_idx(kids, name, ns) != -1 ==> {
            let i = spec_kid_idx(kids, name, ns);
            &&& 0 <= i < kids.len()
            &&& kid_matches(kids[i], name, ns)
            &&& forall|k: int| 0 <= k < i ==> !kid_matches(kids[k], name, ns)
        },
    decreases kids.len(),
{
    if kids.len() > 0 && !kid_matches(kids[0], name, ns) {
        lemma_kid_idx(kids.drop_first(), name, ns);
        let rest = kids.drop_first();
        assert(forall|k: int| 1 <= k < kids.len() ==> kids[k] == rest[k - 1]);
    }
}

/// A prefix free of matches keeps `spec_kid_idx` pointing at the first match.
pub proof fn lemma_kid_idx_found(kids: Seq<KidView>, name: Seq<char>, ns: Option<Seq<char>>, i: int)
    requires
        0 <= i < kids.len(),
        kid_matches(kids[i], name, ns),
        forall|k: int| 0 <= k < i ==> !kid_matches(kids[k], name, ns),
    ensures
        spec_kid_idx(kids, name, ns) == i,
    decreases i,
{
    if i > 0 {
        let rest = kids.drop_first();
        assert(forall|k: int| 0 <= k < i - 1 ==> rest[k] == kids[k + 1]);
        lemma_kid_idx_found(rest, name, ns, i - 1);
    }
}

/// Whether two optional strings hold the same characters.
pub fn opt_str_eq(a: Option<&str>, b: &Option<String>) -> (r: bool)
    ensures
        r == (view_opt_str(a) == view_opt_string(*b)),
{
    match (a, b) {
        (Some(x), Some(y)) => str_eq(x, y.as_str()),
        (None, None) => true,
        _ => false,
    }
}

/// Whether two optional owned strings hold the same characters.
pub fn opt_eq_owned(a: &Option<String>, b: &Option<String>) -> (r: bool)
    ensures
        r == (view_opt_string(*a) == view_opt_string(*b)),
{
    match (a, b) {
        (Some(x), Some(y)) => str_eq(x.as_str(), y.as_str()),
        (None, None) => true,
        _ => false,
    }
}

impl Element {
    /// A fresh element with the given name, namespace and attributes, and no
    /// children.
    pub fn new(name: String, ns: Option<String>, attrs: Vec<Attribute>) -> (r: Element)
        ensures
            r@ == (ElemView {
                name: name@,
                ns: view_opt_string(ns),
                attrs: attrs_view(attrs@),
                kids: Seq::<KidView>::empty(),
            }),
    {
        let r = Element { name, ns, attributes: attrs, children: Vec::new() };
        proof {
            lemma_kids_view(r);
            assert(r@.kids =~= Seq::<KidView>::empty());
        }
        r
    }

    /// The value of the attribute with the given name and namespace, if any.
    pub fn get_attribute<'a>(&'a self, name: &str, ns: Option<&str>) -> (r: Option<&'a str>)
        ensures
            view_opt_str(r) == spec_attr_get(self@.attrs, name@, view_opt_str(ns)),
    {
        proof {
            lemma_attr_idx(self@.attrs, name@, view_opt_str(ns));
        }
        let n = self.attributes.len();
        let mut i: usize = 0;
        while i < n
            invariant
                n == self.attributes@.len(),
                i <= n,
                self@.attrs == attrs_view(self.attributes@),
                forall|k: int| 0 <= k < i ==> !attr_matches(self@.attrs[k], name@, view_opt_str(ns)),
            decreases n - i,
        {
            let a = &self.attributes[i];
            if str_eq(a.name.as_str(), name) && opt_str_eq(ns, &a.ns) {
                proof {
                    lemma_attr_idx_found(self@.attrs, name@, view_opt_str(ns), i as int);
                }
                return Some(a.value.as_str());
            }
            i = i + 1;
        }
        None
    }

    /// Sets the attribute with the given name and namespace, replacing the
    /// first one carrying that key or appending a new one; returns the value
    /// it replaced.
    pub fn set_attribute(&mut self, name: String, ns: Option<String>, value: String) -> (r: Option<String>)
        ensures
            ({
                let av = old(self)@.attrs;
                let nv = AttrView { name: name@, ns: view_opt_string(ns), value: value@ };
                let i = spec_attr_idx(av, name@, view_opt_string(ns));
                &&& final(self)@ == (ElemView {
                    attrs: if i == -1 {
                        av.push(nv)
                    } else {
                        av.update(i, nv)
                    },
                    ..old(self)@
                })
                &&& i == -1 ==> r is None
                &&& i != -1 ==> view_opt_string(r) == Some(av[i].value)
            }),
    {
        proof {
            lemma_attr_idx(self@.attrs, name@, view_opt_string(ns));
        }
        let n = self.attributes.len();
        let mut i: usize = 0;
        while i < n
            invariant
                *self == *old(self),
                n == self.attributes@.len(),
                i <= n,
                forall|k: int|
                    0 <= k < i ==> !attr_matches(self@.attrs[k], name@, view_opt_string(ns)),
            decreases n - i,
        {
            let a = &self.attributes[i];
            if str_eq(a.name.as_str(), name.as_str()) && opt_eq_owned(&ns, &a.ns) {
                proof {
                    lemma_attr_idx_found(self@.attrs, name@, view_opt_string(ns), i as int);
                }
                let replaced = self.attributes.remove(i);
                let ghost namev = name@;
                let ghost nsv = view_opt_string(ns);
                let ghost valv = value@;
                self.attributes.insert(i, Attribute { name, ns, value });
                proof {
                    lemma_kids_same(*old(self), *self);
                    assert(self@.attrs =~= old(self)@.attrs.update(
                        i as int,
                        AttrView { name: namev, ns: nsv, value: valv },
                    ));
                }
                return Some(replaced.value);
            }
            i = i + 1;
        }
        let ghost namev = name@;
        let ghost nsv = view_opt_string(ns);
        let ghost valv = value@;
        self.attributes.push(Attribute { name, ns, value });
        proof {
            lemma_kids_same(*old(self), *self);
            assert(self@.attrs =~= old(self)@.attrs.push(
                AttrView { name: namev, ns: nsv, value: valv },
            ));
        }
        None
    }

    /// Removes the first attribute with the given name and namespace and
    /// returns its value.
    pub fn remove_attribute(&mut self, name: &str, ns: Option<&str>) -> (r: Option<String>)
        ensures
            ({
                let av = old(self)@.attrs;
                let i = spec_attr_idx(av, name@, view_opt_str(ns));
                &&& final(self)@ == (ElemView {
                    attrs: if i == -1 {
                        av
                    } else {
                        av.remove(i)
                    },
                    ..old(self)@
                })
                &&& i == -1 ==> r is None
                &&& i != -1 ==> view_opt_string(r) == Some(av[i].value)
            }),
    {
        proof {
            lemma_attr_idx(self@.attrs, name@, view_opt_str(ns));
        }
        let n = self.attributes.len();
        let mut i: usize = 0;
        while i < n
            invariant
                *self == *old(self),
                n == self.attributes@.len(),
                i <= n,
                forall|k: int|
                    0 <= k < i ==> !attr_matches(self@.attrs[k], name@, view_opt_str(ns)),
            decreases n - i,
        {
            let a = &self.attributes[i];
            if str_eq(a.name.as_str(), name) && opt_str_eq(ns, &a.ns) {
                proof {
                    lemma_attr_idx_found(self@.attrs, name@, view_opt_str(ns), i as int);
                }
                let removed = self.attributes.remove(i);
                proof {
                    lemma_kids_same(*old(self), *self);
                    assert(self@.attrs =~= old(self)@.attrs.remove(i as int));
                }
                return Some(removed.value);
            }
            i = i + 1;
        }
        None
    }

    /// The first child element with the given name and namespace, if any.
    pub fn get_child<'a>(&'a self, name: &str, ns: Option<&str>) -> (r: Option<&'a Element>)
        ensures
            match r {
                Some(e) => spec_get_child(self@.kids, name@, view_opt_str(ns)) == Some(e@),
                None => spec_get_child(self@.kids, name@, view_opt_str(ns)) is None,
            },
    {
        proof {
            lemma_kid_idx(self@.kids, name@, view_opt_str(ns));
            lemma_kids_view(*self);
        }
        let n = self.children.len();
        let mut i: usize = 0;
        while i < n
            invariant
                n == self.children@.len(),
                self@.kids.len() == n,
                forall|k: int|
                    0 <= k < n ==> self@.kids[k] == kid_view_of(self.children@[k]),
                i <= n,
                forall|k: int| 0 <= k < i ==> !kid_matches(self@.kids[k], name@, view_opt_str(ns)),
            decreases n - i,
        {
            match &self.children[i] {
                Child::Node(e) => {
                    if str_eq(e.name.as_str(), name) && opt_str_eq(ns, &e.ns) {
                        proof {
                            lemma_kid_idx_found(self@.kids, name@, view_opt_str(ns), i as int);
                        }
                        return Some(e);
                    }
                },
                Child::Text(_) => {},
            }
            i = i + 1;
        }
        None
    }

    /// Appends a child element.
    pub fn tag(&mut self, child: Element)
        ensures
            final(self)@ == (ElemView {
                kids: old(self)@.kids.push(KidView::Node(child@)),
                ..old(self)@
            }),
    {
        let ghost childv = elem_view(child);
        self.children.push(Child::Node(child));
        proof {
            lemma_kids_view(*old(self));
            lemma_kids_view(*self);
            assert(self@.attrs =~= old(self)@.attrs);
            assert(self@.kids =~= old(self)@.kids.push(KidView::Node(childv)));
        }
    }

    /// Appends character data.
    pub fn text(&mut self, text: String)
        ensures
            final(self)@ == (ElemView {
                kids: old(self)@.kids.push(KidView::Text(text@)),
                ..old(self)@
            }),
    {
        let ghost textv = text@;
        self.children.push(Child::Text(text));
        proof {
            lemma_kids_view(*old(self));
            lemma_kids_view(*self);
            assert(self@.attrs =~= old(self)@.attrs);
            assert(self@.kids =~= old(self)@.kids.push(KidView::Text(textv)));
        }
    }
}

/// The character data a subtree contains: the text children of this element
/// and of every nested element, in document order.
pub open spec fn spec_content(ev: ElemView) -> Seq<char>
    decreases ev,
{
    spec_content_kids(ev.kids)
}

/// The character data contributed by a sequence of children.
pub open spec fn spec_content_kids(kids: Seq<KidView>) -> Seq<char>
    decreases kids,
{
    if kids.len() == 0 {
        Seq::empty()
    } else {
        (match kids[0] {
            KidView::Node(c) => spec_content(c),
            KidView::Text(t) => t,
        }) + spec_content_kids(kids.drop_first())
    }
}

/// The `xmlns` declaration an element needs when its namespace differs from
/// the default namespace in force around it.
pub open spec fn spec_xmlns_decl(ns: Option<Seq<char>>, ctx: Option<Seq<char>>) -> Seq<char> {
    if ns == ctx {
        Seq::empty()
    } else {
        " xmlns='"@ + (match ns {
            Some(s) => s,
            None => Seq::<char>::empty(),
        }) + "'"@
    }
}

/// One serialized attribute, with its value escaped.  Attribute namespaces
/// take no part in serialization: this engine never emits prefixed
/// attributes.
pub open spec fn spec_xml_attr(a: AttrView) -> Seq<char> {
    " "@ + a.name + "='"@ + spec_escape(a.value) + "'"@
}

/// All attributes serialized in document order.
pub open spec fn spec_xml_attrs(attrs: Seq<AttrView>) -> Seq<char>
    decreases attrs.len(),
{
    if attrs.len() == 0 {
        Seq::empty()
    } else {
        spec_xml_attrs(attrs.drop_last()) + spec_xml_attr(attrs.last())
    }
}

/// The wire form of an element under the default namespace `ctx`: an `xmlns`
/// declaration appears exactly where the element's namespace differs from
/// `ctx`, an element without children is self-closing, and the element's own
/// namespace is the default for its children.
pub open spec fn spec_xml(ev: ElemView, ctx: Option<Seq<char>>) -> Seq<char>
    decreases ev,
{
    let head = "<"@ + ev.name + spec_xmlns_decl(ev.ns, ctx) + spec_xml_attrs(ev.attrs);
    if ev.kids.len() == 0 {
        head + "/>"@
    } else {
        head + ">"@ + spec_xml_kids(ev.kids, ev.ns) + "</"@ + ev.name + ">"@
    }
}

/// A sequence of children serialized under the default namespace `ctx`.
pub open spec fn spec_xml_kids(kids: Seq<KidView>, ctx: Option<Seq<char>>) -> Seq<char>
    decreases kids,
{
    if kids.len() == 0 {
        Seq::empty()
    } else {
        (match kids[0] {
            KidView::Node(c) => spec_xml(c, ctx),
            KidView::Text(t) => spec_escape(t),
        }) + spec_xml_kids(kids.drop_first(), ctx)
    }
}

impl Element {
    /// The character and text data contained in the element's subtree.
    pub fn content_str(&self) -> (r: String)
        ensures
            r@ == spec_content(self@),
    {
        let mut out = String::new();
        self.content_into(&mut out);
        out
    }

    fn content_into(&self, out: &mut String)
        ensures
            final(out)@ == old(out)@ + spec_content(self@),
        decreases *self,
    {
        proof {
            lemma_kids_view(*self);
        }
        let n = self.children.len();
        let mut i: usize = 0;
        proof {
            assert(self@.kids.skip(0) =~= self@.kids);
        }
        while i < n
            invariant
                n == self.children@.len(),
                self@.kids.len() == n,
                forall|k: int|
                    0 <= k < n ==> self@.kids[k] == kid_view_of(self.children@[k]),
                i <= n,
                out@ + spec_content_kids(self@.kids.skip(i as int)) == old(out)@ + spec_content(
                    self@,
                ),
            decreases n - i,
        {
            proof {
                assert(self@.kids.skip(i as int).drop_first() =~= self@.kids.skip(i + 1));
                assert(self@.kids.skip(i as int)[0] == self@.kids[i as int]);
            }
            match &self.children[i] {
                Child::Node(c) => {
                    c.content_into(out);
                },
                Child::Text(t) => {
                    out.append(t.as_str());
                },
            }
            i = i + 1;
        }
        proof {
            assert(self@.kids.skip(n as int) =~= Seq::<KidView>::empty());
        }
    }

    /// The element serialized to XML, with its own namespace as the default
    /// in force, as at the top level of a stream.
    pub fn xml_string(&self) -> (r: String)
        ensures
            r@ == spec_xml(self@, self@.ns),
    {
        let mut out = String::new();
        let ctx: Option<&str> = match &self.ns {
            Some(s) => Some(s.as_str()),
            None => None,
        };
        self.xml_into(&mut out, ctx);
        out
    }

    /// Serializes the element under the default namespace `ctx` and appends
    /// the result to `out`.
    pub fn xml_into(&self, out: &mut String, ctx: Option<&str>)
        ensures
            final(out)@ == old(out)@ + spec_xml(self@, view_opt_str(ctx)),
        decreases *self,
    {
        proof {
            lemma_kids_view(*self);
        }
        out.append("<");
        out.append(self.name.as_str());
        if !opt_str_eq(ctx, &self.ns) {
            out.append(" xmlns='");
            match &self.ns {
                Some(s) => out.append(s.as_str()),
                None => {},
            }
            out.append("'");
        }
        let ghost head = old(out)@ + "<"@ + self@.name + spec_xmlns_decl(
            self@.ns,
            view_opt_str(ctx),
        );
        assert(out@ == head);
        let na = self.attributes.len();
        let mut i: usize = 0;
        while i < na
            invariant
                na == self.attributes@.len(),
                self@.attrs == attrs_view(self.attributes@),
                i <= na,
                out@ == head + spec_xml_attrs(self@.attrs.subrange(0, i as int)),
            decreases na - i,
        {
            let a = &self.attributes[i];
            out.append(" ");
            out.append(a.name.as_str());
            out.append("='");
            escape_into(out, a.value.as_str());
            out.append("'");
            proof {
                let pre = self@.attrs.subrange(0, i as int);
                let cur = self@.attrs.subrange(0, i + 1);
                assert(cur.drop_last() =~= pre);
                assert(cur.last() == self@.attrs[i as int]);
                assert(out@ =~= head + spec_xml_attrs(cur));
            }
            i = i + 1;
        }
        proof {
            assert(self@.attrs.subrange(0, na as int) =~= self@.attrs);
        }
        let ghost headattrs = head + spec_xml_attrs(self@.attrs);
        assert(out@ == headattrs);
        let nc = self.children.len();
        if nc == 0 {
            out.append("/>");
            assert(out@ =~= old(out)@ + spec_xml(self@, view_opt_str(ctx)));
            return ;
        }
        out.append(">");
        let kidctx: Option<&str> = match &self.ns {
            Some(s) => Some(s.as_str()),
            None => None,
        };
        let mut i: usize = 0;
        proof {
            assert(self@.kids.skip(0) =~= self@.kids);
        }
        while i < nc
            invariant
                nc == self.children@.len(),
                self@.kids.len() == nc,
                forall|k: int|
                    0 <= k < nc ==> self@.kids[k] == kid_view_of(self.children@[k]),
                nc > 0,
                i <= nc,
                view_opt_str(kidctx) == self@.ns,
                out@ + spec_xml_kids(self@.kids.skip(i as int), self@.ns) == headattrs + ">"@
                    + spec_xml_kids(self@.kids, self@.ns),
            decreases nc - i,
        {
            proof {
                assert(self@.kids.skip(i as int).drop_first() =~= self@.kids.skip(i + 1));
                assert(self@.kids.skip(i as int)[0] == self@.kids[i as int]);
            }
            match &self.children[i] {
                Child::Node(c) => {
                    c.xml_into(out, kidctx);
                },
                Child::Text(t) => {
                    escape_into(out, t.as_str());
                },
            }
            i = i + 1;
        }
        proof {
            assert(self@.kids.skip(nc as int) =~= Seq::<KidView>::empty());
        }
        out.append("</");
        out.append(self.name.as_str());
        out.append(">");
        assert(out@ =~= old(out)@ + spec_xml(self@, view_opt_str(ctx)));
    }
}

} // verus!
