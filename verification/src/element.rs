use vstd::prelude::*;

use crate::entities::{escape_into, escape_spec};
use crate::text::{append_chars, chars_of, str_eq, string_of};

verus! {

/// The value of an attribute of an element: a flag or a string.
pub enum AttrValue {
    Bool(bool),
    Str(String),
}

/// A node of the Satori message markup.  A text node has the tag `text` and
/// holds its characters in the attribute `content`.
///
/// An attribute is found by the first entry with its key.  `parse`, `Element::text`
/// and the conversions of Telegram messages state that the elements they build hold no
/// key twice (`elems_keys_unique`).
pub struct Element {
    pub tag: String,
    pub attrs: Vec<(String, AttrValue)>,
    pub children: Vec<Element>,
}

/// The mathematical value of an attribute.
pub enum AttrView {
    Bool(bool),
    Str(Seq<char>),
}

/// The mathematical value of an element.
pub struct ElementView {
    pub tag: Seq<char>,
    pub attrs: Seq<(Seq<char>, AttrView)>,
    pub children: Seq<ElementView>,
}

pub open spec fn attr_view(a: AttrValue) -> AttrView {
    match a {
        AttrValue::Bool(b) => AttrView::Bool(b),
        AttrValue::Str(s) => AttrView::Str(s@),
    }
}

pub open spec fn attrs_view(attrs: Seq<(String, AttrValue)>) -> Seq<(Seq<char>, AttrView)> {
    attrs.map_values(|p: (String, AttrValue)| (p.0@, attr_view(p.1)))
}

/// The value of an element.
pub open spec fn element_view(e: Element) -> ElementView
    decreases e,
{
    ElementView {
        tag: e.tag@,
        attrs: attrs_view(e.attrs@),
        children: elements_view(e.children@),
    }
}

/// The values of a sequence of elements.
pub open spec fn elements_view(es: Seq<Element>) -> Seq<ElementView>
    decreases es,
{
    if es.len() == 0 {
        Seq::empty()
    } else {
        elements_view(es.drop_last()).push(element_view(es.last()))
    }
}

/// The value of the first attribute with the given key.
pub open spec fn attrs_lookup(attrs: Seq<(Seq<char>, AttrView)>, key: Seq<char>) -> Option<AttrView>
    decreases attrs.len(),
{
    if attrs.len() == 0 {
        None
    } else if attrs[0].0 == key {
        Some(attrs[0].1)
    } else {
        attrs_lookup(attrs.drop_first(), key)
    }
}

/// No key occurs twice.
pub open spec fn attrs_unique(attrs: Seq<(Seq<char>, AttrView)>) -> bool {
    forall|i: int, j: int|
        0 <= i < attrs.len() && 0 <= j < attrs.len() && i != j ==> attrs[i].0 != attrs[j].0
}

/// No element holds a key twice among its attributes, at any depth.
pub open spec fn elem_keys_unique(e: ElementView) -> bool
    decreases e,
{
    attrs_unique(e.attrs) && elems_keys_unique(e.children)
}

/// No element of `es` holds a key twice among its attributes, at any depth.
pub open spec fn elems_keys_unique(es: Seq<ElementView>) -> bool
    decreases es,
{
    es.len() == 0 || (elems_keys_unique(es.drop_last()) && elem_keys_unique(es.last()))
}

pub open spec fn text_tag() -> Seq<char> {
    seq!['t', 'e', 'x', 't']
}

pub open spec fn content_key() -> Seq<char> {
    seq!['c', 'o', 'n', 't', 'e', 'n', 't']
}

impl ElementView {
    /// The string value of an attribute, when it has one.
    pub open spec fn attr_str(self, key: Seq<char>) -> Option<Seq<char>> {
        match attrs_lookup(self.attrs, key) {
            Some(AttrView::Str(s)) => Some(s),
            _ => None,
        }
    }

    /// The flag value of an attribute, when it has one.
    pub open spec fn attr_bool(self, key: Seq<char>) -> Option<bool> {
        match attrs_lookup(self.attrs, key) {
            Some(AttrView::Bool(b)) => Some(b),
            _ => None,
        }
    }

    pub open spec fn is_text(self) -> bool {
        self.tag == text_tag()
    }

    /// The characters of a text node (empty when it has no `content`); `None` for other nodes.
    pub open spec fn text(self) -> Option<Seq<char>> {
        if self.is_text() {
            Some(
                match self.attr_str(content_key()) {
                    Some(s) => s,
                    None => Seq::empty(),
                },
            )
        } else {
            None
        }
    }
}

/// The text of an element without its markup: the text nodes, in order.
pub open spec fn strip_view(e: ElementView) -> Seq<char>
    decreases e,
{
    if e.is_text() {
        e.text().unwrap()
    } else {
        strip_views(e.children)
    }
}

/// The text of a sequence of elements without their markup.
pub open spec fn strip_views(es: Seq<ElementView>) -> Seq<char>
    decreases es,
{
    if es.len() == 0 {
        Seq::empty()
    } else {
        strip_views(es.drop_last()) + strip_view(es.last())
    }
}

/// The markup of concatenated elements is the concatenation of their markups.
pub proof fn lemma_markup_concat(a: Seq<ElementView>, b: Seq<ElementView>)
    ensures
        markup_views(a + b) == markup_views(a) + markup_views(b),
    decreases b.len(),
{
    if b.len() == 0 {
        assert(a + b =~= a);
        assert(markup_views(a) + Seq::<char>::empty() =~= markup_views(a));
    } else {
        lemma_markup_concat(a, b.drop_last());
        assert((a + b).drop_last() =~= a + b.drop_last());
        assert((a + b).last() == b.last());
        assert(markup_views(a) + markup_views(b.drop_last()) + markup_view(b.last()) =~= markup_views(a) + (
        markup_views(b.drop_last()) + markup_view(b.last())));
    }
}

/// Stripping concatenated elements gives the concatenation of their texts; one element
/// strips as itself, no element as the empty text, and a text node as its content.
pub proof fn lemma_strip_concat(a: Seq<ElementView>, b: Seq<ElementView>, e: ElementView, c: Seq<char>)
    ensures
        strip_views(a + b) == strip_views(a) + strip_views(b),
        strip_views(seq![e]) == strip_view(e),
        strip_views(Seq::empty()) == Seq::<char>::empty(),
        strip_view(
            ElementView {
                tag: text_tag(),
                attrs: seq![(content_key(), AttrView::Str(c))],
                children: Seq::empty(),
            },
        ) == c,
    decreases b.len(),
{
    if b.len() == 0 {
        assert(a + b =~= a);
        assert(strip_views(a) + Seq::<char>::empty() =~= strip_views(a));
    } else {
        lemma_strip_concat(a, b.drop_last(), e, c);
        assert((a + b).drop_last() =~= a + b.drop_last());
        assert((a + b).last() == b.last());
        assert(strip_views(a) + strip_views(b.drop_last()) + strip_view(b.last()) =~= strip_views(a) + (
        strip_views(b.drop_last()) + strip_view(b.last())));
    }
    let one = seq![e];
    assert(one.drop_last() =~= Seq::<ElementView>::empty());
    assert(one.last() == e);
    assert(strip_views(one) == strip_views(one.drop_last()) + strip_view(one.last()));
    assert(Seq::<char>::empty() + strip_view(e) =~= strip_view(e));
}

/// The markup of the attributes of an element: each one after a space, a flag
/// as its key (`no-` before it when false), a string as `key="value"`.
pub open spec fn attrs_markup(attrs: Seq<(Seq<char>, AttrView)>) -> Seq<char>
    decreases attrs.len(),
{
    if attrs.len() == 0 {
        Seq::empty()
    } else {
        let (key, value) = attrs.last();
        attrs_markup(attrs.drop_last()) + seq![' '] + match value {
            AttrView::Bool(true) => key,
            AttrView::Bool(false) => seq!['n', 'o', '-'] + key,
            AttrView::Str(v) => key + seq!['=', '"'] + escape_spec(v, true) + seq!['"'],
        }
    }
}

/// The markup of an element: a text node as its escaped text, an element without
/// children as `<tag attrs/>`, any other as `<tag attrs>children</tag>`.
pub open spec fn markup_view(e: ElementView) -> Seq<char>
    decreases e,
{
    if e.is_text() {
        escape_spec(e.text().unwrap(), false)
    } else if e.children.len() == 0 {
        seq!['<'] + e.tag + attrs_markup(e.attrs) + seq!['/', '>']
    } else {
        seq!['<'] + e.tag + attrs_markup(e.attrs) + seq!['>'] + markup_views(e.children) + seq![
            '<',
            '/',
        ] + e.tag + seq!['>']
    }
}

/// The markup of a sequence of elements, one after the other.
pub open spec fn markup_views(es: Seq<ElementView>) -> Seq<char>
    decreases es,
{
    if es.len() == 0 {
        Seq::empty()
    } else {
        markup_views(es.drop_last()) + markup_view(es.last())
    }
}

pub(crate) proof fn lemma_elements_view_len(es: Seq<Element>)
    ensures
        elements_view(es).len() == es.len(),
    decreases es.len(),
{
    if es.len() > 0 {
        lemma_elements_view_len(es.drop_last());
    }
}

pub(crate) proof fn lemma_elements_view_concat(a: Seq<Element>, b: Seq<Element>)
    ensures
        elements_view(a + b) == elements_view(a) + elements_view(b),
    decreases b.len(),
{
    if b.len() == 0 {
        assert(a + b == a);
        assert(elements_view(a) + elements_view(b) == elements_view(a));
    } else {
        lemma_elements_view_concat(a, b.drop_last());
        assert((a + b).drop_last() == a + b.drop_last());
        assert((a + b).last() == b.last());
        assert(elements_view(a) + elements_view(b) == (elements_view(a) + elements_view(b.drop_last())).push(
            element_view(b.last()),
        ));
    }
}

pub(crate) proof fn lemma_elements_view_take(es: Seq<Element>, i: int)
    requires
        0 <= i < es.len(),
    ensures
        elements_view(es.take(i + 1)) == elements_view(es.take(i)).push(element_view(es[i])),
{
    assert(es.take(i + 1).drop_last() == es.take(i));
}

fn str_is_text(tag: &String) -> (r: bool)
    ensures
        r == (tag@ == text_tag()),
{
    let t = "text";
    proof {
        reveal_strlit("text");
        assert(t@ =~= text_tag());
    }
    str_eq(tag.as_str(), t)
}

impl Element {
    /// The value of the element.
    pub open spec fn view(&self) -> ElementView {
        element_view(*self)
    }

    /// The string value of the attribute `key`, when it has one.
    pub fn get_attr_str(&self, key: &str) -> (r: Option<&str>)
        ensures
            r is Some <==> self.view().attr_str(key@) is Some,
            r matches Some(v) ==> v@ == self.view().attr_str(key@).unwrap(),
    {
        let ghost av = attrs_view(self.attrs@);
        assert(self.view().attrs == av);
        assert(av.skip(0) == av);
        let mut i: usize = 0;
        while i < self.attrs.len()
            invariant
                i <= self.attrs.len(),
                av == attrs_view(self.attrs@),
                attrs_lookup(av, key@) == attrs_lookup(av.skip(i as int), key@),
            decreases self.attrs.len() - i,
        {
            let entry = &self.attrs[i];
            assert(av.skip(i as int)[0] == (entry.0@, attr_view(entry.1)));
            assert(av.skip(i as int).drop_first() == av.skip(i + 1));
            if str_eq(entry.0.as_str(), key) {
                return match &entry.1 {
                    AttrValue::Str(v) => Some(v.as_str()),
                    AttrValue::Bool(_) => None,
                };
            }
            i = i + 1;
        }
        None
    }

    /// The flag value of the attribute `key`, when it has one.
    pub fn get_attr_bool(&self, key: &str) -> (r: Option<bool>)
        ensures
            r == self.view().attr_bool(key@),
    {
        let ghost av = attrs_view(self.attrs@);
        assert(self.view().attrs == av);
        assert(av.skip(0) == av);
        let mut i: usize = 0;
        while i < self.attrs.len()
            invariant
                i <= self.attrs.len(),
                av == attrs_view(self.attrs@),
                attrs_lookup(av, key@) == attrs_lookup(av.skip(i as int), key@),
            decreases self.attrs.len() - i,
        {
            let entry = &self.attrs[i];
            assert(av.skip(i as int)[0] == (entry.0@, attr_view(entry.1)));
            assert(av.skip(i as int).drop_first() == av.skip(i + 1));
            if str_eq(entry.0.as_str(), key) {
                return match &entry.1 {
                    AttrValue::Bool(b) => Some(*b),
                    AttrValue::Str(_) => None,
                };
            }
            i = i + 1;
        }
        None
    }

    /// The characters of a text node; `None` for any other element.
    pub fn get_text(&self) -> (r: Option<&str>)
        ensures
            r is Some <==> self.view().text() is Some,
            r matches Some(v) ==> v@ == self.view().text().unwrap(),
    {
        if str_is_text(&self.tag) {
            let empty = "";
            let key = "content";
            proof {
                reveal_strlit("");
                reveal_strlit("content");
                assert(key@ =~= content_key());
                assert(empty@ =~= Seq::<char>::empty());
            }
            Some(
                match self.get_attr_str(key) {
                    Some(v) => v,
                    None => empty,
                },
            )
        } else {
            None
        }
    }

    /// Appends `strip_view` of this element.
    fn strip_into(&self, out: &mut Vec<char>)
        ensures
            final(out)@ == old(out)@ + strip_view(self.view()),
        decreases self,
    {
        if let Some(t) = self.get_text() {
            let cs = chars_of(t);
            append_chars(out, cs.as_slice());
        } else {
            let ghost es = self.children@;
            assert(self.view().children == elements_view(es));
            assert(es.take(0) == Seq::<Element>::empty());
            let mut i: usize = 0;
            while i < self.children.len()
                invariant
                    i <= self.children.len(),
                    es == self.children@,
                    out@ == old(out)@ + strip_views(elements_view(es.take(i as int))),
                decreases self.children.len() - i,
            {
                self.children[i].strip_into(out);
                proof {
                    lemma_elements_view_take(es, i as int);
                    assert(elements_view(es.take(i + 1)).drop_last() == elements_view(es.take(i as int)));
                }
                i = i + 1;
            }
            assert(es.take(es.len() as int) == es);
        }
    }

    /// The text of the element without its markup.
    pub fn strip(&self) -> (res: String)
        ensures
            res@ == strip_view(self.view()),
    {
        let mut out: Vec<char> = Vec::new();
        self.strip_into(&mut out);
        assert(out@ == strip_view(self.view()));
        string_of(out.as_slice())
    }

    /// A text node holding `content`.
    pub fn text(content: String) -> (e: Element)
        ensures
            e.view() == (ElementView {
                tag: text_tag(),
                attrs: seq![(content_key(), AttrView::Str(content@))],
                children: Seq::empty(),
            }),
            elem_keys_unique(e.view()),
    {
        let tag = string_of(&['t', 'e', 'x', 't']);
        let key = string_of(&['c', 'o', 'n', 't', 'e', 'n', 't']);
        let mut attrs: Vec<(String, AttrValue)> = Vec::new();
        attrs.push((key, AttrValue::Str(content)));
        let e = Element { tag, attrs, children: Vec::new() };
        proof {
            assert(tag@ == text_tag());
            assert(attrs_view(e.attrs@) =~= seq![(content_key(), AttrView::Str(content@))]);
            assert(elements_view(e.children@) =~= Seq::<ElementView>::empty());
            assert(elems_keys_unique(e.view().children));
        }
        e
    }

    /// Appends `markup_view` of this element.
    fn markup_into(&self, out: &mut Vec<char>)
        ensures
            final(out)@ == old(out)@ + markup_view(self.view()),
        decreases self,
    {
        if let Some(t) = self.get_text() {
            let cs = chars_of(t);
            escape_into(out, cs.as_slice(), false);
        } else {
            let ghost es = self.children@;
            assert(self.view().children == elements_view(es));
            proof { lemma_elements_view_len(es); }
            let tag = chars_of(self.tag.as_str());
            out.push('<');
            append_chars(out, tag.as_slice());
            attrs_markup_into(out, &self.attrs);
            if self.children.len() == 0 {
                out.push('/');
                out.push('>');
            } else {
                out.push('>');
                let ghost before = out@;
                assert(es.take(0) == Seq::<Element>::empty());
                let mut i: usize = 0;
                while i < self.children.len()
                    invariant
                        i <= self.children.len(),
                        es == self.children@,
                        out@ == before + markup_views(elements_view(es.take(i as int))),
                    decreases self.children.len() - i,
                {
                    self.children[i].markup_into(out);
                    proof {
                        lemma_elements_view_take(es, i as int);
                        assert(elements_view(es.take(i + 1)).drop_last() == elements_view(es.take(i as int)));
                    }
                    i = i + 1;
                }
                assert(es.take(es.len() as int) == es);
                out.push('<');
                out.push('/');
                append_chars(out, tag.as_slice());
                out.push('>');
            }
        }
    }

    /// The markup of the element (what `Display` writes for it).
    pub fn to_markup(&self) -> (res: String)
        ensures
            res@ == markup_view(self.view()),
    {
        let mut out: Vec<char> = Vec::new();
        self.markup_into(&mut out);
        assert(out@ == markup_view(self.view()));
        string_of(out.as_slice())
    }
}

/// Appends `attrs_markup` of the given attributes.
fn attrs_markup_into(out: &mut Vec<char>, attrs: &Vec<(String, AttrValue)>)
    ensures
        final(out)@ == old(out)@ + attrs_markup(attrs_view(attrs@)),
{
    let ghost av = attrs_view(attrs@);
    assert(av.take(0) == Seq::<(Seq<char>, AttrView)>::empty());
    let mut i: usize = 0;
    while i < attrs.len()
        invariant
            i <= attrs.len(),
            av == attrs_view(attrs@),
            out@ == old(out)@ + attrs_markup(av.take(i as int)),
        decreases attrs.len() - i,
    {
        let entry = &attrs[i];
        let key = chars_of(entry.0.as_str());
        out.push(' ');
        match &entry.1 {
            AttrValue::Bool(b) => {
                if !*b {
                    out.push('n');
                    out.push('o');
                    out.push('-');
                }
                append_chars(out, key.as_slice());
            },
            AttrValue::Str(v) => {
                append_chars(out, key.as_slice());
                out.push('=');
                out.push('"');
                let vs = chars_of(v.as_str());
                escape_into(out, vs.as_slice(), true);
                out.push('"');
            },
        }
        assert(av.take(i + 1).drop_last() == av.take(i as int));
        assert(av[i as int] == (entry.0@, attr_view(entry.1)));
        i = i + 1;
    }
    assert(av.take(attrs.len() as int) == av);
}

/// The markup of a sequence of elements, one after the other.
pub fn dump(elements: &[Element]) -> (res: String)
    ensures
        res@ == markup_views(elements_view(elements@)),
{
    let mut out: Vec<char> = Vec::new();
    let ghost es = elements@;
    assert(es.take(0) == Seq::<Element>::empty());
    let mut i: usize = 0;
    while i < elements.len()
        invariant
            i <= elements.len(),
            es == elements@,
            out@ == markup_views(elements_view(es.take(i as int))),
        decreases elements.len() - i,
    {
        elements[i].markup_into(&mut out);
        proof {
            lemma_elements_view_take(es, i as int);
            assert(elements_view(es.take(i + 1)).drop_last() == elements_view(es.take(i as int)));
        }
        i = i + 1;
    }
    assert(es.take(es.len() as int) == es);
    string_of(out.as_slice())
}

/// The text of a sequence of elements without their markup.
pub fn strip(elements: &[Element]) -> (res: String)
    ensures
        res@ == strip_views(elements_view(elements@)),
{
    let mut out: Vec<char> = Vec::new();
    let ghost es = elements@;
    assert(es.take(0) == Seq::<Element>::empty());
    let mut i: usize = 0;
    while i < elements.len()
        invariant
            i <= elements.len(),
            es == elements@,
            out@ == strip_views(elements_view(es.take(i as int))),
        decreases elements.len() - i,
    {
        elements[i].strip_into(&mut out);
        proof {
            lemma_elements_view_take(es, i as int);
            assert(elements_view(es.take(i + 1)).drop_last() == elements_view(es.take(i as int)));
        }
        i = i + 1;
    }
    assert(es.take(es.len() as int) == es);
    string_of(out.as_slice())
}


impl AttrValue {
    /// A copy of the value.
    pub fn duplicate(&self) -> (r: AttrValue)
        ensures
            attr_view(r) == attr_view(*self),
    {
        match self {
            AttrValue::Bool(b) => AttrValue::Bool(*b),
            AttrValue::Str(s) => AttrValue::Str(s.clone()),
        }
    }
}

impl Element {
    /// A copy of the element, its attributes and its children.
    pub fn duplicate(&self) -> (r: Element)
        ensures
            r.view() == self.view(),
        decreases self,
    {
        let mut attrs: Vec<(String, AttrValue)> = Vec::new();
        let mut i: usize = 0;
        while i < self.attrs.len()
            invariant
                i <= self.attrs.len(),
                attrs@.len() == i,
                attrs_view(attrs@) == attrs_view(self.attrs@).take(i as int),
            decreases self.attrs.len() - i,
        {
            let k = self.attrs[i].0.clone();
            let v = self.attrs[i].1.duplicate();
            let ghost before = attrs@;
            attrs.push((k, v));
            assert(attrs@[i as int] == (k, v));
            assert(attrs@.drop_last() == before);
            assert forall|j: int| 0 <= j < i + 1 implies #[trigger] attrs_view(attrs@)[j] == attrs_view(
                self.attrs@,
            )[j] by {
                if j < i {
                    assert(attrs_view(attrs@)[j] == attrs_view(before)[j]);
                }
            }
            assert(attrs_view(attrs@) =~= attrs_view(self.attrs@).take(i + 1));
            i = i + 1;
        }
        assert(attrs_view(self.attrs@).take(self.attrs.len() as int) =~= attrs_view(self.attrs@));
        let mut children: Vec<Element> = Vec::new();
        let ghost es = self.children@;
        let mut j: usize = 0;
        while j < self.children.len()
            invariant
                j <= self.children.len(),
                es == self.children@,
                elements_view(children@) == elements_view(es.take(j as int)),
            decreases self.children.len() - j,
        {
            let c = self.children[j].duplicate();
            let ghost before = children@;
            children.push(c);
            proof {
                lemma_elements_view_take(es, j as int);
                assert(children@.drop_last() == before);
            }
            j = j + 1;
        }
        assert(es.take(es.len() as int) == es);
        Element { tag: self.tag.clone(), attrs, children }
    }
}

} // verus!
