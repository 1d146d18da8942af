//! The attributes of an element.
use vstd::prelude::*;
use vstd::string::*;
use crate::error::{MarkupErrorView, MarkupResult};
use crate::names::name::{Name, markup_view};
use crate::names::namespace::lemma_interned;
use crate::names::namespace_stack::{NamespaceStack, NamespaceStackView};
use crate::text::same_text;

verus! {

/// An attribute: a name and a value.
#[derive(Clone, Eq, PartialEq, Hash, Debug)]
pub struct Attribute {
    /// The name of the attribute, with its namespace
    pub name: Name,
    /// The value of the attribute
    pub value: String,
}

/// What an attribute holds, its value taken as a sequence of characters.
pub ghost struct AttributeView {
    pub name: Name,
    pub value: Seq<char>,
}

impl View for Attribute {
    type V = AttributeView;

    open spec fn view(&self) -> AttributeView {
        AttributeView { name: self.name, value: self.value@ }
    }
}

impl Attribute {
    /// The stack once the namespace that the attribute `prefix:name` with
    /// the value `value` declares, if it declares one, has been declared.
    ///
    /// Where the pool is for XML namespaces, the attribute `xmlns` declares
    /// its value as the default namespace, which is what no prefix stands
    /// for, and an attribute `xmlns:p` declares its value as what the
    /// prefix `p` stands for. Both are declared in the topmost frame.
    pub open spec fn declared(
        v: NamespaceStackView,
        prefix: Seq<char>,
        name: Seq<char>,
        value: Seq<char>,
    ) -> NamespaceStackView {
        if v.pool.xmlns && prefix.len() == 0 && name == "xmlns"@ {
            v.add_ns(Seq::empty(), value)
        } else if v.pool.xmlns && prefix == "xmlns"@ {
            v.add_ns(name, value)
        } else {
            v
        }
    }

    /// The prefix by which the name of the attribute `prefix:name` is
    /// resolved: the attribute `xmlns` is taken as `xmlns:xmlns` where the
    /// pool is for XML namespaces.
    pub open spec fn name_prefix(v: NamespaceStackView, prefix: Seq<char>, name: Seq<char>) -> Seq<
        char,
    > {
        if v.pool.xmlns && prefix.len() == 0 && name == "xmlns"@ {
            name
        } else {
            prefix
        }
    }

    /// What making the attribute `prefix:name` with the value `value`
    /// gives: its name is resolved once the namespace that it declares, if
    /// any, has been declared.
    pub open spec fn spec_new(
        v: NamespaceStackView,
        prefix: Seq<char>,
        name: Seq<char>,
        value: Seq<char>,
    ) -> Result<AttributeView, MarkupErrorView> {
        match Name::spec_new(
            Attribute::declared(v, prefix, name, value),
            Attribute::name_prefix(v, prefix, name),
            name,
        ) {
            Ok(n) => Ok(AttributeView { name: n, value }),
            Err(e) => Err(e),
        }
    }

    /// The stack after the attribute `prefix:name` with the value `value`
    /// has been made. What the attribute declares stays declared where its
    /// name is then rejected.
    pub open spec fn after(
        v: NamespaceStackView,
        prefix: Seq<char>,
        name: Seq<char>,
        value: Seq<char>,
    ) -> NamespaceStackView {
        let d = Attribute::declared(v, prefix, name, value);
        Name::after(d, Name::spec_new(d, Attribute::name_prefix(v, prefix, name), name), name)
    }

    /// Makes the attribute `prefix:name` with the value `value`. A
    /// namespace that the attribute declares is declared in the topmost
    /// frame first, so that it holds for the attribute's own name.
    pub fn new(ns_stack: &mut NamespaceStack, prefix: &str, name: &str, value: String) -> (r:
        MarkupResult<Self>)
        requires
            old(ns_stack)@.frames.len() > 0,
        ensures
            attribute_view(r) == Attribute::spec_new(old(ns_stack)@, prefix@, name@, value@),
            final(ns_stack)@ == Attribute::after(old(ns_stack)@, prefix@, name@, value@),
    {
        if ns_stack.uses_xmlns() {
            if prefix.is_empty() && same_text(name, "xmlns") {
                ns_stack.add_ns("", value.as_str());
                proof {
                    reveal_strlit("");
                    assert(""@ =~= Seq::<char>::empty());
                }
                return match Name::new(ns_stack, name, name) {
                    Ok(name) => Ok(Self { name, value }),
                    Err(e) => Err(e),
                };
            } else if same_text(prefix, "xmlns") {
                ns_stack.add_ns(name, value.as_str());
            }
        }
        match Name::new(ns_stack, prefix, name) {
            Ok(name) => Ok(Self { name, value }),
            Err(e) => Err(e),
        }
    }
}

/// The result of making an attribute, taken by its view.
pub open spec fn attribute_view(r: MarkupResult<Attribute>) -> Result<
    AttributeView,
    MarkupErrorView,
> {
    match r {
        Ok(a) => Ok(a@),
        Err(e) => Err(e@),
    }
}

/// The views of a sequence of attributes.
pub open spec fn attribute_views(attributes: Seq<Attribute>) -> Seq<AttributeView> {
    attributes.map_values(|a: Attribute| a@)
}

/// The attributes of an element, in the order in which they are written.
/// An element may have two attributes of one name.
#[derive(Debug)]
pub struct Attributes {
    attributes: Vec<Attribute>,
}

impl View for Attributes {
    type V = Seq<AttributeView>;

    closed spec fn view(&self) -> Seq<AttributeView> {
        attribute_views(self.attributes@)
    }
}

impl Default for Attributes {
    /// No attributes.
    fn default() -> (a: Self)
        ensures
            a@ == Seq::<AttributeView>::empty(),
    {
        Attributes::new()
    }
}

impl Attributes {
    /// No attributes.
    pub fn new() -> (a: Self)
        ensures
            a@ == Seq::<AttributeView>::empty(),
    {
        let a = Attributes { attributes: Vec::new() };
        assert(a@ =~= Seq::<AttributeView>::empty());
        a
    }

    /// Whether there are no attributes.
    pub fn is_empty(&self) -> (r: bool)
        ensures
            r == (self@.len() == 0),
    {
        self.attributes.len() == 0
    }

    /// Makes the attribute `prefix:name` with the value `value` and adds
    /// it at the end. Nothing is added where its name is rejected.
    pub fn add(&mut self, ns_stack: &mut NamespaceStack, prefix: &str, name: &str, value: String)
        -> (r: MarkupResult<()>)
        requires
            old(ns_stack)@.frames.len() > 0,
        ensures
            final(ns_stack)@ == Attribute::after(old(ns_stack)@, prefix@, name@, value@),
            match Attribute::spec_new(old(ns_stack)@, prefix@, name@, value@) {
                Ok(a) => r is Ok && final(self)@ == old(self)@.push(a),
                Err(e) => r matches Err(x) && x@ == e && final(self)@ == old(self)@,
            },
    {
        match Attribute::new(ns_stack, prefix, name, value) {
            Ok(a) => {
                self.attributes.push(a);
                assert(attribute_views(self.attributes@) =~= attribute_views(
                    old(self).attributes@,
                ).push(a@));
                Ok(())
            },
            Err(e) => Err(e),
        }
    }

    /// Moves the attributes of `v` to the end of these; `v` is left
    /// without attributes.
    pub fn steal(&mut self, v: &mut Self)
        ensures
            final(self)@ == old(self)@ + old(v)@,
            final(v)@ == Seq::<AttributeView>::empty(),
    {
        self.attributes.append(&mut v.attributes);
        assert(attribute_views(self.attributes@) =~= attribute_views(old(self).attributes@)
            + attribute_views(old(v).attributes@));
        assert(attribute_views(v.attributes@) =~= Seq::<AttributeView>::empty());
    }

    /// The attributes as a vector.
    pub fn take(self) -> (v: Vec<Attribute>)
        ensures
            attribute_views(v@) == self@,
    {
        self.attributes
    }

    /// The attributes as they are held.
    pub fn attributes(&self) -> (v: &[Attribute])
        ensures
            attribute_views(v@) == self@,
    {
        self.attributes.as_slice()
    }
}

/// A prefix that an attribute of an element declares holds for the name
/// of that element.
///
/// Where the pool is for XML namespaces, once the attribute `xmlns:p` with
/// the value `uri` has been made in the frame of an element, a name with
/// the prefix `p` is resolved to `uri`.
pub proof fn lemma_declared_prefix_resolves(
    v: NamespaceStackView,
    p: Seq<char>,
    uri: Seq<char>,
    name: Seq<char>,
)
    requires
        v.pool.xmlns,
        v.frames.len() > 0,
        name.len() > 0,
        v.pool.prefixes.len() < usize::MAX,
        v.pool.uris.len() < usize::MAX,
    ensures
        ({
            let after = Attribute::after(v, "xmlns"@, p, uri);
            &&& Name::spec_new(after, p, name) is Ok
            &&& after.pool.uri_str(Name::spec_new(after, p, name)->Ok_0.uri) == uri
            &&& after.pool.prefix_str(Name::spec_new(after, p, name)->Ok_0.prefix) == p
        }),
{
    reveal_strlit("xmlns");
    lemma_interned(v.pool.prefixes, p);
    lemma_interned(v.pool.uris, uri);
}

} // verus!
