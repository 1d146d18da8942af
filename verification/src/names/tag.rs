//! The tag of an element.
use vstd::prelude::*;
use crate::error::{MarkupErrorView, MarkupResult};
use crate::names::attribute::{AttributeView, Attributes};
use crate::names::name::{Name, markup_view};
use crate::names::namespace_stack::NamespaceStack;

verus! {

/// The tag of an element: its name and its attributes.
#[derive(Debug)]
pub struct Tag {
    /// The name, whose URI is what its prefix stood for once the
    /// namespaces that the attributes declare had been declared
    pub name: Name,
    /// The attributes, those that declare a namespace among them
    pub attributes: Attributes,
}

/// What a tag holds.
pub ghost struct TagView {
    pub name: Name,
    pub attributes: Seq<AttributeView>,
}

impl View for Tag {
    type V = TagView;

    open spec fn view(&self) -> TagView {
        TagView { name: self.name, attributes: self.attributes@ }
    }
}

/// The result of making a tag, taken by its view.
pub open spec fn tag_view(r: MarkupResult<Tag>) -> Result<TagView, MarkupErrorView> {
    match r {
        Ok(t) => Ok(t@),
        Err(e) => Err(e@),
    }
}

impl Tag {
    /// What making the tag `ns:name` with the attributes `attributes`
    /// gives.
    pub open spec fn spec_new(
        made: Result<Name, MarkupErrorView>,
        attributes: Seq<AttributeView>,
    ) -> Result<TagView, MarkupErrorView> {
        match made {
            Ok(name) => Ok(TagView { name, attributes }),
            Err(e) => Err(e),
        }
    }

    /// Makes the tag `ns:name` with the attributes `attributes`. The name
    /// is resolved on the stack as it stands.
    pub fn new(ns_stack: &mut NamespaceStack, ns: &str, name: &str, attributes: Attributes) -> (r:
        MarkupResult<Self>)
        ensures
            tag_view(r) == Tag::spec_new(Name::spec_new(old(ns_stack)@, ns@, name@), attributes@),
            final(ns_stack)@ == Name::after(
                old(ns_stack)@,
                Name::spec_new(old(ns_stack)@, ns@, name@),
                name@,
            ),
    {
        match Name::new(ns_stack, ns, name) {
            Ok(name) => Ok(Self { name, attributes }),
            Err(e) => Err(e),
        }
    }
}

} // verus!
