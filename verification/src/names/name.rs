//! The name of an element or an attribute.
use vstd::prelude::*;
use vstd::string::*;
use crate::error::{MarkupError, MarkupErrorView, MarkupResult};
use crate::names::ids::{NSNameId, NSPrefixId, NSUriId};
use crate::names::namespace::interned_number;
use crate::names::namespace_stack::{NamespaceStack, NamespaceStackView};
use crate::text::{chars_of, string_of_range};

verus! {

/// A name in a markup stream: the identifiers of its prefix, of the URI
/// that the prefix stood for when the name was made, and of the name
/// itself.
#[derive(Copy, Clone, PartialEq, Eq, Hash, Debug, Structural)]
pub struct Name {
    /// The prefix, such as `xsi` in `xsi:string`; none where there is none
    pub prefix: NSPrefixId,
    /// The URI of the namespace, such as `http://www.w3.org/2000/xmlns/`
    pub uri: NSUriId,
    /// The local name
    pub name: NSNameId,
}

/// The result of an operation on names, its error taken by its view.
pub open spec fn markup_view<T>(r: MarkupResult<T>) -> Result<T, MarkupErrorView> {
    match r {
        Ok(t) => Ok(t),
        Err(e) => Err(e@),
    }
}

/// The index of the first `:` among `s[k..]`, or the length of `s` where
/// there is none.
pub open spec fn first_colon(s: Seq<char>, k: int) -> int
    decreases s.len() - k,
{
    if k < 0 || k >= s.len() {
        s.len() as int
    } else if s[k] == ':' {
        k
    } else {
        first_colon(s, k + 1)
    }
}

impl Name {
    /// The name that stands for nothing.
    pub open spec fn spec_none() -> Name {
        Name { prefix: NSPrefixId(0), uri: NSUriId(0), name: NSNameId(0) }
    }

    /// What making the name `name` without a prefix gives: the name with
    /// neither prefix nor URI. An empty name is in error.
    pub open spec fn spec_new_local(v: NamespaceStackView, name: Seq<char>) -> Result<
        Name,
        MarkupErrorView,
    > {
        if name.len() == 0 {
            Err(MarkupErrorView::EmptyName)
        } else {
            Ok(
                Name {
                    prefix: NSPrefixId(0),
                    uri: NSUriId(0),
                    name: NSNameId(interned_number(v.pool.names, name)),
                },
            )
        }
    }

    /// What making the name `name` with the prefix `prefix` gives: the
    /// name with the URI that the prefix stands for. An empty name is in
    /// error, and so is a prefix that the pool does not know or that no
    /// frame declares.
    pub open spec fn spec_new(v: NamespaceStackView, prefix: Seq<char>, name: Seq<char>) -> Result<
        Name,
        MarkupErrorView,
    > {
        if name.len() == 0 {
            Err(MarkupErrorView::EmptyName)
        } else {
            match v.pool.prefix_id(prefix) {
                Some(p) => match v.lookup(p) {
                    Some(uri) => Ok(
                        Name {
                            prefix: p,
                            uri,
                            name: NSNameId(interned_number(v.pool.names, name)),
                        },
                    ),
                    None => Err(MarkupErrorView::UnmappedPrefix { prefix }),
                },
                None => Err(MarkupErrorView::UnmappedPrefix { prefix }),
            }
        }
    }

    /// The stack after a name has been made of `name`: where that gave a
    /// name, `name` has been interned; else nothing has changed.
    pub open spec fn after(
        v: NamespaceStackView,
        made: Result<Name, MarkupErrorView>,
        name: Seq<char>,
    ) -> NamespaceStackView {
        if made is Ok {
            NamespaceStackView { pool: v.pool.with_name(name), ..v }
        } else {
            v
        }
    }

    /// What making a name of the string `s` gives: `s` is a name, or a
    /// prefix, `:` and a name. With more than one `:` it is in error.
    pub open spec fn spec_from_str(v: NamespaceStackView, s: Seq<char>) -> Result<
        Name,
        MarkupErrorView,
    > {
        let i = first_colon(s, 0);
        if i >= s.len() {
            Name::spec_new_local(v, s)
        } else if first_colon(s, i + 1) >= s.len() {
            Name::spec_new(v, s.subrange(0, i), s.subrange(i + 1, s.len() as int))
        } else {
            Err(MarkupErrorView::BadName { name: s })
        }
    }

    /// The local name that a name is made of from the string `s`.
    pub open spec fn local_part(s: Seq<char>) -> Seq<char> {
        let i = first_colon(s, 0);
        if i >= s.len() {
            s
        } else {
            s.subrange(i + 1, s.len() as int)
        }
    }

    /// The name that stands for nothing.
    pub fn none() -> (n: Self)
        ensures
            n == Name::spec_none(),
    {
        let prefix = NSPrefixId::none();
        let uri = NSUriId::none();
        let name = NSNameId::none();
        Self { prefix, uri, name }
    }

    /// Makes the name `name` without a prefix; `name` is added to the pool
    /// if it is not known. An empty name is rejected.
    pub fn new_local(ns: &mut NamespaceStack, name: &str) -> (r: MarkupResult<Self>)
        ensures
            markup_view(r) == Name::spec_new_local(old(ns)@, name@),
            final(ns)@ == Name::after(old(ns)@, markup_view(r), name@),
    {
        if name.is_empty() {
            return Err(MarkupError::empty_name());
        }
        let prefix = NSPrefixId::none();
        let uri = NSUriId::none();
        let name = ns.add_name(name);
        Ok(Self { prefix, uri, name })
    }

    /// Makes the name `name` with the prefix `prefix`, whose URI is what
    /// the prefix stands for on the stack; `name` is added to the pool if
    /// it is not known.
    ///
    /// An empty name is rejected, and so is a prefix that stands for
    /// nothing. The empty prefix is a prefix like any other: it stands for
    /// what the null namespace, or a default namespace, was declared as.
    pub fn new(ns: &mut NamespaceStack, prefix: &str, name: &str) -> (r: MarkupResult<Self>)
        ensures
            markup_view(r) == Name::spec_new(old(ns)@, prefix@, name@),
            final(ns)@ == Name::after(old(ns)@, markup_view(r), name@),
    {
        if name.is_empty() {
            return Err(MarkupError::empty_name());
        }
        if let Some(p_id) = ns.find_prefix_id(prefix) {
            if let Some(uri) = ns.find_mapping(p_id) {
                let name = ns.add_name(name);
                Ok(Self { prefix: p_id, uri, name })
            } else {
                Err(MarkupError::unmapped_prefix(prefix))
            }
        } else {
            Err(MarkupError::unmapped_prefix(prefix))
        }
    }

    /// Makes a name of the string `s`, which is a name, or a prefix, `:`
    /// and a name. A string with more than one `:` is rejected.
    pub fn from_str(ns: &mut NamespaceStack, s: &str) -> (r: MarkupResult<Self>)
        ensures
            markup_view(r) == Name::spec_from_str(old(ns)@, s@),
            final(ns)@ == Name::after(old(ns)@, markup_view(r), Name::local_part(s@)),
    {
        let chars = chars_of(s);
        let n = chars.len();
        let mut i: usize = 0;
        while i < n && chars[i] != ':'
            invariant
                i <= n,
                n == chars.len(),
                first_colon(chars@, 0) == first_colon(chars@, i as int),
            decreases n - i,
        {
            i += 1;
        }
        if i >= n {
            return Name::new_local(ns, s);
        }
        let mut j: usize = i + 1;
        while j < n && chars[j] != ':'
            invariant
                i < j <= n,
                n == chars.len(),
                first_colon(chars@, i + 1) == first_colon(chars@, j as int),
            decreases n - j,
        {
            j += 1;
        }
        if j >= n {
            let prefix = string_of_range(&chars, 0, i);
            let name = string_of_range(&chars, i + 1, n);
            Name::new(ns, prefix.as_str(), name.as_str())
        } else {
            Err(MarkupError::bad_name(s))
        }
    }

    /// The name as a string: the local name, with the prefix and `:`
    /// before it where the name has a prefix.
    pub fn to_string(&self, ns: &NamespaceStack) -> (s: String)
        ensures
            s@ == (if self.prefix.0 == 0 {
                ns@.pool.name_str(self.name)
            } else {
                ns@.pool.prefix_str(self.prefix) + seq![':'] + ns@.pool.name_str(self.name)
            }),
    {
        if self.prefix.is_none() {
            String::from_str(ns.name_str(self.name))
        } else {
            let mut s = String::from_str(ns.prefix_str(self.prefix));
            s.push(':');
            s.append(ns.name_str(self.name));
            assert(s@ =~= ns@.pool.prefix_str(self.prefix) + seq![':'] + ns@.pool.name_str(
                self.name,
            ));
            s
        }
    }

    /// Whether the name has a prefix.
    pub fn has_prefix(&self) -> (r: bool)
        ensures
            r == (self.prefix.0 != 0),
    {
        !self.prefix.is_none()
    }

    /// Whether the name has a URI.
    pub fn has_uri(&self) -> (r: bool)
        ensures
            r == (self.uri.0 != 0),
    {
        !self.uri.is_none()
    }
}

} // verus!
