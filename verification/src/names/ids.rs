//! Identifiers of the strings that a namespace pool holds.
use vstd::prelude::*;
use vstd::string::*;
use crate::text::{decimal_digits, push_decimal};

verus! {

/// An identifier as text for people: `None`, or the index that the number
/// `n` stands for.
pub open spec fn id_text(n: usize) -> Seq<char> {
    if n == 0 {
        "None"@
    } else {
        decimal_digits((n - 1) as nat)
    }
}

/// Appends the identifier with the number `n` as text to `s`.
fn push_id(s: &mut String, n: usize)
    ensures
        final(s)@ == old(s)@ + id_text(n),
{
    if n == 0 {
        s.append("None");
    } else {
        push_decimal(s, n - 1);
    }
}

/// The identifier of a prefix in a namespace pool, or none.
///
/// The number 0 stands for none; the prefix at index `n` of the pool has
/// the number `n + 1`.
#[derive(Copy, Clone, PartialEq, Eq, Debug, Hash, Structural)]
pub struct NSPrefixId(pub usize);

impl NSPrefixId {
    /// The identifier as text for people: `None`, or its index.
    pub fn to_string(&self) -> (s: String)
        ensures
            s@ == id_text(self.0),
    {
        let mut s = String::new();
        push_id(&mut s, self.0);
        assert(s@ =~= id_text(self.0));
        s
    }

    /// The index in the pool that the identifier stands for, if any.
    pub open spec fn spec_get(self) -> Option<usize> {
        if self.0 == 0 {
            None
        } else {
            Some((self.0 - 1) as usize)
        }
    }

    /// The identifier that stands for no prefix.
    pub fn none() -> (id: Self)
        ensures
            id.0 == 0,
            id.spec_get() is None,
    {
        Self(0)
    }

    /// The identifier of the prefix at index `n`.
    pub fn new(n: usize) -> (id: Self)
        requires
            n < usize::MAX,
        ensures
            id.0 == n + 1,
            id.spec_get() == Some(n),
    {
        Self(n + 1)
    }

    /// Whether the identifier stands for no prefix.
    pub fn is_none(&self) -> (r: bool)
        ensures
            r == (self.spec_get() is None),
    {
        self.0 == 0
    }

    /// Whether the identifier stands for a prefix.
    pub fn is_some(&self) -> (r: bool)
        ensures
            r == (self.spec_get() is Some),
    {
        self.0 > 0
    }

    /// The index in the pool that the identifier stands for, if any.
    pub fn get(&self) -> (r: Option<usize>)
        ensures
            r == self.spec_get(),
    {
        if self.0 == 0 {
            None
        } else {
            Some(self.0 - 1)
        }
    }
}

/// The identifier of a URI in a namespace pool, or none.
///
/// The number 0 stands for none; the URI at index `n` of the pool has the
/// number `n + 1`.
#[derive(Copy, Clone, PartialEq, Eq, Debug, Hash, Structural)]
pub struct NSUriId(pub usize);

impl NSUriId {
    /// The identifier as text for people: `None`, or its index.
    pub fn to_string(&self) -> (s: String)
        ensures
            s@ == id_text(self.0),
    {
        let mut s = String::new();
        push_id(&mut s, self.0);
        assert(s@ =~= id_text(self.0));
        s
    }

    /// The index in the pool that the identifier stands for, if any.
    pub open spec fn spec_get(self) -> Option<usize> {
        if self.0 == 0 {
            None
        } else {
            Some((self.0 - 1) as usize)
        }
    }

    /// The identifier that stands for no URI.
    pub fn none() -> (id: Self)
        ensures
            id.0 == 0,
            id.spec_get() is None,
    {
        Self(0)
    }

    /// The identifier of the URI at index `n`.
    pub fn new(n: usize) -> (id: Self)
        requires
            n < usize::MAX,
        ensures
            id.0 == n + 1,
            id.spec_get() == Some(n),
    {
        Self(n + 1)
    }

    /// Whether the identifier stands for no URI.
    pub fn is_none(&self) -> (r: bool)
        ensures
            r == (self.spec_get() is None),
    {
        self.0 == 0
    }

    /// Whether the identifier stands for a URI.
    pub fn is_some(&self) -> (r: bool)
        ensures
            r == (self.spec_get() is Some),
    {
        self.0 > 0
    }

    /// The index in the pool that the identifier stands for, if any.
    pub fn get(&self) -> (r: Option<usize>)
        ensures
            r == self.spec_get(),
    {
        if self.0 == 0 {
            None
        } else {
            Some(self.0 - 1)
        }
    }
}

/// The identifier of a local name in a namespace pool, or none.
///
/// The number 0 stands for none; the name at index `n` of the pool has the
/// number `n + 1`.
#[derive(Copy, Clone, PartialEq, Eq, Debug, Hash, Structural)]
pub struct NSNameId(pub usize);

impl NSNameId {
    /// The identifier as text for people: `None`, or its index.
    pub fn to_string(&self) -> (s: String)
        ensures
            s@ == id_text(self.0),
    {
        let mut s = String::new();
        push_id(&mut s, self.0);
        assert(s@ =~= id_text(self.0));
        s
    }

    /// The index in the pool that the identifier stands for, if any.
    pub open spec fn spec_get(self) -> Option<usize> {
        if self.0 == 0 {
            None
        } else {
            Some((self.0 - 1) as usize)
        }
    }

    /// The identifier that stands for no name.
    pub fn none() -> (id: Self)
        ensures
            id.0 == 0,
            id.spec_get() is None,
    {
        Self(0)
    }

    /// The identifier of the name at index `n`.
    pub fn new(n: usize) -> (id: Self)
        requires
            n < usize::MAX,
        ensures
            id.0 == n + 1,
            id.spec_get() == Some(n),
    {
        Self(n + 1)
    }

    /// Whether the identifier stands for no name.
    pub fn is_none(&self) -> (r: bool)
        ensures
            r == (self.spec_get() is None),
    {
        self.0 == 0
    }

    /// Whether the identifier stands for a name.
    pub fn is_some(&self) -> (r: bool)
        ensures
            r == (self.spec_get() is Some),
    {
        self.0 > 0
    }

    /// The index in the pool that the identifier stands for, if any.
    pub fn get(&self) -> (r: Option<usize>)
        ensures
            r == self.spec_get(),
    {
        if self.0 == 0 {
            None
        } else {
            Some(self.0 - 1)
        }
    }
}

/// A mapping of a prefix to a URI, both of one namespace pool.
#[derive(Copy, Clone, PartialEq, Eq, Debug, Hash, Structural)]
pub struct NSMap(pub NSPrefixId, pub NSUriId);

impl NSMap {
    /// The mapping of `p_id` to `u_id`.
    pub fn new(p_id: NSPrefixId, u_id: NSUriId) -> (m: Self)
        ensures
            m == NSMap(p_id, u_id),
    {
        Self(p_id, u_id)
    }

    /// The mapping as text for people: the prefix, ` => `, and the URI,
    /// each as its identifier.
    pub fn to_string(&self) -> (s: String)
        ensures
            s@ == id_text(self.0.0) + seq![' ', '=', '>', ' '] + id_text(self.1.0),
    {
        let mut s = String::new();
        push_id(&mut s, self.0.0);
        s.push(' ');
        s.push('=');
        s.push('>');
        s.push(' ');
        push_id(&mut s, self.1.0);
        assert(s@ =~= id_text(self.0.0) + seq![' ', '=', '>', ' '] + id_text(self.1.0));
        s
    }

    /// The prefix that is mapped.
    pub fn prefix_id(&self) -> (p: NSPrefixId)
        ensures
            p == self.0,
    {
        self.0
    }

    /// The URI that the prefix is mapped to.
    pub fn uri_id(&self) -> (u: NSUriId)
        ensures
            u == self.1,
    {
        self.1
    }
}

} // verus!
