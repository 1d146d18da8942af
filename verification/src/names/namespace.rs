//! The namespace pool: the prefixes, URIs and names that a document uses,
//! each held once and known by its identifier.
use vstd::prelude::*;
use crate::names::ids::{NSMap, NSNameId, NSPrefixId, NSUriId};
use crate::text::{same_text, texts};

verus! {

/// The index of the first of `strings[k..]` that equals `s`, or the length
/// of `strings` where none does.
pub open spec fn find_from(strings: Seq<Seq<char>>, s: Seq<char>, k: int) -> int
    decreases strings.len() - k,
{
    if k < 0 || k >= strings.len() {
        strings.len() as int
    } else if strings[k] == s {
        k
    } else {
        find_from(strings, s, k + 1)
    }
}

/// The number by which the string `s` is known among `strings`, if it is
/// known: 0 for the empty string, else one more than the index of its first
/// occurrence.
pub open spec fn number_of(strings: Seq<Seq<char>>, s: Seq<char>) -> Option<usize> {
    if s.len() == 0 {
        Some(0)
    } else if find_from(strings, s, 0) < strings.len() {
        Some((find_from(strings, s, 0) + 1) as usize)
    } else {
        None
    }
}

/// The strings after `s` has been interned: unchanged where `s` is empty or
/// known already, else with `s` appended.
pub open spec fn interned(strings: Seq<Seq<char>>, s: Seq<char>) -> Seq<Seq<char>> {
    if number_of(strings, s) is Some {
        strings
    } else {
        strings.push(s)
    }
}

/// The number by which `s` is known once it has been interned.
pub open spec fn interned_number(strings: Seq<Seq<char>>, s: Seq<char>) -> usize {
    match number_of(strings, s) {
        Some(n) => n,
        None => (strings.len() + 1) as usize,
    }
}

/// The string that the number `n` stands for among `strings`: the empty
/// string for 0 and for a number that stands for nothing.
pub open spec fn string_of_number(strings: Seq<Seq<char>>, n: usize) -> Seq<char> {
    if 0 < n <= strings.len() {
        strings[n - 1]
    } else {
        Seq::empty()
    }
}

/// The first occurrence of `s` is within `strings`, equals `s`, and nothing
/// before it does.
pub proof fn lemma_find_from(strings: Seq<Seq<char>>, s: Seq<char>, k: int)
    requires
        0 <= k <= strings.len(),
    ensures
        k <= find_from(strings, s, k) <= strings.len(),
        find_from(strings, s, k) < strings.len() ==> strings[find_from(strings, s, k)] == s,
        forall|j: int| k <= j < find_from(strings, s, k) ==> #[trigger] strings[j] != s,
    decreases strings.len() - k,
{
    if k < strings.len() && strings[k] != s {
        lemma_find_from(strings, s, k + 1);
    }
}

/// Appending a string changes no first occurrence that was found.
pub proof fn lemma_find_from_push(strings: Seq<Seq<char>>, x: Seq<char>, s: Seq<char>, k: int)
    requires
        0 <= k <= strings.len(),
    ensures
        find_from(strings, s, k) < strings.len() ==> find_from(strings.push(x), s, k) == find_from(
            strings,
            s,
            k,
        ),
        find_from(strings, s, k) == strings.len() && x == s ==> find_from(strings.push(x), s, k)
            == strings.len(),
        find_from(strings, s, k) == strings.len() && x != s ==> find_from(strings.push(x), s, k)
            == strings.len() + 1,
    decreases strings.len() - k,
{
    let longer = strings.push(x);
    if k < strings.len() {
        assert(longer[k] == strings[k]);
        if strings[k] != s {
            lemma_find_from_push(strings, x, s, k + 1);
        }
    } else {
        assert(longer[k] == x);
        assert(find_from(longer, s, k + 1) == longer.len());
    }
}

/// A string that has been interned is known by its number, and its number
/// stands for it.
pub proof fn lemma_interned(strings: Seq<Seq<char>>, s: Seq<char>)
    requires
        strings.len() < usize::MAX,
    ensures
        number_of(interned(strings, s), s) == Some(interned_number(strings, s)),
        string_of_number(interned(strings, s), interned_number(strings, s)) == s,
        interned_number(strings, s) <= interned(strings, s).len(),
{
    lemma_find_from(strings, s, 0);
    lemma_find_from_push(strings, s, s, 0);
    if s.len() == 0 {
        assert(s =~= Seq::<char>::empty());
    }
}

/// What a namespace pool holds.
pub ghost struct NamespaceView {
    /// Whether the pool was made for XML namespaces
    pub xmlns: bool,
    /// The prefixes, in the order in which they were interned
    pub prefixes: Seq<Seq<char>>,
    /// The URIs, in the order in which they were interned
    pub uris: Seq<Seq<char>>,
    /// The local names, in the order in which they were interned
    pub names: Seq<Seq<char>>,
    /// The mappings that were recorded, in order
    pub mappings: Seq<NSMap>,
}

impl NamespaceView {
    /// The pool after `prefix` has been interned.
    pub open spec fn with_prefix(self, prefix: Seq<char>) -> NamespaceView {
        NamespaceView { prefixes: interned(self.prefixes, prefix), ..self }
    }

    /// The pool after `uri` has been interned.
    pub open spec fn with_uri(self, uri: Seq<char>) -> NamespaceView {
        NamespaceView { uris: interned(self.uris, uri), ..self }
    }

    /// The pool after `name` has been interned.
    pub open spec fn with_name(self, name: Seq<char>) -> NamespaceView {
        NamespaceView { names: interned(self.names, name), ..self }
    }

    /// The pool after the mapping `map` has been recorded: unchanged where
    /// it was recorded before.
    pub open spec fn with_mapping(self, map: NSMap) -> NamespaceView {
        if self.mappings.contains(map) {
            self
        } else {
            NamespaceView { mappings: self.mappings.push(map), ..self }
        }
    }

    /// The identifier of `prefix`, if the pool knows it.
    pub open spec fn prefix_id(self, prefix: Seq<char>) -> Option<NSPrefixId> {
        match number_of(self.prefixes, prefix) {
            Some(n) => Some(NSPrefixId(n)),
            None => None,
        }
    }

    /// The identifier of `uri`, if the pool knows it.
    pub open spec fn uri_id(self, uri: Seq<char>) -> Option<NSUriId> {
        match number_of(self.uris, uri) {
            Some(n) => Some(NSUriId(n)),
            None => None,
        }
    }

    /// The identifier of `name`, if the pool knows it.
    pub open spec fn name_id(self, name: Seq<char>) -> Option<NSNameId> {
        match number_of(self.names, name) {
            Some(n) => Some(NSNameId(n)),
            None => None,
        }
    }

    /// The prefix that `id` stands for; the empty string for none.
    pub open spec fn prefix_str(self, id: NSPrefixId) -> Seq<char> {
        string_of_number(self.prefixes, id.0)
    }

    /// The URI that `id` stands for; the empty string for none.
    pub open spec fn uri_str(self, id: NSUriId) -> Seq<char> {
        string_of_number(self.uris, id.0)
    }

    /// The name that `id` stands for; the empty string for none.
    pub open spec fn name_str(self, id: NSNameId) -> Seq<char> {
        string_of_number(self.names, id.0)
    }
}

/// Whether `strings` holds each of its strings once, and not the empty
/// string.
pub open spec fn held_once(strings: Seq<Seq<char>>) -> bool {
    &&& forall|i: int| 0 <= i < strings.len() ==> (#[trigger] strings[i]).len() > 0
    &&& forall|i: int, j: int|
        0 <= i < j < strings.len() ==> #[trigger] strings[i] != #[trigger] strings[j]
}

/// Interning keeps what is held, each string at its index, and holds each
/// string once.
pub proof fn lemma_interned_once(strings: Seq<Seq<char>>, s: Seq<char>)
    requires
        held_once(strings),
    ensures
        held_once(interned(strings, s)),
        interned(strings, s).len() >= strings.len(),
        forall|k: int| 0 <= k < strings.len() ==> interned(strings, s)[k] == strings[k],
{
    lemma_find_from(strings, s, 0);
}

impl NamespaceView {
    /// What holds of every pool: each prefix, URI and name is held once,
    /// the empty string is not held, and each mapping is recorded once.
    pub open spec fn wf(self) -> bool {
        &&& held_once(self.prefixes)
        &&& held_once(self.uris)
        &&& held_once(self.names)
        &&& forall|i: int, j: int|
            0 <= i < j < self.mappings.len() ==> #[trigger] self.mappings[i]
                != #[trigger] self.mappings[j]
    }

    /// Whatever is interned or recorded, each string is held once and each
    /// mapping is recorded once.
    pub proof fn lemma_wf(self, s: Seq<char>, map: NSMap)
        requires
            self.wf(),
        ensures
            self.with_prefix(s).wf(),
            self.with_uri(s).wf(),
            self.with_name(s).wf(),
            self.with_mapping(map).wf(),
    {
        lemma_interned_once(self.prefixes, s);
        lemma_interned_once(self.uris, s);
        lemma_interned_once(self.names, s);
    }
}

/// A pool of the prefixes, URIs and local names of a document, and of the
/// mappings of prefixes to URIs that it has seen.
///
/// Each string is held once, and is known by an identifier that stays the
/// same for as long as the pool lives. The empty string is never held: its
/// identifier is none.
pub struct Namespace {
    xmlns: bool,
    prefixes: Vec<String>,
    uris: Vec<String>,
    names: Vec<String>,
    mappings: Vec<NSMap>,
}

impl View for Namespace {
    type V = NamespaceView;

    closed spec fn view(&self) -> NamespaceView {
        NamespaceView {
            xmlns: self.xmlns,
            prefixes: texts(self.prefixes@),
            uris: texts(self.uris@),
            names: texts(self.names@),
            mappings: self.mappings@,
        }
    }
}

/// Looks `s` up among `strings`: the number by which it is known, if it is.
fn find_string(strings: &Vec<String>, s: &str) -> (r: Option<usize>)
    ensures
        r == number_of(texts(strings@), s@),
{
    let ghost all = texts(strings@);
    if s.is_empty() {
        return Some(0);
    }
    let mut i: usize = 0;
    while i < strings.len()
        invariant
            i <= strings.len(),
            all == texts(strings@),
            s@.len() > 0,
            find_from(all, s@, 0) == find_from(all, s@, i as int),
        decreases strings.len() - i,
    {
        assert(all[i as int] == strings@[i as int]@);
        if same_text(strings[i].as_str(), s) {
            return Some(i + 1);
        }
        i += 1;
    }
    None
}

/// Interns `s` among `strings`: the number by which it is known afterwards.
fn intern_string(strings: &mut Vec<String>, s: &str) -> (r: usize)
    ensures
        texts(final(strings)@) == interned(texts(old(strings)@), s@),
        r == interned_number(texts(old(strings)@), s@),
{
    match find_string(strings, s) {
        Some(n) => n,
        None => {
            let ghost before = texts(strings@);
            strings.push(String::from_str(s));
            assert(texts(strings@) =~= before.push(s@));
            strings.len()
        },
    }
}

impl Namespace {
    /// An empty pool. `xmlns` says whether it is for XML namespaces.
    pub fn new(xmlns: bool) -> (ns: Self)
        ensures
            ns@.wf(),
            ns@ == (NamespaceView {
                xmlns,
                prefixes: Seq::empty(),
                uris: Seq::empty(),
                names: Seq::empty(),
                mappings: Seq::empty(),
            }),
    {
        let ns = Self {
            xmlns,
            prefixes: Vec::new(),
            uris: Vec::new(),
            names: Vec::new(),
            mappings: Vec::new(),
        };
        assert(texts(ns.prefixes@) =~= Seq::empty());
        assert(texts(ns.uris@) =~= Seq::empty());
        assert(texts(ns.names@) =~= Seq::empty());
        ns
    }

    /// Whether the pool was made for XML namespaces.
    pub fn uses_xmlns(&self) -> (r: bool)
        ensures
            r == self@.xmlns,
    {
        self.xmlns
    }

    /// The identifier of `name`, if the pool knows it; none for the empty
    /// string. Nothing is added.
    pub fn find_name(&self, name: &str) -> (r: Option<NSNameId>)
        ensures
            r == self@.name_id(name@),
    {
        match find_string(&self.names, name) {
            Some(n) => Some(NSNameId(n)),
            None => None,
        }
    }

    /// The identifier of `prefix`, if the pool knows it; none for the empty
    /// string. Nothing is added.
    pub fn find_prefix(&self, prefix: &str) -> (r: Option<NSPrefixId>)
        ensures
            r == self@.prefix_id(prefix@),
    {
        match find_string(&self.prefixes, prefix) {
            Some(n) => Some(NSPrefixId(n)),
            None => None,
        }
    }

    /// The identifier of `uri`, if the pool knows it; none for the empty
    /// string. Nothing is added.
    pub fn find_uri(&self, uri: &str) -> (r: Option<NSUriId>)
        ensures
            r == self@.uri_id(uri@),
    {
        match find_string(&self.uris, uri) {
            Some(n) => Some(NSUriId(n)),
            None => None,
        }
    }

    /// The identifier of `name`, which is added to the pool if it is not
    /// known.
    pub fn find_or_add_name(&mut self, name: &str) -> (r: NSNameId)
        ensures
            final(self)@ == old(self)@.with_name(name@),
            r.0 == interned_number(old(self)@.names, name@),
    {
        NSNameId(intern_string(&mut self.names, name))
    }

    /// The identifier of `prefix`, which is added to the pool if it is not
    /// known.
    pub fn find_or_add_prefix(&mut self, prefix: &str) -> (r: NSPrefixId)
        ensures
            final(self)@ == old(self)@.with_prefix(prefix@),
            r.0 == interned_number(old(self)@.prefixes, prefix@),
    {
        NSPrefixId(intern_string(&mut self.prefixes, prefix))
    }

    /// The identifier of `uri`, which is added to the pool if it is not
    /// known.
    pub fn find_or_add_uri(&mut self, uri: &str) -> (r: NSUriId)
        ensures
            final(self)@ == old(self)@.with_uri(uri@),
            r.0 == interned_number(old(self)@.uris, uri@),
    {
        NSUriId(intern_string(&mut self.uris, uri))
    }

    /// The name that `name` stands for, or `default` for none and for an
    /// identifier that stands for nothing.
    pub fn name_str<'a>(&'a self, name: NSNameId, default: &'a str) -> (r: &'a str)
        ensures
            r@ == (if 0 < name.0 <= self@.names.len() {
                self@.names[name.0 - 1]
            } else {
                default@
            }),
    {
        if name.0 == 0 || name.0 > self.names.len() {
            default
        } else {
            assert(texts(self.names@)[name.0 - 1] == self.names@[name.0 - 1]@);
            self.names[name.0 - 1].as_str()
        }
    }

    /// The prefix that `prefix` stands for, or `default` for none and for
    /// an identifier that stands for nothing.
    pub fn prefix_str<'a>(&'a self, prefix: NSPrefixId, default: &'a str) -> (r: &'a str)
        ensures
            r@ == (if 0 < prefix.0 <= self@.prefixes.len() {
                self@.prefixes[prefix.0 - 1]
            } else {
                default@
            }),
    {
        if prefix.0 == 0 || prefix.0 > self.prefixes.len() {
            default
        } else {
            assert(texts(self.prefixes@)[prefix.0 - 1] == self.prefixes@[prefix.0 - 1]@);
            self.prefixes[prefix.0 - 1].as_str()
        }
    }

    /// The URI that `uri` stands for, or `default` for none and for an
    /// identifier that stands for nothing.
    pub fn uri_str<'a>(&'a self, uri: NSUriId, default: &'a str) -> (r: &'a str)
        ensures
            r@ == (if 0 < uri.0 <= self@.uris.len() {
                self@.uris[uri.0 - 1]
            } else {
                default@
            }),
    {
        if uri.0 == 0 || uri.0 > self.uris.len() {
            default
        } else {
            assert(texts(self.uris@)[uri.0 - 1] == self.uris@[uri.0 - 1]@);
            self.uris[uri.0 - 1].as_str()
        }
    }

    /// Interns `prefix` and `uri`, and records the mapping of the one to
    /// the other, which is returned.
    pub fn add_mapping(&mut self, prefix: &str, uri: &str) -> (m: NSMap)
        ensures
            m == NSMap(
                NSPrefixId(interned_number(old(self)@.prefixes, prefix@)),
                NSUriId(interned_number(old(self)@.uris, uri@)),
            ),
            final(self)@ == old(self)@.with_prefix(prefix@).with_uri(uri@).with_mapping(m),
    {
        let p_id = self.find_or_add_prefix(prefix);
        let u_id = self.find_or_add_uri(uri);
        self.add_mapping_by_id(p_id, u_id)
    }

    /// Records the mapping of `prefix_id` to `uri_id`, which is returned.
    /// Recording a mapping twice changes nothing.
    pub fn add_mapping_by_id(&mut self, prefix_id: NSPrefixId, uri_id: NSUriId) -> (m: NSMap)
        ensures
            m == NSMap(prefix_id, uri_id),
            final(self)@ == old(self)@.with_mapping(m),
    {
        let ns_map = NSMap::new(prefix_id, uri_id);
        let mut i: usize = 0;
        let mut found = false;
        while i < self.mappings.len() && !found
            invariant
                i <= self.mappings.len(),
                *self == *old(self),
                found ==> self.mappings@.contains(ns_map),
                !found ==> forall|j: int| 0 <= j < i ==> self.mappings@[j] != ns_map,
            decreases self.mappings.len() - i + (if found { 0int } else { 1int }),
        {
            if self.mappings[i] == ns_map {
                found = true;
            } else {
                i += 1;
            }
        }
        if !found {
            self.mappings.push(ns_map);
        }
        ns_map
    }
}

} // verus!
