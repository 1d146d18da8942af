//! The stack of namespace declarations of a document.
use std::collections::HashMap;
use vstd::prelude::*;
use vstd::string::*;
use crate::names::ids::{NSMap, NSNameId, NSPrefixId, NSUriId};
use crate::names::namespace::{Namespace, NamespaceView, interned_number};

verus! {

broadcast use vstd::std_specs::hash::group_hash_axioms;

/// What a frame of the namespace stack holds: the URI that each prefix is
/// declared as, by the number of the prefix, and the prefixes in the order
/// in which they were first declared.
pub ghost struct FrameView {
    pub map: Map<usize, NSUriId>,
    pub order: Seq<NSPrefixId>,
}

impl FrameView {
    /// The frame without a declaration.
    pub open spec fn empty() -> FrameView {
        FrameView { map: Map::empty(), order: Seq::empty() }
    }

    /// The frame after `map` has been declared in it: the prefix now
    /// stands for the URI, whatever it stood for before.
    pub open spec fn declare(self, map: NSMap) -> FrameView {
        FrameView {
            map: self.map.insert(map.0.0, map.1),
            order: if self.map.contains_key(map.0.0) {
                self.order
            } else {
                self.order.push(map.0)
            },
        }
    }
}

impl FrameView {
    /// What holds of every frame: the prefixes in `order` are those that
    /// the frame declares, each once.
    pub open spec fn wf(self) -> bool {
        &&& forall|i: int|
            0 <= i < self.order.len() ==> self.map.contains_key((#[trigger] self.order[i]).0)
        &&& forall|i: int, j: int|
            0 <= i < j < self.order.len() ==> (#[trigger] self.order[i]).0 != (
            #[trigger] self.order[j]).0
        &&& forall|k: usize| #[trigger]
            self.map.contains_key(k) ==> exists|i: int|
                0 <= i < self.order.len() && (#[trigger] self.order[i]).0 == k
    }

    /// A declaration keeps the prefixes of a frame in order, each once.
    pub proof fn lemma_declare_wf(self, map: NSMap)
        requires
            self.wf(),
        ensures
            self.declare(map).wf(),
            FrameView::empty().wf(),
    {
        let g = self.declare(map);
        assert forall|k: usize| #[trigger] g.map.contains_key(k) implies exists|i: int|
            0 <= i < g.order.len() && (#[trigger] g.order[i]).0 == k by {
            if self.map.contains_key(k) {
                let i = choose|i: int| 0 <= i < self.order.len() && (#[trigger] self.order[i]).0 == k;
                assert(g.order[i].0 == k);
            } else {
                assert(g.order[self.order.len() as int].0 == k);
            }
        }
    }

    /// The declarations of a frame, listed in the order of its prefixes, are
    /// all that it declares: one for each prefix, none left out.
    pub proof fn lemma_listed(self, k: int)
        requires
            self.wf(),
            0 <= k <= self.order.len(),
        ensures
            listed(self, k).len() == k,
            forall|i: int|
                0 <= i < k ==> #[trigger] listed(self, k)[i] == NSMap(
                    self.order[i],
                    self.map[self.order[i].0],
                ),
        decreases k,
    {
        if k > 0 {
            self.lemma_listed(k - 1);
        }
    }
}

/// A frame of the namespace stack: the declarations of one element.
pub struct NamespaceStackFrame {
    mappings: HashMap<usize, NSUriId>,
    order: Vec<NSPrefixId>,
}

impl View for NamespaceStackFrame {
    type V = FrameView;

    closed spec fn view(&self) -> FrameView {
        FrameView { map: self.mappings@, order: self.order@ }
    }
}

impl NamespaceStackFrame {
    /// A frame without a declaration.
    pub fn new() -> (f: Self)
        ensures
            f@ == FrameView::empty(),
    {
        NamespaceStackFrame { mappings: HashMap::new(), order: Vec::new() }
    }

    /// Declares `map` in the frame: its prefix stands for its URI from now
    /// on, whatever it stood for before.
    pub fn add_mapping_by_id(&mut self, map: NSMap)
        ensures
            final(self)@ == old(self)@.declare(map),
    {
        let key: usize = map.prefix_id().0;
        if !self.mappings.contains_key(&key) {
            self.order.push(map.prefix_id());
        }
        self.mappings.insert(key, map.uri_id());
    }

    /// Declares `map` in the frame unless the frame declares its prefix
    /// already, and says whether it did.
    pub fn add_mapping_by_id_if_unset(&mut self, map: NSMap) -> (r: bool)
        ensures
            r == !old(self)@.map.contains_key(map.0.0),
            final(self)@ == (if r {
                old(self)@.declare(map)
            } else {
                old(self)@
            }),
    {
        let key: usize = map.prefix_id().0;
        if self.mappings.contains_key(&key) {
            false
        } else {
            self.add_mapping_by_id(map);
            true
        }
    }

    /// The number of prefixes that the frame holds in order.
    pub fn order_len(&self) -> (n: usize)
        ensures
            n == self@.order.len(),
    {
        self.order.len()
    }

    /// The prefix at index `i` of the order of the frame.
    pub fn order_at(&self, i: usize) -> (p: NSPrefixId)
        requires
            i < self@.order.len(),
        ensures
            p == self@.order[i as int],
    {
        self.order[i]
    }

    /// The declarations of the frame, in the order in which their prefixes
    /// were first declared.
    pub fn iter_mappings(&self) -> (v: Vec<NSMap>)
        ensures
            v@ == listed(self@, self@.order.len() as int),
    {
        let mut v: Vec<NSMap> = Vec::new();
        let mut k: usize = 0;
        while k < self.order.len()
            invariant
                k <= self.order.len(),
                v@ == listed(self@, k as int),
            decreases self.order.len() - k,
        {
            let p = self.order[k];
            match self.find_mapping(p) {
                Some(u) => {
                    v.push(NSMap::new(p, u));
                },
                None => {},
            }
            k += 1;
        }
        v
    }

    /// The URI that the frame declares `prefix_id` as, if it declares it.
    pub fn find_mapping(&self, prefix_id: NSPrefixId) -> (r: Option<NSUriId>)
        ensures
            r == (if self@.map.contains_key(prefix_id.0) {
                Some(self@.map[prefix_id.0])
            } else {
                None
            }),
    {
        let key: usize = prefix_id.0;
        match self.mappings.get(&key) {
            Some(u) => Some(*u),
            None => None,
        }
    }
}

/// The URI that `p` is declared as in the topmost of the first `k` frames
/// that declares it, if any of them does.
pub open spec fn resolve(frames: Seq<FrameView>, p: usize, k: int) -> Option<NSUriId>
    decreases k,
{
    if k <= 0 {
        None
    } else if frames[k - 1].map.contains_key(p) {
        Some(frames[k - 1].map[p])
    } else {
        resolve(frames, p, k - 1)
    }
}

/// The index of the topmost of the first `k` frames that declares `p`, or
/// -1 where none of them does.
pub open spec fn top_frame_of(frames: Seq<FrameView>, p: usize, k: int) -> int
    decreases k,
{
    if k <= 0 {
        -1
    } else if frames[k - 1].map.contains_key(p) {
        k - 1
    } else {
        top_frame_of(frames, p, k - 1)
    }
}

/// The topmost frame that declares a prefix is one of the frames, and
/// declares the prefix.
pub proof fn lemma_top_frame_of(frames: Seq<FrameView>, p: usize, k: int)
    requires
        0 <= k <= frames.len(),
    ensures
        -1 <= top_frame_of(frames, p, k) < k,
        top_frame_of(frames, p, k) >= 0 ==> frames[top_frame_of(frames, p, k)].map.contains_key(p),
    decreases k,
{
    if k > 0 && !frames[k - 1].map.contains_key(p) {
        lemma_top_frame_of(frames, p, k - 1);
    }
}

/// The declarations of the first `k` prefixes of frame `f` that hold on
/// the stack: those that no frame above `f` declares anew.
pub open spec fn effective_of_frame(frames: Seq<FrameView>, f: int, k: int) -> Seq<NSMap>
    decreases k,
{
    if k <= 0 {
        Seq::empty()
    } else {
        let rest = effective_of_frame(frames, f, k - 1);
        let p = frames[f].order[k - 1];
        if top_frame_of(frames, p.0, frames.len() as int) == f {
            rest.push(NSMap(p, frames[f].map[p.0]))
        } else {
            rest
        }
    }
}

/// The declarations of the topmost `j` frames that hold on the stack, the
/// topmost frame first, each frame in the order of its prefixes.
pub open spec fn effective_of_top(frames: Seq<FrameView>, j: int) -> Seq<NSMap>
    decreases j,
{
    if j <= 0 {
        Seq::empty()
    } else {
        effective_of_top(frames, j - 1) + effective_of_frame(
            frames,
            frames.len() - j,
            frames[frames.len() - j].order.len() as int,
        )
    }
}

/// What the topmost frame that declares a prefix declares it as is what the
/// prefix stands for on the stack.
pub proof fn lemma_resolve_top(frames: Seq<FrameView>, p: usize, k: int)
    requires
        0 <= k <= frames.len(),
    ensures
        resolve(frames, p, k) == (if top_frame_of(frames, p, k) >= 0 {
            Some(frames[top_frame_of(frames, p, k)].map[p])
        } else {
            None
        }),
    decreases k,
{
    if k > 0 && !frames[k - 1].map.contains_key(p) {
        lemma_resolve_top(frames, p, k - 1);
    }
}

/// Each declaration that a frame contributes to those that hold on the
/// stack is what its prefix stands for there.
pub proof fn lemma_effective_of_frame(frames: Seq<FrameView>, f: int, k: int)
    requires
        0 <= f < frames.len(),
        0 <= k <= frames[f].order.len(),
    ensures
        forall|i: int|
            0 <= i < effective_of_frame(frames, f, k).len() ==> resolve(
                frames,
                (#[trigger] effective_of_frame(frames, f, k)[i]).0.0,
                frames.len() as int,
            ) == Some(effective_of_frame(frames, f, k)[i].1),
    decreases k,
{
    if k > 0 {
        lemma_effective_of_frame(frames, f, k - 1);
        let p = frames[f].order[k - 1];
        lemma_resolve_top(frames, p.0, frames.len() as int);
    }
}

/// Each declaration among those that hold on the stack is what its prefix
/// stands for there.
pub proof fn lemma_effective_of_top(frames: Seq<FrameView>, j: int)
    requires
        0 <= j <= frames.len(),
    ensures
        forall|i: int|
            0 <= i < effective_of_top(frames, j).len() ==> resolve(
                frames,
                (#[trigger] effective_of_top(frames, j)[i]).0.0,
                frames.len() as int,
            ) == Some(effective_of_top(frames, j)[i].1),
    decreases j,
{
    if j > 0 {
        lemma_effective_of_top(frames, j - 1);
        let f = frames.len() - j;
        lemma_effective_of_frame(frames, f, frames[f].order.len() as int);
    }
}

/// The declarations of the first `k` prefixes of a frame, in order.
pub open spec fn listed(frame: FrameView, k: int) -> Seq<NSMap>
    decreases k,
{
    if k <= 0 {
        Seq::empty()
    } else {
        let rest = listed(frame, k - 1);
        let p = frame.order[k - 1];
        if frame.map.contains_key(p.0) {
            rest.push(NSMap(p, frame.map[p.0]))
        } else {
            rest
        }
    }
}

/// What a namespace stack holds: the pool of its strings, and its frames
/// from the bottom up.
pub ghost struct NamespaceStackView {
    pub pool: NamespaceView,
    pub frames: Seq<FrameView>,
}

impl NamespaceStackView {
    /// The stack with a new frame on top that declares nothing.
    pub open spec fn push_frame(self) -> NamespaceStackView {
        NamespaceStackView { frames: self.frames.push(FrameView::empty()), ..self }
    }

    /// The stack without its topmost frame.
    pub open spec fn pop_frame(self) -> NamespaceStackView {
        NamespaceStackView { frames: self.frames.drop_last(), ..self }
    }

    /// The stack after `map` has been declared in its topmost frame.
    pub open spec fn declare(self, map: NSMap) -> NamespaceStackView {
        NamespaceStackView {
            frames: self.frames.update(
                self.frames.len() - 1,
                self.frames.last().declare(map),
            ),
            ..self
        }
    }

    /// The URI that `p` stands for: what the topmost frame that declares
    /// `p` declares it as.
    pub open spec fn lookup(self, p: NSPrefixId) -> Option<NSUriId> {
        resolve(self.frames, p.0, self.frames.len() as int)
    }

    /// The mapping of `prefix` to `uri`, once both have been interned.
    pub open spec fn mapping_of(self, prefix: Seq<char>, uri: Seq<char>) -> NSMap {
        NSMap(
            NSPrefixId(interned_number(self.pool.prefixes, prefix)),
            NSUriId(interned_number(self.pool.uris, uri)),
        )
    }

    /// The stack after `prefix` and `uri` have been interned and their
    /// mapping has been recorded in the pool.
    pub open spec fn intern_ns(self, prefix: Seq<char>, uri: Seq<char>) -> NamespaceStackView {
        NamespaceStackView {
            pool: self.pool.with_prefix(prefix).with_uri(uri).with_mapping(
                self.mapping_of(prefix, uri),
            ),
            ..self
        }
    }

    /// The stack after `prefix` has been declared as `uri` in its topmost
    /// frame.
    pub open spec fn add_ns(self, prefix: Seq<char>, uri: Seq<char>) -> NamespaceStackView {
        self.intern_ns(prefix, uri).declare(self.mapping_of(prefix, uri))
    }

    /// The stack after the null namespace has been declared: no prefix
    /// stands for no URI.
    pub open spec fn add_null_ns(self) -> NamespaceStackView {
        self.add_ns(Seq::empty(), Seq::empty())
    }

    /// The stack after the null namespace and the two namespaces of XML
    /// have been declared.
    pub open spec fn add_default_xmls(self) -> NamespaceStackView {
        self.add_null_ns().add_ns("xmlns"@, "http://www.w3.org/2000/xmlns/"@).add_ns(
            "xml"@,
            "http://www.w3.org/XML/1998/namespace"@,
        )
    }

    /// The stack as it is made for the pool `pool`: one frame, which
    /// declares the null namespace and, where the pool is for XML
    /// namespaces, the two namespaces of XML.
    pub open spec fn initial(pool: NamespaceView) -> NamespaceStackView {
        let base = NamespaceStackView { pool, frames: seq![FrameView::empty()] };
        if pool.xmlns {
            base.add_default_xmls()
        } else {
            base.add_null_ns()
        }
    }

    /// The declarations that hold: for each prefix that some frame
    /// declares, what the topmost such frame declares it as. They come
    /// frame by frame from the top, each frame in the order in which its
    /// prefixes were first declared.
    pub open spec fn mappings(self) -> Seq<NSMap> {
        effective_of_top(self.frames, self.frames.len() as int)
    }

    /// What holds of every stack: each frame holds its prefixes in order,
    /// each once.
    pub open spec fn wf(self) -> bool {
        forall|i: int| 0 <= i < self.frames.len() ==> (#[trigger] self.frames[i]).wf()
    }

    /// Pushing and popping a frame and declaring in the topmost frame keep
    /// the prefixes of each frame in order, each once; so does a stack as
    /// it is first made.
    pub proof fn lemma_wf(self, map: NSMap, prefix: Seq<char>, uri: Seq<char>)
        requires
            self.wf(),
        ensures
            self.push_frame().wf(),
            self.frames.len() > 0 ==> self.pop_frame().wf(),
            self.frames.len() > 0 ==> self.declare(map).wf(),
            self.frames.len() > 0 ==> self.add_ns(prefix, uri).wf(),
    {
        FrameView::empty().lemma_declare_wf(map);
        if self.frames.len() > 0 {
            assert forall|i: int| 0 <= i < self.pop_frame().frames.len() implies (
            #[trigger] self.pop_frame().frames[i]).wf() by {
                assert(self.pop_frame().frames[i] == self.frames[i]);
            }
            self.frames.last().lemma_declare_wf(map);
            self.frames.last().lemma_declare_wf(self.mapping_of(prefix, uri));
        }
    }

    /// A stack as it is first made holds the prefixes of its frame in
    /// order, each once.
    pub proof fn lemma_initial_wf(pool: NamespaceView)
        ensures
            NamespaceStackView::initial(pool).wf(),
    {
        let base = NamespaceStackView { pool, frames: seq![FrameView::empty()] };
        FrameView::empty().lemma_declare_wf(NSMap(NSPrefixId(0), NSUriId(0)));
        assert(base.wf());
        let none = Seq::<char>::empty();
        base.lemma_wf(NSMap(NSPrefixId(0), NSUriId(0)), none, none);
        let a = base.add_null_ns();
        a.lemma_wf(NSMap(NSPrefixId(0), NSUriId(0)), "xmlns"@, "http://www.w3.org/2000/xmlns/"@);
        let b = a.add_ns("xmlns"@, "http://www.w3.org/2000/xmlns/"@);
        b.lemma_wf(
            NSMap(NSPrefixId(0), NSUriId(0)),
            "xml"@,
            "http://www.w3.org/XML/1998/namespace"@,
        );
    }

    /// Each of the declarations that hold is what its prefix stands for.
    pub proof fn lemma_mappings_hold(self)
        ensures
            forall|i: int|
                0 <= i < self.mappings().len() ==> self.lookup((#[trigger] self.mappings()[i]).0)
                    == Some(self.mappings()[i].1),
    {
        lemma_effective_of_top(self.frames, self.frames.len() as int);
    }
}

/// The views of a sequence of frames.
pub open spec fn frame_views(frames: Seq<NamespaceStackFrame>) -> Seq<FrameView> {
    frames.map_values(|f: NamespaceStackFrame| f@)
}

/// A stack of namespace declarations over a namespace pool.
///
/// Each element of a document has a frame, which holds the prefixes that
/// the element declares. A prefix stands for what the topmost frame that
/// declares it says.
pub struct NamespaceStack<'ns> {
    namespaces: &'ns mut Namespace,
    frames: Vec<NamespaceStackFrame>,
}

impl<'ns> View for NamespaceStack<'ns> {
    type V = NamespaceStackView;

    closed spec fn view(&self) -> NamespaceStackView {
        NamespaceStackView { pool: (*self.namespaces)@, frames: frame_views(self.frames@) }
    }
}

impl<'ns> NamespaceStack<'ns> {
    /// A stack over the pool `namespaces`, with one frame, which declares
    /// the null namespace and, where the pool is for XML namespaces, the
    /// two namespaces of XML.
    pub fn new(namespaces: &'ns mut Namespace) -> (s: Self)
        ensures
            s@ == NamespaceStackView::initial(old(namespaces)@),
    {
        let mut frames: Vec<NamespaceStackFrame> = Vec::new();
        frames.push(NamespaceStackFrame::new());
        let mut s = Self { namespaces, frames };
        assert(s@.frames =~= seq![FrameView::empty()]);
        if s.uses_xmlns() {
            s.add_default_xmls();
        } else {
            s.add_null_ns();
        }
        s
    }

    /// Whether the pool is for XML namespaces.
    pub fn uses_xmlns(&self) -> (r: bool)
        ensures
            r == self@.pool.xmlns,
    {
        self.namespaces.uses_xmlns()
    }

    /// Declares the null namespace in the topmost frame.
    pub fn add_null_ns(&mut self)
        requires
            old(self)@.frames.len() > 0,
        ensures
            final(self)@ == old(self)@.add_null_ns(),
    {
        self.add_ns("", "");
        proof {
            reveal_strlit("");
            assert(""@ =~= Seq::<char>::empty());
        }
    }

    /// Declares the null namespace and the two namespaces of XML in the
    /// topmost frame.
    pub fn add_default_xmls(&mut self)
        requires
            old(self)@.frames.len() > 0,
        ensures
            final(self)@ == old(self)@.add_default_xmls(),
    {
        self.add_null_ns();
        self.add_ns("xmlns", "http://www.w3.org/2000/xmlns/");
        self.add_ns("xml", "http://www.w3.org/XML/1998/namespace");
    }

    /// Pushes a frame that declares nothing.
    pub fn push_frame(&mut self)
        ensures
            final(self)@ == old(self)@.push_frame(),
    {
        self.frames.push(NamespaceStackFrame::new());
        assert(frame_views(self.frames@) =~= frame_views(old(self).frames@).push(
            FrameView::empty(),
        ));
    }

    /// Pops the topmost frame.
    pub fn pop_frame(&mut self)
        requires
            old(self)@.frames.len() > 0,
        ensures
            final(self)@ == old(self)@.pop_frame(),
    {
        let _ = self.frames.pop();
        assert(frame_views(self.frames@) =~= frame_views(old(self).frames@).drop_last());
    }

    /// The number of frames.
    pub fn stack_depth(&self) -> (n: usize)
        ensures
            n == self@.frames.len(),
    {
        self.frames.len()
    }

    /// Declares `map` in the topmost frame.
    pub fn add_mapping_by_id(&mut self, map: NSMap)
        requires
            old(self)@.frames.len() > 0,
        ensures
            final(self)@ == old(self)@.declare(map),
    {
        let ghost before = frame_views(self.frames@);
        let mut top = self.frames.pop().unwrap();
        top.add_mapping_by_id(map);
        self.frames.push(top);
        assert(frame_views(self.frames@) =~= before.update(
            before.len() - 1,
            before.last().declare(map),
        ));
    }

    /// Declares `map` in the topmost frame unless that frame declares its
    /// prefix already, and says whether it did.
    pub fn add_mapping_by_id_if_unset(&mut self, map: NSMap) -> (r: bool)
        requires
            old(self)@.frames.len() > 0,
        ensures
            r == !old(self)@.frames.last().map.contains_key(map.0.0),
            final(self)@ == (if r {
                old(self)@.declare(map)
            } else {
                old(self)@
            }),
    {
        let ghost before = frame_views(self.frames@);
        let mut top = self.frames.pop().unwrap();
        let r = top.add_mapping_by_id_if_unset(map);
        self.frames.push(top);
        proof {
            if r {
                assert(frame_views(self.frames@) =~= before.update(
                    before.len() - 1,
                    before.last().declare(map),
                ));
            } else {
                assert(frame_views(self.frames@) =~= before);
            }
        }
        r
    }

    /// The URI that `prefix_id` stands for: what the topmost frame that
    /// declares it says; `None` where no frame declares it.
    pub fn find_mapping(&self, prefix_id: NSPrefixId) -> (r: Option<NSUriId>)
        ensures
            r == self@.lookup(prefix_id),
    {
        let ghost frames = frame_views(self.frames@);
        let mut k: usize = self.frames.len();
        while k > 0
            invariant
                k <= self.frames.len(),
                frames == frame_views(self.frames@),
                resolve(frames, prefix_id.0, frames.len() as int) == resolve(
                    frames,
                    prefix_id.0,
                    k as int,
                ),
            decreases k,
        {
            assert(frames[k - 1] == self.frames@[k - 1]@);
            match self.frames[k - 1].find_mapping(prefix_id) {
                Some(uri_id) => {
                    return Some(uri_id);
                },
                None => {},
            }
            k -= 1;
        }
        None
    }

    /// The identifier of `prefix`, if the pool knows it; none for the empty
    /// string.
    pub fn find_prefix_id(&self, prefix: &str) -> (r: Option<NSPrefixId>)
        ensures
            r == self@.pool.prefix_id(prefix@),
    {
        self.namespaces.find_prefix(prefix)
    }

    /// The name that `name` stands for; the empty string for none.
    pub fn name_str(&self, name: NSNameId) -> (r: &str)
        ensures
            r@ == self@.pool.name_str(name),
    {
        let r = self.namespaces.name_str(name, "");
        proof {
            reveal_strlit("");
            assert(""@ =~= Seq::<char>::empty());
        }
        r
    }

    /// The prefix that `prefix` stands for; the empty string for none.
    pub fn prefix_str(&self, prefix: NSPrefixId) -> (r: &str)
        ensures
            r@ == self@.pool.prefix_str(prefix),
    {
        let r = self.namespaces.prefix_str(prefix, "");
        proof {
            reveal_strlit("");
            assert(""@ =~= Seq::<char>::empty());
        }
        r
    }

    /// The URI that `uri` stands for; the empty string for none.
    pub fn uri_str(&self, uri: NSUriId) -> (r: &str)
        ensures
            r@ == self@.pool.uri_str(uri),
    {
        let r = self.namespaces.uri_str(uri, "");
        proof {
            reveal_strlit("");
            assert(""@ =~= Seq::<char>::empty());
        }
        r
    }

    /// The name that `name` stands for; the empty string for none.
    pub fn borrow_name(&self, name: NSNameId) -> (r: &str)
        ensures
            r@ == self@.pool.name_str(name),
    {
        self.name_str(name)
    }

    /// The prefix that `prefix` stands for; the empty string for none.
    pub fn borrow_prefix(&self, prefix: NSPrefixId) -> (r: &str)
        ensures
            r@ == self@.pool.prefix_str(prefix),
    {
        self.prefix_str(prefix)
    }

    /// The URI that `uri` stands for; the empty string for none.
    pub fn borrow_uri(&self, uri: NSUriId) -> (r: &str)
        ensures
            r@ == self@.pool.uri_str(uri),
    {
        self.uri_str(uri)
    }

    /// The prefix and the URI of `map`, as strings.
    pub fn borrow_mapping(&self, map: NSMap) -> (r: (&str, &str))
        ensures
            r.0@ == self@.pool.prefix_str(map.0),
            r.1@ == self@.pool.uri_str(map.1),
    {
        (self.prefix_str(map.prefix_id()), self.uri_str(map.uri_id()))
    }

    /// The identifier of `name`, which is added to the pool if it is not
    /// known.
    pub fn add_name(&mut self, name: &str) -> (r: NSNameId)
        ensures
            final(self)@ == (NamespaceStackView {
                pool: old(self)@.pool.with_name(name@),
                ..old(self)@
            }),
            r.0 == interned_number(old(self)@.pool.names, name@),
    {
        self.namespaces.find_or_add_name(name)
    }

    /// Declares `prefix` as `uri` in the topmost frame; both are added to
    /// the pool where they are not known. Returns the mapping.
    pub fn add_ns(&mut self, prefix: &str, uri: &str) -> (m: NSMap)
        requires
            old(self)@.frames.len() > 0,
        ensures
            m == old(self)@.mapping_of(prefix@, uri@),
            final(self)@ == old(self)@.add_ns(prefix@, uri@),
    {
        let ns_map = self.namespaces.add_mapping(prefix, uri);
        self.add_mapping_by_id(ns_map);
        ns_map
    }

    /// Declares `prefix` as `uri` in the topmost frame unless that frame
    /// declares the prefix already; both are added to the pool where they
    /// are not known. Returns the mapping, and whether it was declared.
    pub fn add_ns_if_unset(&mut self, prefix: &str, uri: &str) -> (r: (NSMap, bool))
        requires
            old(self)@.frames.len() > 0,
        ensures
            r.0 == old(self)@.mapping_of(prefix@, uri@),
            r.1 == !old(self)@.frames.last().map.contains_key(r.0.0.0),
            final(self)@ == (if r.1 {
                old(self)@.add_ns(prefix@, uri@)
            } else {
                old(self)@.intern_ns(prefix@, uri@)
            }),
    {
        let ns_map = self.namespaces.add_mapping(prefix, uri);
        let done = self.add_mapping_by_id_if_unset(ns_map);
        (ns_map, done)
    }
    /// The declarations of the topmost frame, in the order in which their
    /// prefixes were first declared.
    pub fn iter_top_mappings(&self) -> (v: Vec<NSMap>)
        requires
            self@.frames.len() > 0,
        ensures
            v@ == listed(self@.frames.last(), self@.frames.last().order.len() as int),
    {
        let n = self.frames.len();
        assert(frame_views(self.frames@)[n - 1] == self.frames@[n - 1]@);
        self.frames[n - 1].iter_mappings()
    }

    /// The index of the topmost frame that declares `prefix_id`, if one
    /// does.
    fn top_frame(&self, prefix_id: NSPrefixId) -> (r: Option<usize>)
        ensures
            match r {
                Some(f) => top_frame_of(self@.frames, prefix_id.0, self@.frames.len() as int) == f,
                None => top_frame_of(self@.frames, prefix_id.0, self@.frames.len() as int) == -1,
            },
    {
        let ghost frames = frame_views(self.frames@);
        let mut k: usize = self.frames.len();
        while k > 0
            invariant
                k <= self.frames.len(),
                frames == frame_views(self.frames@),
                top_frame_of(frames, prefix_id.0, frames.len() as int) == top_frame_of(
                    frames,
                    prefix_id.0,
                    k as int,
                ),
            decreases k,
        {
            assert(frames[k - 1] == self.frames@[k - 1]@);
            if self.frames[k - 1].find_mapping(prefix_id).is_some() {
                return Some(k - 1);
            }
            k -= 1;
        }
        None
    }

    /// The declarations that hold on the stack: for each prefix that some
    /// frame declares, what the topmost such frame declares it as. They
    /// come frame by frame from the top, each frame in the order in which
    /// its prefixes were first declared.
    pub fn mappings(&self) -> (v: Vec<NSMap>)
        ensures
            v@ == self@.mappings(),
    {
        let ghost frames = frame_views(self.frames@);
        let n = self.frames.len();
        let mut v: Vec<NSMap> = Vec::new();
        let mut j: usize = 0;
        while j < n
            invariant
                j <= n,
                n == self.frames.len(),
                frames == frame_views(self.frames@),
                v@ == effective_of_top(frames, j as int),
            decreases n - j,
        {
            let f: usize = n - 1 - j;
            assert(frames[f as int] == self.frames@[f as int]@);
            let ghost base = v@;
            let count = self.frames[f].order_len();
            let mut k: usize = 0;
            assert(base + effective_of_frame(frames, f as int, 0) =~= base);
            while k < count
                invariant
                    k <= count,
                    f < n,
                    n == self.frames.len(),
                    frames == frame_views(self.frames@),
                    frames[f as int] == self.frames@[f as int]@,
                    count == frames[f as int].order.len(),
                    v@ == base + effective_of_frame(frames, f as int, k as int),
                decreases count - k,
            {
                let p = self.frames[f].order_at(k);
                let ghost before = effective_of_frame(frames, f as int, k as int);
                proof {
                    lemma_top_frame_of(frames, p.0, frames.len() as int);
                }
                match self.top_frame(p) {
                    Some(t) => {
                        if t == f {
                            match self.frames[f].find_mapping(p) {
                                Some(u) => {
                                    v.push(NSMap::new(p, u));
                                    assert(v@ =~= base + before.push(NSMap(p, u)));
                                },
                                None => {},
                            }
                        }
                    },
                    None => {},
                }
                k += 1;
            }
            j += 1;
        }
        v
    }

    /// The mapping `map` as text: the prefix and the URI, each in single
    /// quotes, with ` => ` between them.
    pub fn fmt_map(&self, map: NSMap) -> (s: String)
        ensures
            s@ == seq!['\''] + self@.pool.prefix_str(map.0) + seq!['\'', ' ', '=', '>', ' ', '\'']
                + self@.pool.uri_str(map.1) + seq!['\''],
    {
        let mut s = String::new();
        s.push('\'');
        s.append(self.prefix_str(map.prefix_id()));
        s.push('\'');
        s.push(' ');
        s.push('=');
        s.push('>');
        s.push(' ');
        s.push('\'');
        s.append(self.uri_str(map.uri_id()));
        s.push('\'');
        assert(s@ =~= seq!['\''] + self@.pool.prefix_str(map.0) + seq![
            '\'',
            ' ',
            '=',
            '>',
            ' ',
            '\'',
        ] + self@.pool.uri_str(map.1) + seq!['\'']);
        s
    }
}

} // verus!
