use vstd::prelude::*;

use crate::gc::Gc;
use crate::object::{Data, Object};
use crate::reach::{edge, holds, is_walk, lemma_push_contains, lemma_reach_root, lemma_reach_step, object_handles, reachable};

verus! {

/// Whether `g` refers to an object of the heap `h`.
pub open spec fn live_in(h: Seq<Option<Object>>, g: Gc) -> bool {
    g.ptr != 0 && g.ptr < h.len() && h[g.ptr as int] is Some
}

/// The object that `g` refers to in the heap `h`.
pub open spec fn object_in(h: Seq<Option<Object>>, g: Gc) -> Object {
    h[g.ptr as int].unwrap()
}

/// The size recorded for an object of kind `kind`: the size of that kind, or nothing
/// when `kind` does not refer to a kind.
pub open spec fn kind_size_in(h: Seq<Option<Object>>, kind: Gc) -> usize {
    if live_in(h, kind) {
        match object_in(h, kind).value {
            Data::Kind(k) => k.size,
            _ => 0,
        }
    } else {
        0
    }
}

/// Whether `h2` holds every object of `h` unchanged, and maybe more.
pub open spec fn extends(h: Seq<Option<Object>>, h2: Seq<Option<Object>>) -> bool {
    &&& h.len() <= h2.len()
    &&& forall|i: int| 0 <= i < h.len() ==> #[trigger] h2[i] == h[i]
}

/// Extending is transitive.
pub proof fn lemma_extends_trans(a: Seq<Option<Object>>, b: Seq<Option<Object>>, c: Seq<Option<Object>>)
    requires
        extends(a, b),
        extends(b, c),
    ensures
        extends(a, c),
{
    assert forall|i: int| 0 <= i < a.len() implies #[trigger] c[i] == a[i] by {
        assert(c[i] == b[i]);
    }
}

/// The object of a slot with its mark cleared.
pub open spec fn cleared(s: Option<Object>) -> Option<Object> {
    match s {
        Some(o) => Some(Object { marked: false, ..o }),
        None => None,
    }
}

/// Whether two heaps hold the same objects in the same slots, but for their marks.
pub open spec fn same_but_marks(a: Seq<Option<Object>>, b: Seq<Option<Object>>) -> bool {
    &&& a.len() == b.len()
    &&& forall|j: int| #![trigger a[j]] #![trigger b[j]] 0 <= j < a.len() ==> cleared(a[j]) == cleared(b[j])
}

/// Whether no object of the heap is marked, as between collections.
pub open spec fn no_marks(h: Seq<Option<Object>>) -> bool {
    forall|x: Gc| live_in(h, x) ==> !(#[trigger] object_in(h, x)).marked
}

/// Whether the object `g` outlives a collection from `root`: it is marked already, or
/// marking from `root` reaches it.
pub open spec fn survives(h: Seq<Option<Object>>, root: Gc, g: Gc) -> bool {
    object_in(h, g).marked || reachable(h, root, g)
}

/// The heap after a collection from `root`: each object that does not survive is freed,
/// each one that does is kept with its mark cleared, and the other slots stay as they are.
pub open spec fn collected(h: Seq<Option<Object>>, root: Gc) -> Seq<Option<Object>> {
    Seq::new(
        h.len(),
        |j: int|
            if live_in(h, Gc { ptr: j as usize }) {
                if survives(h, root, Gc { ptr: j as usize }) {
                    cleared(h[j])
                } else {
                    None
                }
            } else {
                h[j]
            },
    )
}

/// The size accounted for the objects in the first `n` slots that a collection from
/// `root` frees, added up as `usize` addition wraps.
pub open spec fn freed_size(h: Seq<Option<Object>>, root: Gc, n: int) -> usize
    decreases n,
{
    if n <= 0 {
        0
    } else {
        let g = Gc { ptr: (n - 1) as usize };
        if live_in(h, g) && !survives(h, root, g) {
            freed_size(h, root, n - 1).wrapping_add(kind_size_in(h, object_in(h, g).kind))
        } else {
            freed_size(h, root, n - 1)
        }
    }
}

/// The size of the objects in the first `n` slots of `h`: each object counts the size
/// of its kind.
pub open spec fn live_size(h: Seq<Option<Object>>, n: int) -> int
    decreases n,
{
    if n <= 0 {
        0
    } else {
        let g = Gc { ptr: (n - 1) as usize };
        live_size(h, n - 1) + if live_in(h, g) {
            kind_size_in(h, object_in(h, g).kind) as int
        } else {
            0
        }
    }
}

/// Whether `size` is the size that the heap `h` accounts for its objects: past its null
/// slot, with no object marked and each object's kind in a slot of the heap, `size` is
/// the sum of the sizes of the objects' kinds.
pub open spec fn size_accounted(h: Seq<Option<Object>>, size: usize) -> bool {
    &&& 0 < h.len() <= usize::MAX
    &&& no_marks(h)
    &&& forall|x: Gc| live_in(h, x) ==> (#[trigger] object_in(h, x)).kind.ptr < h.len()
    &&& size as int == live_size(h, h.len() as int)
}

/// The number of slots holding an unmarked object.
pub open spec fn unmarked_count(h: Seq<Option<Object>>) -> nat
    decreases h.len(),
{
    if h.len() == 0 {
        0
    } else {
        unmarked_count(h.drop_last()) + if h.last() is Some && !h.last().unwrap().marked {
            1nat
        } else {
            0nat
        }
    }
}

/// Marking one unmarked object leaves one unmarked object fewer.
proof fn lemma_mark_one(h: Seq<Option<Object>>, j: int, o: Object)
    requires
        0 <= j < h.len(),
        h[j] == Some(o),
        !o.marked,
    ensures
        unmarked_count(h.update(j, Some(Object { marked: true, ..o }))) + 1 == unmarked_count(h),
    decreases h.len(),
{
    let h2 = h.update(j, Some(Object { marked: true, ..o }));
    if j == h.len() - 1 {
        assert(h2.drop_last() =~= h.drop_last());
    } else {
        lemma_mark_one(h.drop_last(), j, o);
        assert(h2.drop_last() =~= h.drop_last().update(j, Some(Object { marked: true, ..o })));
    }
}

/// Heaps equal but for marks hold the same objects, of the same kinds.
proof fn lemma_same_but_marks(a: Seq<Option<Object>>, b: Seq<Option<Object>>, g: Gc)
    requires
        same_but_marks(a, b),
    ensures
        live_in(a, g) <==> live_in(b, g),
        live_in(a, g) ==> object_in(a, g).kind == object_in(b, g).kind && object_in(a, g).value
            == object_in(b, g).value && object_in(a, g).meta == object_in(b, g).meta,
        kind_size_in(a, g) == kind_size_in(b, g),
{
    if g.ptr < a.len() {
        assert(cleared(a[g.ptr as int]) == cleared(b[g.ptr as int]));
    }
}

/// Along a walk of marking, every object is marked when the marks are closed under
/// marking and the root is marked.
proof fn lemma_walk_marked(h0: Seq<Option<Object>>, h: Seq<Option<Object>>, root: Gc, path: Seq<Gc>, i: int)
    requires
        is_walk(h0, root, path),
        0 <= i < path.len(),
        object_in(h, root).marked,
        forall|a: Gc, c: Gc| object_in(h, a).marked && #[trigger] edge(h0, a, c) ==> object_in(h, c).marked,
    ensures
        object_in(h, path[i]).marked,
    decreases i,
{
    if i > 0 {
        lemma_walk_marked(h0, h, root, path, i - 1);
        assert(edge(h0, path[i - 1], path[(i - 1) + 1]));
    }
}

/// The heap: every object of the runtime, addressed by its handle. Slot 0 stays empty,
/// so that the null handle refers to nothing.
pub struct GcAllocator {
    pub(crate) size: usize,
    pub(crate) max_size: usize,
    pub(crate) values: Vec<Option<Object>>,
}

impl View for GcAllocator {
    type V = Seq<Option<Object>>;

    closed spec fn view(&self) -> Seq<Option<Object>> {
        self.values@
    }
}

impl GcAllocator {
    /// The size accounted for the objects allocated and not collected.
    pub closed spec fn spec_size(&self) -> usize {
        self.size
    }

    /// The size over which `alloc` collects.
    pub closed spec fn spec_max_size(&self) -> usize {
        self.max_size
    }

    /// Whether the size the heap accounts is the size of its objects (see
    /// `size_accounted`).
    pub open spec fn accounted(&self) -> bool {
        size_accounted(self@, self.spec_size())
    }

    /// An empty heap.
    pub fn new() -> (r: GcAllocator)
        ensures
            r@ == seq![None::<Object>],
            r.spec_size() == 0,
            r.spec_max_size() == 1024 * 1024,
            r.accounted(),
    {
        let mut values: Vec<Option<Object>> = Vec::new();
        values.push(None);
        let r = GcAllocator { size: 0, max_size: 1024 * 1024, values };
        assert(live_size(r@, 1) == live_size(r@, 0));
        r
    }

    /// The number of slots, taken or freed, including the null slot.
    pub fn len(&self) -> (n: usize)
        ensures
            n == self@.len(),
    {
        self.values.len()
    }

    /// A heap has no more slots than a `usize` counts.
    pub proof fn lemma_len_fits(&self)
        ensures
            self@.len() <= usize::MAX,
    {
        assert(self.values@.len() == self.values.len());
    }

    /// The size accounted for the objects allocated and not collected.
    pub fn size(&self) -> (s: usize)
        ensures
            s == self.spec_size(),
    {
        self.size
    }

    /// The size over which allocating collects.
    pub fn max_size(&self) -> (s: usize)
        ensures
            s == self.spec_max_size(),
    {
        self.max_size
    }

    /// Whether `g` refers to an object.
    pub fn is_live(&self, g: Gc) -> (b: bool)
        ensures
            b == live_in(self@, g),
    {
        g.ptr != 0 && g.ptr < self.values.len() && self.values[g.ptr].is_some()
    }

    /// The object that `g` refers to.
    pub fn get(&self, g: Gc) -> (r: Option<&Object>)
        ensures
            r is Some <==> live_in(self@, g),
            r matches Some(o) ==> *o == object_in(self@, g),
    {
        if g.ptr != 0 && g.ptr < self.values.len() {
            match &self.values[g.ptr] {
                Some(o) => Some(o),
                None => None,
            }
        } else {
            None
        }
    }

    /// The contents of the object that `g` refers to.
    pub fn data(&self, g: Gc) -> (r: Option<&Data>)
        ensures
            r is Some <==> live_in(self@, g),
            r matches Some(d) ==> *d == object_in(self@, g).value,
    {
        match self.get(g) {
            Some(o) => Some(&o.value),
            None => None,
        }
    }

    /// The size of the kind that `kind` refers to, or 0.
    pub fn kind_size(&self, kind: Gc) -> (s: usize)
        ensures
            s == kind_size_in(self@, kind),
    {
        match self.data(kind) {
            Some(Data::Kind(k)) => k.size,
            _ => 0,
        }
    }

    /// Places `object` in a new slot, without collecting.
    pub fn unsafe_alloc(&mut self, object: Object) -> (g: Gc)
        ensures
            final(self)@ == old(self)@.push(Some(object)),
            g.ptr == old(self)@.len(),
            final(self).spec_max_size() == old(self).spec_max_size(),
            final(self).spec_size() == old(self).spec_size().wrapping_add(kind_size_in(final(self)@, object.kind)),
            old(self).accounted() && !object.marked && object.kind.ptr <= old(self)@.len() && old(self).spec_size()
                + kind_size_in(final(self)@, object.kind) <= usize::MAX ==> final(self).accounted(),
    {
        let ghost h0 = self@;
        let ghost size0 = self.size;
        let ghost o = object;
        let kind = object.kind;
        let g = Gc { ptr: self.values.len() };
        self.values.push(Some(object));
        let s = self.kind_size(kind);
        self.size = self.size.wrapping_add(s);
        proof {
            assert(self.values@.len() == self.values.len());
            if size_accounted(h0, size0) && !o.marked && o.kind.ptr <= h0.len() && size0 + s <= usize::MAX {
                lemma_push_size(h0, o, size0);
                assert forall|x: Gc| live_in(self@, x) implies !(#[trigger] object_in(self@, x)).marked
                    && object_in(self@, x).kind.ptr < self@.len() by {
                    if x.ptr < h0.len() {
                        assert(object_in(self@, x) == object_in(h0, x));
                    }
                }
            }
        }
        g
    }

    /// Replaces the contents of the object that `g` refers to; nothing happens when
    /// `g` refers to no object.
    pub fn set_value(&mut self, g: Gc, value: Data)
        ensures
            live_in(old(self)@, g) ==> final(self)@ == old(self)@.update(
                g.ptr as int,
                Some(Object { value, ..object_in(old(self)@, g) }),
            ),
            !live_in(old(self)@, g) ==> final(self)@ == old(self)@,
            final(self).spec_size() == old(self).spec_size(),
            final(self).spec_max_size() == old(self).spec_max_size(),
            old(self).accounted() && !(value is Kind) && (live_in(old(self)@, g) ==> !(object_in(old(self)@, g).value is Kind))
                ==> final(self).accounted(),
    {
        let ghost h0 = self@;
        let ghost v = value;
        if g.ptr != 0 && g.ptr < self.values.len() {
            let slot = self.values[g.ptr].take();
            match slot {
                Some(o) => {
                    let new_object = Object { marked: o.marked, kind: o.kind, meta: o.meta, value };
                    self.values.set(g.ptr, Some(new_object));
                },
                None => {},
            }
        }
        proof {
            if live_in(h0, g) && size_accounted(h0, self.size) && !(v is Kind) && !(object_in(h0, g).value is Kind) {
                lemma_value_update_size(h0, g, v, h0.len() as int);
                assert(self@ == h0.update(g.ptr as int, Some(Object { value: v, ..object_in(h0, g) })));
                assert forall|x: Gc| live_in(self@, x) implies !(#[trigger] object_in(self@, x)).marked
                    && object_in(self@, x).kind.ptr < self@.len() by {
                    if x.ptr != g.ptr {
                        assert(object_in(self@, x) == object_in(h0, x));
                    }
                }
            }
        }
    }

    /// Whether `g` refers to a marked object.
    fn marked_at(&self, g: Gc) -> (b: bool)
        ensures
            b == (live_in(self@, g) && object_in(self@, g).marked),
    {
        if g.ptr != 0 && g.ptr < self.values.len() {
            match &self.values[g.ptr] {
                Some(o) => o.marked,
                None => false,
            }
        } else {
            false
        }
    }

    /// Sets the mark of the object that `g` refers to.
    fn set_mark(&mut self, g: Gc, marked: bool)
        requires
            live_in(old(self)@, g),
        ensures
            final(self)@ == old(self)@.update(g.ptr as int, Some(Object { marked, ..object_in(old(self)@, g) })),
            final(self).size == old(self).size,
            final(self).max_size == old(self).max_size,
    {
        let slot = self.values[g.ptr].take();
        match slot {
            Some(o) => {
                self.values.set(g.ptr, Some(Object { marked, kind: o.kind, meta: o.meta, value: o.value }));
            },
            None => {},
        }
    }

    /// Marks every object that marking from `root` reaches.
    fn mark_from(&mut self, root: Gc)
        ensures
            same_but_marks(old(self)@, final(self)@),
            forall|j: int| 0 <= j < old(self)@.len() && !live_in(old(self)@, Gc { ptr: j as usize })
                ==> final(self)@[j] == old(self)@[j],
            forall|g: Gc| live_in(old(self)@, g) ==> (#[trigger] object_in(final(self)@, g).marked
                <==> survives(old(self)@, root, g)),
            final(self).size == old(self).size,
            final(self).max_size == old(self).max_size,
    {
        let ghost h0 = self@;
        let mut work: Vec<Gc> = Vec::new();
        if self.is_live(root) && !self.marked_at(root) {
            proof {
                lemma_reach_root(h0, root);
            }
            self.set_mark(root, true);
            work.push(root);
            proof {
                assert forall|j: int| #![trigger h0[j]] #![trigger self@[j]] 0 <= j < h0.len() implies cleared(h0[j]) == cleared(self@[j]) by {}
                assert forall|g: Gc| g != root && live_in(h0, g) implies #[trigger] object_in(self@, g) == object_in(h0, g) by {
                    assert(self@[g.ptr as int] == h0[g.ptr as int]);
                }
                assert forall|a: Gc, c: Gc| object_in(self@, a).marked && !work@.contains(a) && #[trigger] edge(h0, a, c)
                    implies object_in(self@, c).marked by {
                    if a == root {
                        assert(work@[0] == root);
                    } else {
                        assert(object_in(self@, a) == object_in(h0, a));
                    }
                }
            }
        } else {
            proof {
                if live_in(h0, root) {
                    lemma_reach_root(h0, root);
                }
            }
        }
        while work.len() > 0
            invariant
                same_but_marks(h0, self@),
                forall|j: int| 0 <= j < h0.len() && !live_in(h0, Gc { ptr: j as usize }) ==> self@[j] == h0[j],
                forall|g: Gc| live_in(h0, g) && object_in(h0, g).marked ==> #[trigger] object_in(self@, g).marked,
                forall|g: Gc| live_in(h0, g) && #[trigger] object_in(self@, g).marked ==> survives(h0, root, g),
                forall|i: int| 0 <= i < work@.len() ==> live_in(h0, #[trigger] work@[i]) && object_in(self@, work@[i]).marked
                    && !object_in(h0, work@[i]).marked,
                forall|a: Gc, c: Gc| object_in(self@, a).marked && !work@.contains(a) && #[trigger] edge(h0, a, c)
                    ==> object_in(self@, c).marked,
                live_in(h0, root) ==> object_in(self@, root).marked,
                self.size == old(self).size,
                self.max_size == old(self).max_size,
                h0 == old(self)@,
            decreases unmarked_count(self@), work@.len(),
        {
            let ghost work_before = work@;
            let p = match work.pop() {
                Some(p) => p,
                None => {
                    return;
                },
            };
            proof {
                assert(work_before == work@.push(p));
                assert(work_before[work_before.len() - 1] == p);
                assert forall|a: Gc| a != p && !work@.contains(a) implies !work_before.contains(a) by {
                    lemma_push_contains(work@, p, a);
                }
                lemma_same_but_marks(h0, self@, p);
            }
            let handles = match self.get(p) {
                Some(o) => object_handles(o),
                None => Vec::new(),
            };
            let ghost count0 = unmarked_count(self@);
            let ghost len0 = work@.len();
            let mut k: usize = 0;
            while k < handles.len()
                invariant
                    k <= handles@.len(),
                    forall|c: Gc| #[trigger] handles@.contains(c) <==> holds(object_in(h0, p), c),
                    live_in(h0, p),
                    !object_in(h0, p).marked,
                    object_in(self@, p).marked,
                    same_but_marks(h0, self@),
                    forall|j: int| 0 <= j < h0.len() && !live_in(h0, Gc { ptr: j as usize }) ==> self@[j] == h0[j],
                    forall|g: Gc| live_in(h0, g) && object_in(h0, g).marked ==> #[trigger] object_in(self@, g).marked,
                    forall|g: Gc| live_in(h0, g) && #[trigger] object_in(self@, g).marked ==> survives(h0, root, g),
                    forall|i: int| 0 <= i < work@.len() ==> live_in(h0, #[trigger] work@[i]) && object_in(self@, work@[i]).marked
                        && !object_in(h0, work@[i]).marked,
                    forall|a: Gc, c: Gc| a != p && object_in(self@, a).marked && !work@.contains(a) && #[trigger] edge(h0, a, c)
                        ==> object_in(self@, c).marked,
                    forall|i: int| 0 <= i < k ==> live_in(h0, #[trigger] handles@[i]) ==> object_in(self@, handles@[i]).marked,
                    live_in(h0, root) ==> object_in(self@, root).marked,
                    work@.len() >= len0,
                    unmarked_count(self@) + (work@.len() - len0) == count0,
                    self.size == old(self).size,
                    self.max_size == old(self).max_size,
                    h0 == old(self)@,
                decreases handles@.len() - k,
            {
                let c = handles[k];
                proof {
                    assert(handles@.contains(c));
                }
                if self.is_live(c) && !self.marked_at(c) {
                    let ghost before = self@;
                    let ghost work_prev = work@;
                    proof {
                        lemma_same_but_marks(h0, self@, c);
                        assert(edge(h0, p, c));
                        assert(survives(h0, root, p));
                        lemma_reach_step(h0, root, p, c);
                        lemma_mark_one(self@, c.ptr as int, object_in(self@, c));
                    }
                    self.set_mark(c, true);
                    work.push(c);
                    proof {
                        assert forall|j: int| #![trigger h0[j]] #![trigger self@[j]] 0 <= j < h0.len() implies cleared(h0[j]) == cleared(self@[j]) by {
                            assert(cleared(h0[j]) == cleared(before[j]));
                        }
                        assert forall|g: Gc| g != c && live_in(h0, g) implies #[trigger] object_in(self@, g) == object_in(before, g) by {
                            assert(self@[g.ptr as int] == before[g.ptr as int]);
                        }
                        assert forall|a: Gc| !work@.contains(a) implies !work_prev.contains(a) && a != c by {
                            lemma_push_contains(work_prev, c, a);
                        }
                        assert(object_in(self@, c).marked);
                        assert forall|a: Gc, c2: Gc| a != p && object_in(self@, a).marked && !work@.contains(a) && #[trigger] edge(h0, a, c2)
                            implies object_in(self@, c2).marked by {
                            lemma_push_contains(work_prev, c, a);
                            assert(object_in(self@, a) == object_in(before, a));
                            assert(object_in(before, c2).marked);
                            if c2 != c {
                                assert(object_in(self@, c2) == object_in(before, c2));
                            }
                        }
                    }
                }
                k = k + 1;
            }
            proof {
                assert forall|c: Gc| #[trigger] edge(h0, p, c) implies object_in(self@, c).marked by {
                    assert(handles@.contains(c));
                    let i = choose|i: int| 0 <= i < handles@.len() && handles@[i] == c;
                    assert(live_in(h0, handles@[i]));
                }
            }
        }
        proof {
            assert forall|g: Gc| live_in(h0, g) implies (#[trigger] object_in(self@, g).marked <==> survives(h0, root, g)) by {
                if survives(h0, root, g) && !object_in(h0, g).marked {
                    let path = choose|path: Seq<Gc>| #[trigger] is_walk(h0, root, path) && path.last() == g;
                    lemma_walk_marked(h0, self@, root, path, path.len() - 1);
                }
            }
        }
    }

    /// Frees every object that does not survive a collection from `scope` and clears the
    /// marks of the others; returns the size accounted for the freed objects, which the
    /// size of the heap loses.
    pub fn collect(&mut self, scope: Gc) -> (freed: usize)
        ensures
            final(self)@ == collected(old(self)@, scope),
            freed == freed_size(old(self)@, scope, old(self)@.len() as int),
            final(self).spec_size() == old(self).spec_size().wrapping_sub(freed),
            final(self).spec_max_size() == old(self).spec_max_size(),
            old(self).accounted() ==> final(self).accounted() && freed <= old(self).spec_size(),
    {
        let ghost h0 = self@;
        proof {
            if size_accounted(h0, self.size) {
                lemma_collect_accounted(h0, scope, self.size);
            }
        }
        self.mark_from(scope);
        let ghost hm = self@;
        let mut total: usize = 0;
        let mut j: usize = 0;
        while j < self.values.len()
            invariant
                j <= hm.len(),
                self@ == hm,
                hm.len() == h0.len(),
                same_but_marks(h0, hm),
                forall|g: Gc| live_in(h0, g) ==> (#[trigger] object_in(hm, g).marked <==> survives(h0, scope, g)),
                total == freed_size(h0, scope, j as int),
            decreases hm.len() - j,
        {
            let g = Gc { ptr: j };
            proof {
                lemma_same_but_marks(h0, hm, g);
                let k = object_in(h0, g).kind;
                lemma_same_but_marks(h0, hm, k);
                assert((((j + 1) as int) - 1) as usize == j);
            }
            if self.is_live(g) && !self.marked_at(g) {
                let k = match self.get(g) {
                    Some(o) => o.kind,
                    None => g,
                };
                total = total.wrapping_add(self.kind_size(k));
            }
            j = j + 1;
        }
        let mut j: usize = 0;
        while j < self.values.len()
            invariant
                j <= hm.len(),
                self@.len() == hm.len(),
                hm.len() == h0.len(),
                same_but_marks(h0, hm),
                forall|i: int| 0 <= i < h0.len() && !live_in(h0, Gc { ptr: i as usize }) ==> hm[i] == h0[i],
                forall|g: Gc| live_in(h0, g) ==> (#[trigger] object_in(hm, g).marked <==> survives(h0, scope, g)),
                forall|i: int| 0 <= i < j ==> self@[i] == collected(h0, scope)[i],
                forall|i: int| j <= i < hm.len() ==> self@[i] == hm[i],
                self.size == old(self).size,
                self.max_size == old(self).max_size,
            decreases hm.len() - j,
        {
            let ghost before = self@;
            proof {
                lemma_same_but_marks(h0, hm, Gc { ptr: j });
                assert(cleared(h0[j as int]) == cleared(hm[j as int]));
            }
            if j != 0 {
                let slot = self.values[j].take();
                match slot {
                    Some(o) => {
                        if o.marked {
                            self.values.set(j, Some(Object { marked: false, kind: o.kind, meta: o.meta, value: o.value }));
                        }
                    },
                    None => {},
                }
            }
            proof {
                assert forall|i: int| 0 <= i < j + 1 implies self@[i] == collected(h0, scope)[i] by {
                    if i < j {
                        assert(self@[i] == before[i]);
                    }
                }
                assert forall|i: int| j + 1 <= i < hm.len() implies self@[i] == hm[i] by {
                    assert(self@[i] == before[i]);
                }
            }
            j = j + 1;
        }
        proof {
            assert(self@ =~= collected(h0, scope));
        }
        self.size = self.size.wrapping_sub(total);
        total
    }


    /// Places `object` in a new slot. When its size would take the heap over the limit,
    /// collects from `scope` first, so the new object is never freed by this call.
    pub fn allocate(&mut self, scope: Gc, object: Object) -> (g: Gc)
        ensures
            final(self).spec_max_size() == old(self).spec_max_size(),
            ({
                let grown = old(self).spec_size().wrapping_add(kind_size_in(old(self)@, object.kind));
                if grown > old(self).spec_max_size() {
                    let h1 = collected(old(self)@, scope);
                    &&& final(self)@ == h1.push(Some(object))
                    &&& g.ptr == h1.len()
                    &&& final(self).spec_size() == old(self).spec_size().wrapping_sub(
                        freed_size(old(self)@, scope, old(self)@.len() as int),
                    ).wrapping_add(kind_size_in(final(self)@, object.kind))
                } else {
                    &&& final(self)@ == old(self)@.push(Some(object))
                    &&& g.ptr == old(self)@.len()
                    &&& final(self).spec_size() == old(self).spec_size().wrapping_add(kind_size_in(final(self)@, object.kind))
                }
            }),
            old(self).accounted() && !object.marked && object.kind.ptr <= old(self)@.len() && old(self).spec_size()
                + kind_size_in(final(self)@, object.kind) <= usize::MAX ==> final(self).accounted(),
    {
        let s = self.kind_size(object.kind);
        if self.size.wrapping_add(s) > self.max_size {
            let _ = self.collect(scope);
        }
        self.unsafe_alloc(object)
    }

    /// Places a new object of kind `kind` holding `value`, as `allocate` does.
    pub fn alloc_object(&mut self, scope: Gc, kind: Gc, value: Data) -> (g: Gc)
        ensures
            final(self).spec_max_size() == old(self).spec_max_size(),
            ({
                let object = Object { marked: false, kind, meta: None, value };
                let grown = old(self).spec_size().wrapping_add(kind_size_in(old(self)@, kind));
                if grown > old(self).spec_max_size() {
                    let h1 = collected(old(self)@, scope);
                    &&& final(self)@ == h1.push(Some(object))
                    &&& g.ptr == h1.len()
                    &&& final(self).spec_size() == old(self).spec_size().wrapping_sub(
                        freed_size(old(self)@, scope, old(self)@.len() as int),
                    ).wrapping_add(kind_size_in(final(self)@, kind))
                } else {
                    &&& final(self)@ == old(self)@.push(Some(object))
                    &&& g.ptr == old(self)@.len()
                    &&& final(self).spec_size() == old(self).spec_size().wrapping_add(kind_size_in(final(self)@, kind))
                }
            }),
            old(self).accounted() && kind.ptr <= old(self)@.len() && old(self).spec_size() + kind_size_in(final(self)@, kind)
                <= usize::MAX ==> final(self).accounted(),
    {
        self.allocate(scope, Object::new(kind, value))
    }

}

/// A collection keeps exactly the objects that survive it: a handle refers to an object
/// after a collection from `root` if and only if it did before and that object was marked
/// or reached from `root`; a kept object keeps its kind, metadata and contents, unmarked.
pub proof fn lemma_collect_keeps_survivors(h: Seq<Option<Object>>, root: Gc, g: Gc)
    ensures
        live_in(collected(h, root), g) <==> live_in(h, g) && survives(h, root, g),
        live_in(collected(h, root), g) ==> object_in(collected(h, root), g) == (Object {
            marked: false,
            ..object_in(h, g)
        }),
{
    if g.ptr < h.len() {
        assert(Gc { ptr: g.ptr as int as usize } == g);
    }
}

/// Every handle on a walk of marking is reached from the root.
proof fn lemma_walk_reaches(h: Seq<Option<Object>>, root: Gc, path: Seq<Gc>, i: int)
    requires
        is_walk(h, root, path),
        0 <= i < path.len(),
    ensures
        reachable(h, root, path[i]),
    decreases i,
{
    if i == 0 {
        lemma_reach_root(h, root);
    } else {
        lemma_walk_reaches(h, root, path, i - 1);
        assert(edge(h, path[i - 1], path[(i - 1) + 1]));
        lemma_reach_step(h, root, path[i - 1], path[i]);
    }
}

/// When no object is marked, whatever marking reaches in a heap it still reaches after a
/// collection from the same root.
proof fn lemma_reach_kept(h: Seq<Option<Object>>, root: Gc, g: Gc)
    requires
        no_marks(h),
        reachable(h, root, g),
    ensures
        reachable(collected(h, root), root, g),
{
    let h1 = collected(h, root);
    let path = choose|path: Seq<Gc>| #[trigger] is_walk(h, root, path) && path.last() == g;
    assert forall|i: int| 0 <= i < path.len() - 1 implies #[trigger] edge(h1, path[i], path[i + 1]) by {
        assert(edge(h, path[i], path[i + 1]));
        lemma_walk_reaches(h, root, path, i);
        lemma_walk_reaches(h, root, path, i + 1);
        lemma_collect_keeps_survivors(h, root, path[i]);
        lemma_collect_keeps_survivors(h, root, path[i + 1]);
    }
    lemma_walk_reaches(h, root, path, 0);
    lemma_collect_keeps_survivors(h, root, root);
    assert(is_walk(h1, root, path));
}

/// No slot among the first `n` holds an object that a collection frees: nothing is
/// accounted as freed there.
proof fn lemma_nothing_freed(h: Seq<Option<Object>>, root: Gc, n: int)
    requires
        forall|x: Gc| live_in(h, x) ==> survives(h, root, x),
    ensures
        freed_size(h, root, n) == 0,
    decreases n,
{
    if n > 0 {
        lemma_nothing_freed(h, root, n - 1);
    }
}

/// Collecting twice from the same root, starting with no object marked, frees nothing
/// the second time: the second collection leaves the heap as the first left it.
pub proof fn lemma_collect_twice(h: Seq<Option<Object>>, root: Gc)
    requires
        no_marks(h),
    ensures
        collected(collected(h, root), root) == collected(h, root),
        freed_size(collected(h, root), root, h.len() as int) == 0,
{
    let h1 = collected(h, root);
    assert forall|x: Gc| live_in(h1, x) implies survives(h1, root, x) by {
        lemma_collect_keeps_survivors(h, root, x);
        lemma_reach_kept(h, root, x);
    }
    lemma_nothing_freed(h1, root, h.len() as int);
    assert forall|j: int| 0 <= j < h1.len() implies #[trigger] collected(h1, root)[j] == h1[j] by {
        let x = Gc { ptr: j as usize };
        lemma_collect_keeps_survivors(h, root, x);
        if live_in(h1, x) {
            assert(survives(h1, root, x));
        }
    }
    assert(collected(h1, root) =~= h1);
}

/// Over the first `n` slots, when no object is marked, what a collection frees is the
/// size of the objects there less the size of the objects it keeps there.
proof fn lemma_freed_prefix(h: Seq<Option<Object>>, root: Gc, n: int)
    requires
        no_marks(h),
        0 <= n <= h.len(),
        h.len() <= usize::MAX,
        live_size(h, n) <= usize::MAX,
    ensures
        0 <= live_size(collected(h, root), n) <= live_size(h, n),
        freed_size(h, root, n) as int == live_size(h, n) - live_size(collected(h, root), n),
    decreases n,
{
    if n > 0 {
        let h1 = collected(h, root);
        let g = Gc { ptr: (n - 1) as usize };
        let before = if live_in(h, g) { kind_size_in(h, object_in(h, g).kind) as int } else { 0 };
        assert(live_size(h, n) == live_size(h, n - 1) + before);
        lemma_freed_prefix(h, root, n - 1);
        lemma_collect_keeps_survivors(h, root, g);
        if live_in(h, g) && survives(h, root, g) {
            let k = object_in(h, g).kind;
            lemma_collect_keeps_survivors(h, root, k);
            if live_in(h, k) {
                assert(holds(object_in(h, g), k));
                assert(edge(h, g, k));
                lemma_reach_step(h, root, g, k);
            }
            assert(kind_size_in(h1, k) == kind_size_in(h, k));
        }
    }
}

/// A collection keeps the size that the heap accounts equal to the size of its objects:
/// when no object is marked and `size` is the sum of the sizes of the kinds of the
/// objects of `h`, a collection from `root` frees at most `size`, and what is left of
/// `size` is the same sum over the objects that the collection keeps.
pub proof fn lemma_collect_size(h: Seq<Option<Object>>, root: Gc, size: usize)
    requires
        no_marks(h),
        h.len() <= usize::MAX,
        size == live_size(h, h.len() as int),
    ensures
        freed_size(h, root, h.len() as int) <= size,
        size.wrapping_sub(freed_size(h, root, h.len() as int)) == live_size(collected(h, root), h.len() as int),
{
    lemma_freed_prefix(h, root, h.len() as int);
}

/// Over the first `n` slots, placing an object in a new slot changes nothing in the size
/// of the objects, when each of them has its kind in a slot of the heap.
proof fn lemma_push_prefix(h: Seq<Option<Object>>, o: Object, n: int)
    requires
        0 <= n <= h.len(),
        h.len() <= usize::MAX,
        forall|x: Gc| live_in(h, x) ==> (#[trigger] object_in(h, x)).kind.ptr < h.len(),
    ensures
        live_size(h.push(Some(o)), n) == live_size(h, n),
    decreases n,
{
    if n > 0 {
        let g = Gc { ptr: (n - 1) as usize };
        lemma_push_prefix(h, o, n - 1);
        if live_in(h, g) {
            let k = object_in(h, g).kind;
            assert(object_in(h.push(Some(o)), g) == object_in(h, g));
            assert(live_in(h.push(Some(o)), k) == live_in(h, k));
            if live_in(h, k) {
                assert(object_in(h.push(Some(o)), k) == object_in(h, k));
            }
        }
    }
}

/// Placing an object keeps the size that the heap accounts equal to the size of its
/// objects: when `size` is the sum of the sizes of the kinds of the objects of `h` (a
/// heap past its null slot), each object's kind is in a slot of `h`, and the sum does
/// not overflow, `size` grown by the size of the new object's kind, read in the heap
/// with the object placed (an object may be its own kind), is the sum over that heap.
pub proof fn lemma_push_size(h: Seq<Option<Object>>, o: Object, size: usize)
    requires
        0 < h.len() < usize::MAX,
        size == live_size(h, h.len() as int),
        forall|x: Gc| live_in(h, x) ==> (#[trigger] object_in(h, x)).kind.ptr < h.len(),
        size + kind_size_in(h.push(Some(o)), o.kind) <= usize::MAX,
    ensures
        size.wrapping_add(kind_size_in(h.push(Some(o)), o.kind)) == live_size(h.push(Some(o)), h.len() + 1int),
{
    let h2 = h.push(Some(o));
    lemma_push_prefix(h, o, h.len() as int);
    let g = Gc { ptr: h.len() as usize };
    assert(live_in(h2, g));
    assert(object_in(h2, g) == o);
    assert(live_size(h2, h.len() + 1int) == live_size(h2, h.len() as int) + kind_size_in(h2, o.kind));
}

/// A collection keeps the size the heap accounts equal to the size of its objects, and
/// frees no more than that size.
pub proof fn lemma_collect_accounted(h: Seq<Option<Object>>, root: Gc, size: usize)
    requires
        size_accounted(h, size),
    ensures
        freed_size(h, root, h.len() as int) <= size,
        size_accounted(collected(h, root), size.wrapping_sub(freed_size(h, root, h.len() as int))),
{
    let h1 = collected(h, root);
    lemma_collect_size(h, root, size);
    assert forall|x: Gc| live_in(h1, x) implies !(#[trigger] object_in(h1, x)).marked && object_in(h1, x).kind.ptr < h1.len() by {
        lemma_collect_keeps_survivors(h, root, x);
    }
}

/// Over the first `n` slots, giving an object that is no kind new contents that are no
/// kind changes nothing in the size of the objects.
proof fn lemma_value_update_size(h: Seq<Option<Object>>, g: Gc, v: Data, n: int)
    requires
        live_in(h, g),
        !(v is Kind),
        !(object_in(h, g).value is Kind),
        0 <= n <= h.len(),
        h.len() <= usize::MAX,
    ensures
        live_size(h.update(g.ptr as int, Some(Object { value: v, ..object_in(h, g) })), n) == live_size(h, n),
    decreases n,
{
    let h2 = h.update(g.ptr as int, Some(Object { value: v, ..object_in(h, g) }));
    if n > 0 {
        lemma_value_update_size(h, g, v, n - 1);
        let x = Gc { ptr: (n - 1) as usize };
        if live_in(h, x) {
            let k = object_in(h, x).kind;
            assert(object_in(h2, x).kind == k);
            assert(live_in(h2, k) == live_in(h, k));
            if live_in(h, k) && k.ptr != g.ptr {
                assert(object_in(h2, k) == object_in(h, k));
            }
            assert(kind_size_in(h2, k) == kind_size_in(h, k));
        }
    }
}

} // verus!
