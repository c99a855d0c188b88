use vstd::prelude::*;
use crate::widget::id::{WidgetId, lemma_id_view_injective};
use crate::widget::{Widget, WidgetView, lemma_without_keeps_others, without};

verus! {

/// Something that can materialize a widget record once it is given the
/// identifier that the arena picked for it.
pub trait BuildWidget: Sized {
    /// The record that `build_widget(id)` produces.
    spec fn built_view(&self, id: WidgetId) -> WidgetView;

    fn build_widget(self, id: WidgetId) -> (r: Widget)
        ensures
            r@ == self.built_view(id),
            r@.id == id,
            r@.children.len() == 0,
    ;
}

/// The record in a slot, as seen by contracts.
pub open spec fn view_of(o: Option<Widget>) -> Option<WidgetView> {
    match o {
        Some(w) => Some(w@),
        None => None,
    }
}

/// Slot `i` exists and holds a record.
pub open spec fn is_live(s: Seq<Option<WidgetView>>, i: int) -> bool {
    0 <= i < s.len() && s[i] is Some
}

/// `i` is the slot that the next insertion takes: the lowest vacant slot,
/// or one past the end when no slot is vacant.
pub open spec fn is_next_slot(s: Seq<Option<WidgetView>>, i: int) -> bool {
    &&& 0 <= i <= s.len()
    &&& i < s.len() ==> s[i] is None
    &&& forall|j: int| 0 <= j < i ==> s[j] is Some
}

/// Slot `i` (a new slot when `i` is one past the end) set to `w`.
pub open spec fn placed(s: Seq<Option<WidgetView>>, i: int, w: WidgetView) -> Seq<Option<WidgetView>> {
    if i == s.len() {
        s.push(Some(w))
    } else {
        s.update(i, Some(w))
    }
}

/// The record in slot `p` with `c` appended to its children.
pub open spec fn with_child(s: Seq<Option<WidgetView>>, p: int, c: usize) -> Seq<Option<WidgetView>> {
    s.update(p, Some(WidgetView { children: s[p]->Some_0.children.push(c), ..s[p]->Some_0 }))
}

/// The record in slot `p` with `c` taken out of its children.
pub open spec fn without_child(s: Seq<Option<WidgetView>>, p: int, c: usize) -> Seq<
    Option<WidgetView>,
> {
    s.update(p, Some(WidgetView { children: without(s[p]->Some_0.children, c), ..s[p]->Some_0 }))
}

/// The record in slot `i` with its parent link set to `parent`.
pub open spec fn with_parent(s: Seq<Option<WidgetView>>, i: int, parent: Option<WidgetId>) -> Seq<
    Option<WidgetView>,
> {
    s.update(i, Some(WidgetView { parent_id: parent, ..s[i]->Some_0 }))
}

/// `child` taken out of the child list of `parent`, when `parent` names a
/// live slot.
pub open spec fn unlinked(s: Seq<Option<WidgetView>>, parent: Option<WidgetId>, child: usize) -> Seq<
    Option<WidgetView>,
> {
    match parent {
        Some(p) => if is_live(s, p@ - 1) {
            without_child(s, p@ - 1, child)
        } else {
            s
        },
        None => s,
    }
}

/// Slot `i` taken out of the child list of its parent, when that parent is
/// live.
pub open spec fn detached(s: Seq<Option<WidgetView>>, i: int) -> Seq<Option<WidgetView>> {
    unlinked(s, s[i]->Some_0.parent_id, i as usize)
}

/// Slot `i` made a child of `parent` when `parent` names a live slot;
/// otherwise slot `i` is left without a parent.
pub open spec fn linked(s: Seq<Option<WidgetView>>, i: int, parent: Option<WidgetId>) -> Seq<
    Option<WidgetView>,
> {
    match parent {
        Some(p) => if is_live(s, p@ - 1) {
            with_parent(with_child(s, p@ - 1, i as usize), i, Some(p))
        } else {
            with_parent(s, i, None)
        },
        None => with_parent(s, i, None),
    }
}

/// The parent that an insertion links: the requested one, if it is live
/// before the insertion.
pub open spec fn live_parent(s: Seq<Option<WidgetView>>, parent: Option<WidgetId>) -> Option<
    WidgetId,
> {
    match parent {
        Some(p) => if is_live(s, p@ - 1) {
            Some(p)
        } else {
            None
        },
        None => None,
    }
}

/// `s` without its trailing vacant slots.
pub open spec fn trimmed(s: Seq<Option<WidgetView>>) -> Seq<Option<WidgetView>>
    decreases s.len(),
{
    if s.len() > 0 && s.last() is None {
        trimmed(s.drop_last())
    } else {
        s
    }
}

proof fn lemma_slots_update(ws: Seq<Option<Widget>>, i: int, o: Option<Widget>)
    requires
        0 <= i < ws.len(),
    ensures
        ws.update(i, o).map_values(|o: Option<Widget>| view_of(o)) == ws.map_values(
            |o: Option<Widget>| view_of(o),
        ).update(i, view_of(o)),
{
    assert(ws.update(i, o).map_values(|o: Option<Widget>| view_of(o)) =~= ws.map_values(
        |o: Option<Widget>| view_of(o),
    ).update(i, view_of(o)));
}

proof fn lemma_slots_push(ws: Seq<Option<Widget>>, o: Option<Widget>)
    ensures
        ws.push(o).map_values(|o: Option<Widget>| view_of(o)) == ws.map_values(
            |o: Option<Widget>| view_of(o),
        ).push(view_of(o)),
{
    assert(ws.push(o).map_values(|o: Option<Widget>| view_of(o)) =~= ws.map_values(
        |o: Option<Widget>| view_of(o),
    ).push(view_of(o)));
}

proof fn lemma_slots_pop(ws: Seq<Option<Widget>>)
    requires
        ws.len() > 0,
    ensures
        ws.drop_last().map_values(|o: Option<Widget>| view_of(o)) == ws.map_values(
            |o: Option<Widget>| view_of(o),
        ).drop_last(),
{
    assert(ws.drop_last().map_values(|o: Option<Widget>| view_of(o)) =~= ws.map_values(
        |o: Option<Widget>| view_of(o),
    ).drop_last());
}

/// Trimming keeps a prefix, and what it keeps is empty or ends in a record.
proof fn lemma_trimmed(s: Seq<Option<WidgetView>>)
    ensures
        trimmed(s).len() <= s.len(),
        forall|j: int| 0 <= j < trimmed(s).len() ==> trimmed(s)[j] == s[j],
        trimmed(s).len() > 0 ==> trimmed(s).last() is Some,
        forall|j: int| trimmed(s).len() <= j < s.len() ==> s[j] is None,
    decreases s.len(),
{
    if s.len() > 0 && s.last() is None {
        let t = s.drop_last();
        lemma_trimmed(t);
        assert(trimmed(s) == trimmed(t));
        assert forall|j: int| 0 <= j < trimmed(s).len() implies trimmed(s)[j] == s[j] by {
            assert(t[j] == s[j]);
        }
        assert forall|j: int| trimmed(s).len() <= j < s.len() implies s[j] is None by {
            if j < t.len() {
                assert(t[j] == s[j]);
            }
        }
    }
}

/// Inserting under a live parent links both ways: the parent's child list
/// gains the new slot, and the new record names that parent.
pub proof fn lemma_insert_links_parent(
    s: Seq<Option<WidgetView>>,
    i: int,
    built: WidgetView,
    p: WidgetId,
)
    requires
        is_next_slot(s, i),
        built.parent_id == Some(p),
        is_live(s, p@ - 1),
    ensures
        ({
            let t = linked(placed(s, i, built), i, live_parent(s, built.parent_id));
            &&& t[p@ - 1]->Some_0.children == s[p@ - 1]->Some_0.children.push(i as usize)
            &&& t[p@ - 1]->Some_0.children.contains(i as usize)
            &&& t[i]->Some_0.parent_id == Some(p)
        }),
{
    let t = linked(placed(s, i, built), i, live_parent(s, built.parent_id));
    assert(t[p@ - 1]->Some_0.children.last() == i as usize);
}

/// Removing a child of a live parent takes exactly that child out of the
/// parent's list: every other child stays listed, and the parent record is
/// otherwise unchanged.
pub proof fn lemma_remove_keeps_siblings(s: Seq<Option<WidgetView>>, i: usize, p: WidgetId)
    requires
        is_live(s, i as int),
        s[i as int]->Some_0.parent_id == Some(p),
        is_live(s, p@ - 1),
        p@ - 1 != i,
    ensures
        ({
            let t = trimmed(detached(s, i as int).update(i as int, None));
            let before = s[p@ - 1]->Some_0;
            &&& is_live(t, p@ - 1)
            &&& t[p@ - 1] == Some(WidgetView { children: without(before.children, i), ..before })
            &&& !t[p@ - 1]->Some_0.children.contains(i)
            &&& forall|c: usize|
                c != i ==> (#[trigger] t[p@ - 1]->Some_0.children.contains(c)
                    <==> before.children.contains(c))
        }),
{
    let u = detached(s, i as int).update(i as int, None);
    lemma_trimmed(u);
    let q = p@ - 1;
    assert(u[q] is Some);
    if trimmed(u).len() <= q {
        assert(u[q] is None);
    }
    assert(trimmed(u)[q] == u[q]);
    lemma_without_keeps_others(s[q]->Some_0.children, i);
}

/// Owns every widget record, assigns identifiers and keeps the parent and
/// child links.
///
/// Slot `i` holds the widget with identifier `i + 1`. A vacated slot in the
/// middle stays as a hole whose identifier is reissued, lowest first; the
/// table never ends in a hole.
pub struct WidgetBase {
    /// Indices of the vacant slots, ascending: insertion takes the first,
    /// and shrinking the table drops a tail of it.
    free_slots: Vec<usize>,
    widgets: Vec<Option<Widget>>,
}

impl WidgetBase {
    /// The slot table.
    pub closed spec fn slots(&self) -> Seq<Option<WidgetView>> {
        self.widgets@.map_values(|o: Option<Widget>| view_of(o))
    }

    /// Each record sits in the slot of its identifier, the table never ends
    /// in a vacant slot, and the reuse list holds, ascending, exactly the
    /// indices of the vacant slots.
    pub closed spec fn wf(&self) -> bool {
        let s = self.slots();
        let f = self.free_slots@;
        &&& forall|i: int| 0 <= i < s.len() && s[i] is Some ==> (#[trigger] s[i])->Some_0.id@ == i + 1
        &&& s.len() > 0 ==> s.last() is Some
        &&& forall|a: int, b: int| 0 <= a < b < f.len() ==> f[a] < f[b]
        &&& forall|k: int| 0 <= k < f.len() ==> f[k] < s.len() && s[f[k] as int] is None
        &&& forall|j: int| 0 <= j < s.len() && s[j] is None ==> f.contains(j as usize)
    }

    pub fn new() -> (r: Self)
        ensures
            r.wf(),
            r.slots().len() == 0,
    {
        let r = WidgetBase { free_slots: Vec::new(), widgets: Vec::new() };
        assert(r.slots() =~= Seq::<Option<WidgetView>>::empty());
        r
    }

    /// What a well-formed arena shows its callers: the record in slot `i`
    /// carries identifier `i + 1`, and the table never ends in a vacant slot.
    pub proof fn lemma_wf_shape(&self)
        requires
            self.wf(),
        ensures
            forall|i: int|
                0 <= i < self.slots().len() && self.slots()[i] is Some ==> (#[trigger] self.slots()[i])->Some_0.id@
                    == i + 1,
            self.slots().len() > 0 ==> self.slots().last() is Some,
    {
    }

    /// The number of slots in the table, vacant ones included.
    pub fn slot_count(&self) -> (r: usize)
        ensures
            r == self.slots().len(),
    {
        self.widgets.len()
    }

    /// Stores the record that `widget` builds under the lowest free
    /// identifier (a reused one when a slot is vacant, else one past the end
    /// of the table), and links it as a child of its requested parent when
    /// that parent is live; otherwise the record is stored without a parent.
    pub fn insert<B: BuildWidget>(&mut self, widget: B) -> (r: WidgetId)
        requires
            old(self).wf(),
            old(self).slots().len() < usize::MAX,
        ensures
            final(self).wf(),
            is_next_slot(old(self).slots(), r@ - 1),
            final(self).slots() == linked(
                placed(old(self).slots(), r@ - 1, widget.built_view(r)),
                r@ - 1,
                live_parent(old(self).slots(), widget.built_view(r).parent_id),
            ),
            final(self).slots()[r@ - 1]->Some_0.id == r,
            ({
                let p = widget.built_view(r).parent_id;
                p is Some && is_live(old(self).slots(), p->Some_0@ - 1) ==> {
                    &&& final(self).slots()[r@ - 1]->Some_0.parent_id == p
                    &&& final(self).slots()[p->Some_0@ - 1]->Some_0.children == old(
                        self,
                    ).slots()[p->Some_0@ - 1]->Some_0.children.push((r@ - 1) as usize)
                }
            }),
    {
        let ghost s0 = self.slots();
        let ghost f0 = self.free_slots@;
        let index: usize = if self.free_slots.len() > 0 {
            self.free_slots.remove(0)
        } else {
            self.widgets.len()
        };
        proof {
            assert forall|j: int| 0 <= j < index implies s0[j] is Some by {
                if s0[j] is None {
                    let k = f0.index_of(j as usize);
                    assert(f0[k] == j);
                    assert(f0[0] <= f0[k]);
                }
            }
        }
        let id = WidgetId::from_index(index);
        let mut w = widget.build_widget(id);
        let ghost b = w@;
        let mut has_parent = false;
        match w.parent_id() {
            Some(p) => {
                let pi = p.to_index();
                if pi < self.widgets.len() && self.widgets[pi].is_some() {
                    let ghost before = self.widgets@;
                    match &mut self.widgets[pi] {
                        Some(pw) => {
                            pw.push_child(index);
                            proof {
                                lemma_slots_update(before, pi as int, Some(*final(pw)));
                            }
                        },
                        None => {},
                    }
                    has_parent = true;
                }
            },
            None => {},
        }
        if !has_parent {
            w.set_parent_link(None);
        }
        let ghost before = self.widgets@;
        if index == self.widgets.len() {
            self.widgets.push(Some(w));
            proof {
                lemma_slots_push(before, Some(w));
            }
        } else {
            self.widgets.set(index, Some(w));
            proof {
                lemma_slots_update(before, index as int, Some(w));
            }
        }
        proof {
            let i = index as int;
            let target = linked(placed(s0, i, b), i, live_parent(s0, b.parent_id));
            assert(self.slots() =~= target);
            if let Some(p) = b.parent_id {
                if is_live(s0, p@ - 1) {
                    lemma_insert_links_parent(s0, i, b, p);
                }
            }
            let s = self.slots();
            let f = self.free_slots@;
            assert forall|j: int| 0 <= j < s.len() && s[j] is None implies f.contains(j as usize) by {
                assert(j != i);
                assert(s0[j] is None);
                let k = f0.index_of(j as usize);
                assert(k != 0);
                assert(f[k - 1] == j);
            }
        }
        id
    }

    /// Takes `child` out of the child list of `parent`, if that is live.
    fn unlink_child(&mut self, parent: Option<WidgetId>, child: usize)
        ensures
            final(self).slots() == unlinked(old(self).slots(), parent, child),
            final(self).free_slots == old(self).free_slots,
            final(self).widgets.len() == old(self).widgets.len(),
    {
        if let Some(p) = parent {
            let pi = p.to_index();
            if pi < self.widgets.len() && self.widgets[pi].is_some() {
                let ghost before = self.widgets@;
                match &mut self.widgets[pi] {
                    Some(pw) => {
                        pw.remove_child(child);
                        proof {
                            lemma_slots_update(before, pi as int, Some(*final(pw)));
                        }
                    },
                    None => {},
                }
                assert(self.slots() =~= unlinked(old(self).slots(), parent, child));
            }
        }
    }

    /// Takes the widget named by `id` out of the arena, and out of the child
    /// list of its parent when that parent is live. Its own children keep
    /// their parent link.
    ///
    /// A slot in the middle becomes a hole whose identifier is reissued
    /// later; when the last slot is removed, the table also drops the holes
    /// that it then ends in, and their identifiers are no longer reissued.
    #[verifier::rlimit(40)]
    pub fn remove(&mut self, id: WidgetId) -> (r: Option<Widget>)
        requires
            old(self).wf(),
        ensures
            final(self).wf(),
            r is Some <==> is_live(old(self).slots(), id@ - 1),
            r matches Some(w) ==> {
                &&& old(self).slots()[id@ - 1] == Some(w@)
                &&& w@.id == id
                &&& final(self).slots() == trimmed(
                    detached(old(self).slots(), id@ - 1).update(id@ - 1, None),
                )
            },
            r is None ==> *final(self) == *old(self),
            id@ < old(self).slots().len() ==> final(self).slots().len() == old(self).slots().len(),
    {
        let index = id.to_index();
        if index >= self.widgets.len() || self.widgets[index].is_none() {
            return None;
        }
        let ghost s0 = self.slots();
        let ghost f0 = self.free_slots@;
        proof {
            lemma_id_view_injective(s0[index as int]->Some_0.id, id);
        }
        let ghost before = self.widgets@;
        let taken = self.widgets[index].take();
        proof {
            assert(self.widgets@ =~= before.update(index as int, None));
            lemma_slots_update(before, index as int, None);
            assert(self.slots() =~= s0.update(index as int, None));
        }
        let w = match taken {
            Some(w) => w,
            None => {
                proof {
                    assert(false);
                }
                return None;
            },
        };
        self.unlink_child(w.parent_id(), index);
        let ghost target = detached(s0, index as int).update(index as int, None);
        proof {
            assert(self.slots() =~= target);
            assert forall|j: int| 0 <= j < target.len() && target[j] is Some implies (
            #[trigger] target[j])->Some_0.id@ == j + 1 by {
                assert(detached(s0, index as int)[j] is Some);
                assert(s0[j] is Some);
            }
        }
        if index == self.widgets.len() - 1 {
            assert(target.len() == s0.len());
            assert(index == target.len() - 1);
            while self.widgets.len() > 0 && self.widgets[self.widgets.len() - 1].is_none()
                invariant
                    trimmed(self.slots()) == trimmed(target),
                    self.free_slots@ == f0,
                decreases self.widgets.len(),
            {
                let ghost before = self.widgets@;
                self.widgets.pop();
                proof {
                    lemma_slots_pop(before);
                }
            }
            proof {
                lemma_trimmed(target);
                assert(trimmed(self.slots()) == self.slots());
                assert(self.slots() == trimmed(target));
            }
            let new_len = self.widgets.len();
            while self.free_slots.len() > 0 && self.free_slots[self.free_slots.len() - 1] >= new_len
                invariant
                    self.slots() == trimmed(target),
                    new_len == self.slots().len(),
                    self.free_slots.len() <= f0.len(),
                    self.free_slots@ == f0.take(self.free_slots.len() as int),
                    forall|k: int| self.free_slots.len() <= k < f0.len() ==> f0[k] >= new_len,
                decreases self.free_slots.len(),
            {
                self.free_slots.pop();
            }
            proof {
                let s = self.slots();
                let f = self.free_slots@;
                let i = index as int;
                assert(target.last() is None);
                assert(trimmed(target) == trimmed(target.drop_last()));
                lemma_trimmed(target.drop_last());
                assert(s == trimmed(target));
                lemma_trimmed(target);
                assert forall|j: int| 0 <= j < s.len() && s[j] is Some implies (#[trigger] s[j])->Some_0.id@
                    == j + 1 by {
                    assert(s[j] == target[j]);
                }
                assert(target.drop_last().len() == i);
                assert(s.len() <= i);
                assert forall|j: int| 0 <= j < s0.len() implies (target[j] is None <==> (j == i
                    || s0[j] is None)) by {
                    assert(detached(s0, i)[j] is Some <==> s0[j] is Some);
                }
                assert forall|k: int| 0 <= k < f.len() implies f[k] < s.len() && s[f[k] as int] is None by {
                    if k < f.len() - 1 {
                        assert(f0[k] < f0[f.len() - 1]);
                    }
                    assert(f[k] == f0[k]);
                    assert(s0[f0[k] as int] is None);
                    assert(target[f0[k] as int] is None);
                }
                assert forall|j: int| 0 <= j < s.len() && s[j] is None implies f.contains(j as usize) by {
                    assert(target[j] is None);
                    assert(s0[j] is None);
                    assert(f0.contains(j as usize));
                    let k = f0.index_of(j as usize);
                    if k >= f.len() {
                        assert(f0[k] >= new_len);
                    }
                    assert(f[k] == j);
                }
            }
        } else {
            let mut k: usize = 0;
            while k < self.free_slots.len() && self.free_slots[k] < index
                invariant
                    k <= self.free_slots.len(),
                    self.free_slots@ == f0,
                    forall|j: int| 0 <= j < k ==> f0[j] < index,
                decreases self.free_slots.len() - k,
            {
                k = k + 1;
            }
            self.free_slots.insert(k, index);
            proof {
                let s = self.slots();
                let f = self.free_slots@;
                assert(s =~= target);
                assert forall|a: int, b: int| 0 <= a < b < f.len() implies f[a] < f[b] by {
                    if b == k && a < k {
                    } else if a == k && k < f0.len() {
                        assert(f0[k as int] != index);
                    }
                }
                assert forall|j: int| 0 <= j < s.len() && s[j] is None implies f.contains(j as usize) by {
                    if j == index {
                        assert(f[k as int] == j);
                    } else {
                        let q = f0.index_of(j as usize);
                        if q < k {
                            assert(f[q] == j);
                        } else {
                            assert(f[q + 1] == j);
                        }
                    }
                }
            }
        }
        Some(w)
    }

    /// Makes the widget named by `id` a child of `new_parent`: it leaves the
    /// child list of its former parent (when that is live) and joins that of
    /// `new_parent` (when that is live; otherwise it is left without a
    /// parent). Fails when `id` does not name a live widget. Cycles are not
    /// prevented.
    pub fn set_parent(&mut self, id: WidgetId, new_parent: WidgetId) -> (r: Option<()>)
        requires
            old(self).wf(),
        ensures
            final(self).wf(),
            r is Some <==> is_live(old(self).slots(), id@ - 1),
            r is Some ==> final(self).slots() == linked(
                detached(old(self).slots(), id@ - 1),
                id@ - 1,
                Some(new_parent),
            ),
            r is None ==> *final(self) == *old(self),
    {
        let index = id.to_index();
        if index >= self.widgets.len() || self.widgets[index].is_none() {
            return None;
        }
        let previous = match &self.widgets[index] {
            Some(w) => w.parent_id(),
            None => None,
        };
        self.unlink_child(previous, index);
        let ghost s1 = self.slots();
        let pi = new_parent.to_index();
        let parent_live = pi < self.widgets.len() && self.widgets[pi].is_some();
        if parent_live {
            let ghost before = self.widgets@;
            match &mut self.widgets[pi] {
                Some(pw) => {
                    pw.push_child(index);
                    proof {
                        lemma_slots_update(before, pi as int, Some(*final(pw)));
                    }
                },
                None => {},
            }
        }
        let ghost before = self.widgets@;
        match &mut self.widgets[index] {
            Some(w) => {
                w.set_parent_link(
                    if parent_live {
                        Some(new_parent)
                    } else {
                        None
                    },
                );
                proof {
                    lemma_slots_update(before, index as int, Some(*final(w)));
                }
            },
            None => {},
        }
        proof {
            assert(self.slots() =~= linked(s1, index as int, Some(new_parent)));
        }
        Some(())
    }

    /// Mutable access to every widget named in `ids`, in that order, or
    /// nothing at all when one of them is not live.
    ///
    /// The result lists slots; [`WidgetsIterMut::next`] lends out one widget
    /// at a time, each borrow ending before the next one starts, so an
    /// identifier given twice never yields two live borrows of one widget.
    pub fn widgets_mut(&self, ids: &[WidgetId]) -> (r: Option<WidgetsIterMut>)
        requires
            self.wf(),
        ensures
            r is Some <==> forall|k: int|
                0 <= k < ids@.len() ==> is_live(self.slots(), #[trigger] ids@[k]@ - 1),
            r matches Some(it) ==> {
                &&& it.pending().len() == ids@.len()
                &&& forall|k: int| 0 <= k < ids@.len() ==> it.pending()[k] == #[trigger] ids@[k]@ - 1
            },
    {
        let mut indices: Vec<usize> = Vec::with_capacity(ids.len());
        let mut k: usize = 0;
        while k < ids.len()
            invariant
                k <= ids@.len(),
                indices@.len() == k,
                forall|j: int| 0 <= j < k ==> is_live(self.slots(), #[trigger] ids@[j]@ - 1),
                forall|j: int| 0 <= j < k ==> indices@[j] == #[trigger] ids@[j]@ - 1,
            decreases ids@.len() - k,
        {
            let index = ids[k].to_index();
            if index >= self.widgets.len() || self.widgets[index].is_none() {
                return None;
            }
            indices.push(index);
            k = k + 1;
        }
        let it = WidgetsIterMut { index: 0, indices };
        proof {
            assert(it.pending() =~= indices@);
        }
        Some(it)
    }

    /// The widget named by `id`, if it is live.
    pub fn widget(&self, id: WidgetId) -> (r: Option<&Widget>)
        requires
            self.wf(),
        ensures
            r is Some <==> is_live(self.slots(), id@ - 1),
            r matches Some(w) ==> self.slots()[id@ - 1] == Some(w@) && w@.id == id,
    {
        let index = id.to_index();
        if index < self.widgets.len() {
            match &self.widgets[index] {
                Some(w) => {
                    proof {
                        lemma_id_view_injective(w@.id, id);
                    }
                    Some(w)
                },
                None => None,
            }
        } else {
            None
        }
    }

    /// The widget named by `id`, if it is live, for mutation in place.
    pub fn widget_mut(&mut self, id: WidgetId) -> (r: Option<&mut Widget>)
        requires
            old(self).wf(),
        ensures
            r is Some <==> is_live(old(self).slots(), id@ - 1),
            r matches Some(w) ==> {
                &&& old(self).slots()[id@ - 1] == Some(w@)
                &&& w@.id == id
                &&& final(self).slots() == old(self).slots().update(id@ - 1, Some(final(w)@))
                &&& final(w)@.id == w@.id ==> final(self).wf()
            },
            r is None ==> *final(self) == *old(self),
    {
        let index = id.to_index();
        if index >= self.widgets.len() || self.widgets[index].is_none() {
            return None;
        }
        let ghost before = self.widgets@;
        match &mut self.widgets[index] {
            Some(w) => {
                proof {
                    lemma_slots_update(before, index as int, Some(*final(w)));
                    lemma_id_view_injective(w@.id, id);
                }
                Some(w)
            },
            None => None,
        }
    }
}

/// A list of live widgets to visit, one at a time, for mutation.
///
/// It holds slot indices, not borrows: each call of [`WidgetsIterMut::next`]
/// borrows the arena for as long as the widget it returns is in use.
pub struct WidgetsIterMut {
    index: usize,
    indices: Vec<usize>,
}

impl WidgetsIterMut {
    /// The slot indices still to be handed out, in order.
    pub closed spec fn pending(&self) -> Seq<usize> {
        if self.index <= self.indices@.len() {
            self.indices@.subrange(self.index as int, self.indices@.len() as int)
        } else {
            Seq::empty()
        }
    }

    /// The next widget of the list, taken from `base`, if any is left.
    pub fn next<'b>(&mut self, base: &'b mut WidgetBase) -> (r: Option<&'b mut Widget>)
        requires
            old(base).wf(),
            forall|k: int|
                0 <= k < old(self).pending().len() ==> is_live(
                    old(base).slots(),
                    #[trigger] old(self).pending()[k] as int,
                ),
        ensures
            r is Some <==> old(self).pending().len() > 0,
            r matches Some(w) ==> {
                let i = old(self).pending()[0] as int;
                &&& old(base).slots()[i] == Some(w@)
                &&& w@.id@ == i + 1
                &&& final(base).slots() == old(base).slots().update(i, Some(final(w)@))
                &&& final(w)@.id == w@.id ==> final(base).wf()
                &&& final(self).pending() == old(self).pending().drop_first()
            },
            r is None ==> *final(self) == *old(self) && *final(base) == *old(base),
    {
        if self.index >= self.indices.len() {
            return None;
        }
        let i = self.indices[self.index];
        proof {
            assert(old(self).pending()[0] == i);
            assert(is_live(old(base).slots(), old(self).pending()[0] as int));
        }
        if i >= base.widgets.len() || base.widgets[i].is_none() {
            return None;
        }
        self.index = self.index + 1;
        proof {
            assert(self.pending() =~= old(self).pending().drop_first());
        }
        let ghost before = base.widgets@;
        match &mut base.widgets[i] {
            Some(w) => {
                proof {
                    lemma_slots_update(before, i as int, Some(*final(w)));
                }
                Some(w)
            },
            None => None,
        }
    }

    /// How many widgets are left, as a lower and an upper bound.
    pub fn size_hint(&self) -> (r: (usize, Option<usize>))
        ensures
            r.0 == self.pending().len(),
            r.1 == Some(r.0),
    {
        let remain = if self.index <= self.indices.len() {
            self.indices.len() - self.index
        } else {
            0
        };
        (remain, Some(remain))
    }
}

} // verus!
