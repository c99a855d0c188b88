use vstd::prelude::*;
use crate::behavior::Behavior;
use crate::layout::Layout;
use crate::math::ValidVec2;
use id::WidgetId;

pub mod builder;
pub mod id;
pub mod widget_base;

verus! {

/// The abstract content of a widget record.
pub struct WidgetView {
    pub id: WidgetId,
    pub parent_id: Option<WidgetId>,
    /// Slot indices of the children, in the order they were linked.
    pub children: Seq<usize>,
    pub behavior: Option<Box<dyn Behavior>>,
    pub layout: Option<Box<dyn Layout>>,
    pub size: ValidVec2<true>,
    pub position: ValidVec2<false>,
}

/// `s` with every occurrence of `v` taken out, the rest in order.
pub open spec fn without(s: Seq<usize>, v: usize) -> Seq<usize>
    decreases s.len(),
{
    if s.len() == 0 {
        s
    } else {
        let rest = without(s.drop_last(), v);
        if s.last() == v {
            rest
        } else {
            rest.push(s.last())
        }
    }
}

proof fn lemma_push_contains(t: Seq<usize>, a: usize, x: usize)
    ensures
        t.push(a).contains(x) <==> (t.contains(x) || x == a),
{
    if t.contains(x) {
        let k = choose|k: int| 0 <= k < t.len() && t[k] == x;
        assert(t.push(a)[k] == x);
    }
    if x == a {
        assert(t.push(a)[t.len() as int] == x);
    }
    if t.push(a).contains(x) && x != a {
        let k = choose|k: int| 0 <= k < t.len() + 1 && t.push(a)[k] == x;
        assert(t[k] == x);
    }
}

/// Taking out one value leaves every other value where it was: each other
/// value is in the result exactly when it was in the input.
pub proof fn lemma_without_keeps_others(s: Seq<usize>, v: usize)
    ensures
        !without(s, v).contains(v),
        forall|x: usize| x != v ==> (#[trigger] without(s, v).contains(x) <==> s.contains(x)),
    decreases s.len(),
{
    if s.len() > 0 {
        let init = s.drop_last();
        let l = s.last();
        lemma_without_keeps_others(init, v);
        let rest = without(init, v);
        assert(s =~= init.push(l));
        assert forall|x: usize| x != v implies (without(s, v).contains(x) <==> s.contains(x)) by {
            lemma_push_contains(init, l, x);
            lemma_push_contains(rest, l, x);
            assert(rest.contains(x) <==> init.contains(x));
        }
        lemma_push_contains(rest, l, v);
    }
}

/// The record `v` with its behavior taken out.
pub open spec fn behavior_taken(v: WidgetView) -> WidgetView {
    WidgetView { behavior: None, ..v }
}

/// The record `v` with its layout taken out.
pub open spec fn layout_taken(v: WidgetView) -> WidgetView {
    WidgetView { layout: None, ..v }
}

/// Taking a capability out is idempotent: after the first take the slot is
/// empty, so a second take hands back nothing and changes nothing.
pub proof fn lemma_take_idempotent(v: WidgetView)
    ensures
        behavior_taken(v).behavior is None,
        behavior_taken(behavior_taken(v)) == behavior_taken(v),
        layout_taken(v).layout is None,
        layout_taken(layout_taken(v)) == layout_taken(v),
{
}

/// A widget record: identity, links into the hierarchy, geometry and two
/// capability objects that are stored but never called.
pub struct Widget {
    pub(crate) id: WidgetId,
    pub(crate) child_indices: Vec<usize>,
    pub(crate) parent_id: Option<WidgetId>,
    pub(crate) behavior: Option<Box<dyn Behavior>>,
    pub(crate) layout: Option<Box<dyn Layout>>,
    pub(crate) size: ValidVec2<true>,
    pub(crate) position: ValidVec2<false>,
}

impl View for Widget {
    type V = WidgetView;

    closed spec fn view(&self) -> WidgetView {
        WidgetView {
            id: self.id,
            parent_id: self.parent_id,
            children: self.child_indices@,
            behavior: self.behavior,
            layout: self.layout,
            size: self.size,
            position: self.position,
        }
    }
}

impl Widget {
    pub fn id(&self) -> (r: WidgetId)
        ensures
            r == self@.id,
    {
        self.id
    }

    pub fn parent_id(&self) -> (r: Option<WidgetId>)
        ensures
            r == self@.parent_id,
    {
        self.parent_id
    }

    /// The slot indices of this widget's children.
    pub fn child_indices(&self) -> (r: &[usize])
        ensures
            r@ == self@.children,
    {
        self.child_indices.as_slice()
    }

    pub fn position(&self) -> (r: ValidVec2<false>)
        ensures
            r == self@.position,
    {
        self.position
    }

    pub fn size(&self) -> (r: ValidVec2<true>)
        ensures
            r == self@.size,
    {
        self.size
    }

    /// Moves the behavior out, leaving the slot empty.
    pub fn take_behavior(&mut self) -> (r: Option<Box<dyn Behavior>>)
        ensures
            r == old(self)@.behavior,
            final(self)@ == behavior_taken(old(self)@),
    {
        self.behavior.take()
    }

    /// Moves the layout out, leaving the slot empty.
    pub fn take_layout(&mut self) -> (r: Option<Box<dyn Layout>>)
        ensures
            r == old(self)@.layout,
            final(self)@ == layout_taken(old(self)@),
    {
        self.layout.take()
    }

    pub(crate) fn push_child(&mut self, index: usize)
        ensures
            final(self)@ == (WidgetView { children: old(self)@.children.push(index), ..old(self)@ }),
    {
        self.child_indices.push(index);
    }

    pub(crate) fn remove_child(&mut self, index: usize)
        ensures
            final(self)@ == (WidgetView {
                children: without(old(self)@.children, index),
                ..old(self)@
            }),
    {
        let old_children = &self.child_indices;
        let mut kept: Vec<usize> = Vec::new();
        let mut k: usize = 0;
        while k < old_children.len()
            invariant
                k <= old_children.len(),
                kept@ == without(old_children@.take(k as int), index),
            decreases old_children.len() - k,
        {
            let c = old_children[k];
            assert(old_children@.take(k + 1).drop_last() =~= old_children@.take(k as int));
            if c != index {
                kept.push(c);
            }
            k = k + 1;
        }
        assert(old_children@.take(k as int) =~= old_children@);
        self.child_indices = kept;
    }

    pub(crate) fn set_parent_link(&mut self, parent: Option<WidgetId>)
        ensures
            final(self)@ == (WidgetView { parent_id: parent, ..old(self)@ }),
    {
        self.parent_id = parent;
    }
}

} // verus!
