use gui_widgets::behavior::Behavior;
use gui_widgets::error::WidgetBaseError;
use gui_widgets::layout::Layout;
use gui_widgets::math::ValidVec2;
use gui_widgets::widget::builder::WidgetBuilder;
use gui_widgets::widget::id::WidgetId;
use gui_widgets::widget::widget_base::WidgetBase;

struct Clicker;
impl Behavior for Clicker {}

struct Stack;
impl Layout for Stack {}

fn id(n: usize) -> WidgetId {
    WidgetId::new(n)
}

#[test]
fn test() {
    let mut db = WidgetBase::new();
    let wb = WidgetBuilder::new()
        .with_size(ValidVec2::<true>::new(640f32.to_bits(), 480f32.to_bits()).unwrap());
    let root = db.insert(wb.try_clone().unwrap());
    assert_eq!(root.to_usize(), 1);
    let size = db.widget(root).unwrap().size();
    assert_eq!(size.get(), [640f32.to_bits(), 480f32.to_bits()]);
}

#[test]
fn identifiers_and_indices() {
    assert_eq!(WidgetId::from_index(0).to_usize(), 1);
    assert_eq!(WidgetId::from_index(4).to_index(), 4);
    assert_eq!(WidgetId::new(7).to_index(), 6);
    assert_eq!(WidgetId::try_from_usize(0), Err(WidgetBaseError::InvalidNonZeroUsize));
    assert_eq!(WidgetId::try_from_usize(3).unwrap().to_usize(), 3);
}

#[test]
fn slots_are_reused_lowest_first() {
    let mut base = WidgetBase::new();
    let ids: Vec<usize> = (0..3).map(|_| base.insert(WidgetBuilder::new()).to_usize()).collect();
    assert_eq!(ids, vec![1, 2, 3]);

    assert!(base.remove(id(2)).is_some());
    assert_eq!(base.slot_count(), 3);
    assert_eq!(base.insert(WidgetBuilder::new()).to_usize(), 2);

    let removed = base.remove(id(3)).unwrap();
    assert_eq!(removed.id().to_usize(), 3);
    assert_eq!(base.slot_count(), 2);
    assert_eq!(base.insert(WidgetBuilder::new()).to_usize(), 3);
    assert_eq!(base.slot_count(), 3);
}

#[test]
fn trailing_holes_are_dropped_with_the_last_slot() {
    let mut base = WidgetBase::new();
    for _ in 0..4 {
        base.insert(WidgetBuilder::new());
    }
    assert!(base.remove(id(2)).is_some());
    assert!(base.remove(id(3)).is_some());
    assert_eq!(base.slot_count(), 4);
    assert!(base.remove(id(4)).is_some());
    assert_eq!(base.slot_count(), 1);
    assert_eq!(base.insert(WidgetBuilder::new()).to_usize(), 2);
    assert_eq!(base.insert(WidgetBuilder::new()).to_usize(), 3);
    assert_eq!(base.slot_count(), 3);

    assert!(base.remove(id(1)).is_some());
    assert!(base.remove(id(2)).is_some());
    assert!(base.remove(id(3)).is_some());
    assert_eq!(base.slot_count(), 0);
    assert_eq!(base.insert(WidgetBuilder::new()).to_usize(), 1);
}

#[test]
fn removing_a_dead_identifier_gives_nothing() {
    let mut base = WidgetBase::new();
    assert!(base.remove(id(1)).is_none());
    base.insert(WidgetBuilder::new());
    base.insert(WidgetBuilder::new());
    assert!(base.remove(id(1)).is_some());
    assert!(base.remove(id(1)).is_none());
    assert!(base.remove(id(9)).is_none());
    assert_eq!(base.slot_count(), 2);
    assert!(base.widget(id(1)).is_none());
    assert!(base.widget(id(2)).is_some());
    assert!(base.widget(id(9)).is_none());
}

#[test]
fn insert_under_live_parent_links_both_ways() {
    let mut base = WidgetBase::new();
    let root = base.insert(WidgetBuilder::new());
    let a = base.insert(WidgetBuilder::new().with_parent_id(root));
    let b = base.insert(WidgetBuilder::new().with_parent_id(root));
    assert_eq!(base.widget(root).unwrap().child_indices(), &[a.to_index(), b.to_index()][..]);
    assert_eq!(base.widget(a).unwrap().parent_id(), Some(root));
    assert_eq!(base.widget(b).unwrap().parent_id(), Some(root));

    assert!(base.remove(a).is_some());
    assert_eq!(base.widget(root).unwrap().child_indices(), &[b.to_index()][..]);
    assert_eq!(base.widget(b).unwrap().parent_id(), Some(root));
}

#[test]
fn insert_under_dead_parent_drops_the_link() {
    let mut base = WidgetBase::new();
    let root = base.insert(WidgetBuilder::new());
    let orphan = base.insert(WidgetBuilder::new().with_parent_id(id(5)));
    assert_eq!(base.widget(orphan).unwrap().parent_id(), None);
    assert!(base.widget(root).unwrap().child_indices().is_empty());
}

#[test]
fn removing_a_parent_leaves_children_linked_to_nothing() {
    let mut base = WidgetBase::new();
    let root = base.insert(WidgetBuilder::new());
    let mid = base.insert(WidgetBuilder::new().with_parent_id(root));
    let leaf = base.insert(WidgetBuilder::new().with_parent_id(mid));
    let removed = base.remove(mid).unwrap();
    assert_eq!(removed.child_indices(), &[leaf.to_index()][..]);
    assert!(base.widget(root).unwrap().child_indices().is_empty());
    assert_eq!(base.widget(leaf).unwrap().parent_id(), Some(mid));
}

#[test]
fn set_parent_moves_a_widget() {
    let mut base = WidgetBase::new();
    let p1 = base.insert(WidgetBuilder::new());
    let p2 = base.insert(WidgetBuilder::new());
    let c = base.insert(WidgetBuilder::new().with_parent_id(p1));
    assert_eq!(base.set_parent(c, p2), Some(()));
    assert!(base.widget(p1).unwrap().child_indices().is_empty());
    assert_eq!(base.widget(p2).unwrap().child_indices(), &[c.to_index()][..]);
    assert_eq!(base.widget(c).unwrap().parent_id(), Some(p2));

    assert_eq!(base.set_parent(c, id(40)), Some(()));
    assert!(base.widget(p2).unwrap().child_indices().is_empty());
    assert_eq!(base.widget(c).unwrap().parent_id(), None);

    assert_eq!(base.set_parent(id(40), p1), None);
}

#[test]
fn batch_lookup_is_all_or_nothing() {
    let mut base = WidgetBase::new();
    let w1 = base.insert(WidgetBuilder::new());
    let w2 = base.insert(WidgetBuilder::new());
    let mut it = base.widgets_mut(&[w1, w2]).unwrap();
    assert_eq!(it.size_hint(), (2, Some(2)));
    assert_eq!(it.next(&mut base).unwrap().id(), w1);
    assert_eq!(it.next(&mut base).unwrap().id(), w2);
    assert!(it.next(&mut base).is_none());
    assert_eq!(it.size_hint(), (0, Some(0)));
    assert!(base.widgets_mut(&[w1, id(99)]).is_none());
    assert!(base.widgets_mut(&[]).unwrap().next(&mut base).is_none());
    assert_eq!(base.insert(WidgetBuilder::new()).to_usize(), 3);
}

#[test]
fn batch_lookup_allows_mutation() {
    let mut base = WidgetBase::new();
    base.insert(WidgetBuilder::new().with_behavior(Box::new(Clicker)));
    base.insert(WidgetBuilder::new().with_behavior(Box::new(Clicker)));
    let mut it = base.widgets_mut(&[id(2), id(2)]).unwrap();
    assert!(it.next(&mut base).unwrap().take_behavior().is_some());
    assert!(it.next(&mut base).unwrap().take_behavior().is_none());
    assert!(base.widget_mut(id(1)).unwrap().take_behavior().is_some());
    assert!(base.widget_mut(id(3)).is_none());
}

#[test]
fn lookups_return_the_named_widget() {
    let mut base = WidgetBase::new();
    for _ in 0..4 {
        base.insert(WidgetBuilder::new());
    }
    assert!(base.remove(id(2)).is_some());
    for n in [1, 3, 4] {
        assert_eq!(base.widget(id(n)).unwrap().id(), id(n));
        assert_eq!(base.widget_mut(id(n)).unwrap().id(), id(n));
    }
    assert_eq!(base.remove(id(3)).unwrap().id(), id(3));
    assert_eq!(base.slot_count(), 4);
}

#[test]
fn taking_a_capability_twice() {
    let mut base = WidgetBase::new();
    let w = base.insert(
        WidgetBuilder::new().with_behavior(Box::new(Clicker)).with_layout(Box::new(Stack)),
    );
    let widget = base.widget_mut(w).unwrap();
    let first = widget.take_behavior();
    assert!(first.is_some());
    assert_eq!(first.unwrap().debug(), "");
    assert!(widget.take_behavior().is_none());
    assert!(widget.take_layout().is_some());
    assert!(widget.take_layout().is_none());
}

#[test]
fn builder_settings_reach_the_record() {
    let size = ValidVec2::<true>::new(3.0f32.to_bits(), 4.0f32.to_bits()).unwrap();
    let pos = ValidVec2::<false>::new((-1.0f32).to_bits(), 2.0f32.to_bits()).unwrap();
    let mut base = WidgetBase::new();
    let w = base.insert(WidgetBuilder::new().with_size(size).with_position(pos));
    let widget = base.widget(w).unwrap();
    assert_eq!(widget.size(), size);
    assert_eq!(widget.position(), pos);
    assert_eq!(widget.id(), w);
}

#[test]
fn builder_clone_and_parent_edits() {
    let b = WidgetBuilder::new().with_parent_id(id(3));
    let c = b.try_clone().unwrap();
    assert_eq!(c.parent_id, Some(id(3)));
    let mut d = c.without_parent_id();
    assert_eq!(d.parent_id, None);
    d.set_parent_id(id(2));
    assert_eq!(d.parent_id, Some(id(2)));
    d.remove_parent_id();
    assert_eq!(d.parent_id, None);

    let with_b = WidgetBuilder::new().with_behavior(Box::new(Clicker));
    assert_eq!(with_b.try_clone().err(), Some(WidgetBaseError::TraitObjectCloning));
    assert!(with_b.without_behavior().try_clone().is_ok());
    let with_l = WidgetBuilder::new().with_layout(Box::new(Stack));
    assert_eq!(with_l.try_clone().err(), Some(WidgetBaseError::TraitObjectCloning));
    assert!(with_l.without_layout().try_clone().is_ok());
}

#[test]
fn default_builder_is_empty() {
    let b = WidgetBuilder::default();
    assert!(b.behavior.is_none() && b.layout.is_none() && b.parent_id.is_none());
    assert_eq!(b.size.get(), [0, 0]);
    assert_eq!(b.position.get(), [0, 0]);
}
