use vstd::prelude::*;
use crate::behavior::Behavior;
use crate::error::WidgetBaseError;
use crate::layout::Layout;
use crate::math::ValidVec2;
use crate::widget::id::WidgetId;
use crate::widget::widget_base::BuildWidget;
use crate::widget::{Widget, WidgetView};

verus! {

/// The initial configuration of a widget; the arena turns it into a record
/// once it has picked an identifier.
pub struct WidgetBuilder {
    pub behavior: Option<Box<dyn Behavior>>,
    pub layout: Option<Box<dyn Layout>>,
    /// The parent asked for; the arena links it only if it is live.
    pub parent_id: Option<WidgetId>,
    pub size: ValidVec2<true>,
    pub position: ValidVec2<false>,
}

impl WidgetBuilder {
    /// No capabilities, no parent, zero size at the origin.
    pub fn new() -> (r: Self)
        ensures
            r.behavior is None,
            r.layout is None,
            r.parent_id is None,
            r.size.x@ == 0 && r.size.y@ == 0,
            r.position.x@ == 0 && r.position.y@ == 0,
    {
        WidgetBuilder {
            behavior: None,
            layout: None,
            parent_id: None,
            size: ValidVec2::zero(),
            position: ValidVec2::zero(),
        }
    }

    pub fn with_behavior(self, behavior: Box<dyn Behavior>) -> (r: Self)
        ensures
            r == (WidgetBuilder { behavior: Some(behavior), ..self }),
    {
        WidgetBuilder { behavior: Some(behavior), ..self }
    }

    pub fn with_layout(self, layout: Box<dyn Layout>) -> (r: Self)
        ensures
            r == (WidgetBuilder { layout: Some(layout), ..self }),
    {
        WidgetBuilder { layout: Some(layout), ..self }
    }

    pub fn with_parent_id(self, parent: WidgetId) -> (r: Self)
        ensures
            r == (WidgetBuilder { parent_id: Some(parent), ..self }),
    {
        WidgetBuilder { parent_id: Some(parent), ..self }
    }

    pub fn with_position(self, position: ValidVec2<false>) -> (r: Self)
        ensures
            r == (WidgetBuilder { position: position, ..self }),
    {
        WidgetBuilder { position, ..self }
    }

    pub fn with_size(self, size: ValidVec2<true>) -> (r: Self)
        ensures
            r == (WidgetBuilder { size: size, ..self }),
    {
        WidgetBuilder { size, ..self }
    }

    pub fn without_behavior(self) -> (r: Self)
        ensures
            r == (WidgetBuilder { behavior: None, ..self }),
    {
        WidgetBuilder { behavior: None, ..self }
    }

    pub fn without_layout(self) -> (r: Self)
        ensures
            r == (WidgetBuilder { layout: None, ..self }),
    {
        WidgetBuilder { layout: None, ..self }
    }

    pub fn without_parent_id(self) -> (r: Self)
        ensures
            r == (WidgetBuilder { parent_id: None, ..self }),
    {
        WidgetBuilder { parent_id: None, ..self }
    }

    pub fn remove_parent_id(&mut self)
        ensures
            *final(self) == (WidgetBuilder { parent_id: None, ..*old(self) }),
    {
        self.parent_id = None;
    }

    pub fn set_parent_id(&mut self, parent_id: WidgetId)
        ensures
            *final(self) == (WidgetBuilder { parent_id: Some(parent_id), ..*old(self) }),
    {
        self.parent_id = Some(parent_id);
    }

    /// A copy of a builder that holds no behavior and no layout.
    ///
    /// # Errors
    /// `TraitObjectCloning` when a behavior or a layout is present, since
    /// those objects cannot be duplicated.
    pub fn try_clone(&self) -> (r: Result<Self, WidgetBaseError>)
        ensures
            r is Ok <==> self.behavior is None && self.layout is None,
            r matches Ok(c) ==> c == *self,
            r matches Err(e) ==> e == WidgetBaseError::TraitObjectCloning,
    {
        if self.behavior.is_none() && self.layout.is_none() {
            Ok(WidgetBuilder {
                behavior: None,
                layout: None,
                parent_id: self.parent_id,
                size: self.size,
                position: self.position,
            })
        } else {
            Err(WidgetBaseError::TraitObjectCloning)
        }
    }
}

impl Default for WidgetBuilder {
    fn default() -> (r: Self)
        ensures
            r.behavior is None,
            r.layout is None,
            r.parent_id is None,
            r.size.x@ == 0 && r.size.y@ == 0,
            r.position.x@ == 0 && r.position.y@ == 0,
    {
        WidgetBuilder::new()
    }
}

impl BuildWidget for WidgetBuilder {
    open spec fn built_view(&self, id: WidgetId) -> WidgetView {
        WidgetView {
            id: id,
            parent_id: self.parent_id,
            children: Seq::empty(),
            behavior: self.behavior,
            layout: self.layout,
            size: self.size,
            position: self.position,
        }
    }

    fn build_widget(self, id: WidgetId) -> (r: Widget) {
        let w = Widget {
            id,
            child_indices: Vec::new(),
            parent_id: self.parent_id,
            behavior: self.behavior,
            layout: self.layout,
            size: self.size,
            position: self.position,
        };
        proof {
            assert(w@.children =~= Seq::<usize>::empty());
        }
        w
    }
}

} // verus!
