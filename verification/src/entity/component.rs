//! Resolved components: the UI tree entries of a resolved
//! environment.

use crate::entity::epath::EPath;
use crate::entity::event::Event;
use vstd::prelude::*;

verus! {

#[derive(Debug, PartialEq, Eq, Structural, Clone, Copy)]
pub enum ComponentType {
    Module,
    Page,
    Element,
    Widget,
}

#[derive(Debug, PartialEq, Eq)]
pub struct Component {
    pub epath: EPath,
    pub component_type: ComponentType,
    pub description: String,
    pub events: Vec<Event>,
    pub children: Vec<EPath>,
}

impl Component {
    /// A bare module component at the given path: no description, no
    /// events, no children.
    pub fn module(epath: EPath) -> (r: Self)
        ensures
            r.epath@ == epath@,
            r.component_type == ComponentType::Module,
            r.description@ == Seq::<char>::empty(),
            r.events@ == Seq::<Event>::empty(),
            r.children@ == Seq::<EPath>::empty(),
    {
        let r = Component {
            epath,
            component_type: ComponentType::Module,
            description: String::new(),
            events: Vec::new(),
            children: Vec::new(),
        };
        proof {
            assert(r.events@ =~= Seq::<Event>::empty());
            assert(r.children@ =~= Seq::<EPath>::empty());
        }
        r
    }

    pub fn epath(&self) -> (r: &EPath)
        ensures
            r@ == self.epath@,
    {
        &self.epath
    }

    pub fn component_type(&self) -> (r: &ComponentType)
        ensures
            *r == self.component_type,
    {
        &self.component_type
    }

    pub fn description(&self) -> (r: &String)
        ensures
            r@ == self.description@,
    {
        &self.description
    }

    pub fn events(&self) -> (r: &Vec<Event>)
        ensures
            r@ == self.events@,
    {
        &self.events
    }

    pub fn children(&self) -> (r: &Vec<EPath>)
        ensures
            r@ == self.children@,
    {
        &self.children
    }
}

} // verus!
