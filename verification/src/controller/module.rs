//! The modules that are open, each with its syntax tree, in one place that owns them.

use vstd::prelude::*;
use crate::ast::LineView;
use crate::ast::Module;
use crate::controller::notification::Event;
use crate::controller::notification::EventView;
use crate::controller::notification::Graph;
use crate::controller::notification::events_view;
use crate::double_representation::definition::DefinitionInfo;
use crate::double_representation::definition::DefinitionNameView;
use crate::double_representation::definition::DefinitionView;
use crate::double_representation::definition::ScopeKind;
use crate::double_representation::graph::Id;
use crate::double_representation::graph::definition_at;
use crate::double_representation::graph::traverse_for_definition;
use crate::error::AddressingError;

verus! {

/// Refers to a module of a registry.
#[derive(Clone, Copy, Debug, PartialEq, Eq, Structural)]
pub struct Handle {
    /// Place of the module in its registry.
    pub index: usize,
}

/// What a module tells its subscribers.
#[derive(Clone, Copy, Debug, PartialEq, Eq, Structural)]
pub enum Notification {
    /// The whole module should be read again.
    Invalidate,
    /// The code of the module changed.
    CodeChanged,
    /// The metadata of the module changed; its code did not.
    MetadataChanged,
}

/// State of one module.
#[derive(Debug)]
pub struct Controller {
    /// The syntax tree of the module, as it is now.
    pub ast: Module,
    /// The notifications that the graphs of the module have published, oldest first.
    pub events: Vec<Event>,
}

/// The modules that are open. It alone owns their state: handles refer into it.
#[derive(Debug)]
pub struct Registry {
    /// The modules, in the order in which they were opened.
    pub modules: Vec<Controller>,
}

/// Whether the failure is the one owed for an identifier that leads to no definition.
pub open spec fn addressing_failure(error: AddressingError, id: Seq<DefinitionNameView>) -> bool {
    match error {
        AddressingError::EmptyGraphId => id.len() == 0,
        AddressingError::DefinitionNotFound(path) => id.len() > 0 && path@ == id,
    }
}

impl Registry {
    /// Whether the handle refers to a module of the registry.
    pub open spec fn has(&self, module: Handle) -> bool {
        module.index < self.modules.len()
    }

    /// The lines of the module.
    pub open spec fn lines(&self, module: Handle) -> Seq<LineView> {
        self.modules[module.index as int].ast@
    }

    /// The notifications that the graphs of the module have published, oldest first.
    pub open spec fn log(&self, module: Handle) -> Seq<EventView> {
        events_view(self.modules[module.index as int].events@)
    }

    /// The definition that the identifier leads to in the module; none where the handle
    /// refers to no module.
    pub open spec fn definition(
        &self,
        module: Handle,
        id: Seq<DefinitionNameView>,
    ) -> Option<DefinitionView> {
        if self.has(module) {
            definition_at(self.lines(module), ScopeKind::Root, id)
        } else {
            None
        }
    }

    /// Whether the two registries differ at most in the given module.
    pub open spec fn same_but(&self, other: Registry, module: Handle) -> bool {
        &&& self.modules.len() == other.modules.len()
        &&& forall|j: int|
            0 <= j < self.modules.len() && j != module.index ==> self.modules[j]
                == other.modules[j]
    }

    /// A registry without modules.
    pub fn new() -> (res: Registry)
        ensures
            res.modules.len() == 0,
    {
        Registry { modules: Vec::new() }
    }

    /// Opens a module with the given syntax tree, and gives the handle that refers to it.
    pub fn add_module(&mut self, ast: Module) -> (res: Handle)
        ensures
            res.index == old(self).modules.len(),
            final(self).has(res),
            final(self).lines(res) == ast@,
            final(self).log(res) == Seq::<EventView>::empty(),
            final(self).modules.len() == old(self).modules.len() + 1,
            forall|j: int|
                0 <= j < old(self).modules.len() ==> final(self).modules[j] == old(
                    self,
                ).modules[j],
    {
        let index = self.modules.len();
        let controller = Controller { ast, events: Vec::new() };
        proof {
            assert(events_view(controller.events@) =~= Seq::<EventView>::empty());
        }
        self.modules.push(controller);
        Handle { index }
    }

    /// The syntax tree of the module, where the handle refers to one.
    pub fn module_ast(&self, module: Handle) -> (res: Option<&Module>)
        ensures
            res.is_some() == self.has(module),
            res matches Some(ast) ==> ast@ == self.lines(module),
    {
        if module.index < self.modules.len() {
            Some(&self.modules[module.index].ast)
        } else {
            None
        }
    }

    /// Gives the module another syntax tree, as when its text was changed from elsewhere, and
    /// tells the subscribers of every graph of the module. Tells whether the handle refers to
    /// a module; where it does not, nothing changes.
    pub fn replace_ast(&mut self, module: Handle, ast: Module) -> (res: bool)
        ensures
            res == old(self).has(module),
            !res ==> *final(self) == *old(self),
            res ==> {
                &&& final(self).same_but(*old(self), module)
                &&& final(self).lines(module) == ast@
                &&& final(self).log(module) == old(self).log(module).push(
                    EventView { graph: None, notification: Graph::Invalidate },
                )
            },
    {
        if module.index >= self.modules.len() {
            return false;
        }
        let ghost before = self.modules[module.index as int].events@;
        let controller = &mut self.modules[module.index];
        controller.ast = ast;
        let event = Event { graph: None, notification: Graph::Invalidate };
        controller.events.push(event);
        proof {
            assert(events_view(before.push(event)) =~= events_view(before).push(event@));
        }
        true
    }

    /// Looks up a graph in a module: the definition that the identifier leads to.
    ///
    /// An empty identifier is refused as such. An identifier that leads to no definition is
    /// reported with its path; so is any identifier where the handle refers to no module.
    pub fn find_definition(&self, module: Handle, id: &Id) -> (res: Result<
        DefinitionInfo,
        AddressingError,
    >)
        ensures
            match res {
                Ok(definition) => Some(definition@) == self.definition(module, id@),
                Err(error) => {
                    &&& addressing_failure(error, id@)
                    &&& self.definition(module, id@).is_none()
                },
            },
    {
        if id.crumbs.len() == 0 {
            return Err(AddressingError::EmptyGraphId);
        }
        match self.module_ast(module) {
            Some(ast) => traverse_for_definition(ast, id),
            None => Err(AddressingError::DefinitionNotFound(id.clone())),
        }
    }
}

} // verus!
