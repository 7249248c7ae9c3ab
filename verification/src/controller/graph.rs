//! Graph controller: the handle through which a view reads and changes one graph.

use vstd::prelude::*;
use crate::ast::Ast;
use crate::ast::AstView;
use crate::ast::ID;
use crate::ast::random_id;
use crate::controller::module::Handle as ModuleHandle;
use crate::controller::module::Registry;
use crate::controller::module::addressing_failure;
use crate::controller::node::Handle as NodeHandle;
use crate::controller::notification::Event;
use crate::controller::notification::EventView;
use crate::controller::notification::Graph;
use crate::controller::notification::Subscriber;
use crate::controller::notification::events_view;
use crate::controller::notification::lemma_published_push;
use crate::controller::notification::published;
use crate::double_representation::definition::DefinitionInfo;
use crate::double_representation::definition::ScopeKind;
use crate::double_representation::definition::body_lines;
use crate::double_representation::definition::definition_of;
use crate::double_representation::definition::is_assignment;
use crate::double_representation::definition::with_right_side;
use crate::double_representation::graph::GraphInfo;
use crate::double_representation::graph::Id;
use crate::double_representation::graph::LocationHint;
use crate::double_representation::graph::body_line_nodes;
use crate::double_representation::graph::body_nodes;
use crate::double_representation::graph::body_with_line;
use crate::double_representation::graph::body_without_line;
use crate::double_representation::graph::hint_id;
use crate::double_representation::graph::hint_index;
use crate::double_representation::graph::lemma_definition_binds;
use crate::double_representation::graph::line_node;
use crate::double_representation::graph::node_index;
use crate::double_representation::graph::node_line;
use crate::double_representation::lines::distinct_ids;
use crate::double_representation::lines::has_node;
use crate::double_representation::lines::lemma_gone_line_hides;
use crate::double_representation::lines::lemma_new_id_stays_distinct;
use crate::double_representation::lines::lemma_new_line_shows;
use crate::double_representation::lines::lemma_node_index_finds;
use crate::double_representation::lines::lemma_removed_id_is_gone;
use crate::double_representation::lines::rank;
use crate::double_representation::lines::reads_alike;
use crate::double_representation::node::NodeInfo;
use crate::double_representation::node::identity_of_line;
use crate::double_representation::node::lemma_with_identity;
use crate::double_representation::node::line_identity;
use crate::double_representation::node::node_of_line;
use crate::double_representation::node::nodes_view;
use crate::double_representation::node::set_line_identity;
use crate::double_representation::node::with_identity;
use crate::double_representation::rewrite::lemma_replaced_resolves;
use crate::double_representation::rewrite::lemma_same_head_defines;
use crate::double_representation::rewrite::replace_definition;
use crate::double_representation::rewrite::replaced;
use crate::double_representation::rewrite::same_head;
use crate::error::AddressingError;
use crate::error::Error;
use crate::error::NodeLookupError;
use crate::error::StructuralError;

verus! {

/// Refers to one graph of one module. It holds no syntax tree: every operation reads the
/// module as it is when the operation is called.
#[derive(Debug)]
pub struct Handle {
    /// The module that the graph belongs to.
    pub module: ModuleHandle,
    /// The graph in its module.
    pub id: Id,
}

/// Describes a node to be added to a graph.
#[derive(Debug)]
pub struct NewNodeInfo {
    /// The line of the node: its expression, as read from its text.
    pub expression: Ast,
    /// The identity that the node is to have, where the caller chooses it.
    pub id: Option<ID>,
    /// Where the line of the node is to stand.
    pub location_hint: LocationHint,
}

/// The identity that a new node gets: the one that the caller chose; else the one that its
/// line has already; else the one drawn for it.
pub open spec fn new_node_id(node: NewNodeInfo, drawn: ID) -> ID {
    match node.id {
        Some(id) => id,
        None => match line_identity(node.expression@) {
            Some(id) => id,
            None => drawn,
        },
    }
}

/// Whether the registries differ by the change of one graph: the graph's definition has the
/// new body in the module, the subscribers of the graph were told, and everything else is as
/// it was.
pub open spec fn graph_changed(
    before: Registry,
    handle: Handle,
    body: AstView,
    after: Registry,
) -> bool {
    &&& before.definition(handle.module, handle.id@) matches Some(definition)
    &&& after.same_but(before, handle.module)
    &&& after.has(handle.module)
    &&& after.lines(handle.module) == replaced(
        before.lines(handle.module),
        ScopeKind::Root,
        handle.id@,
        with_right_side(definition.ast, body),
    )
    &&& after.definition(handle.module, handle.id@) == Some(definition.with_body(body))
    &&& after.log(handle.module) == before.log(handle.module).push(
        EventView { graph: Some(handle.id@), notification: Graph::Invalidate },
    )
}

/// Whether the handle refers to the node of the given identity in the given graph.
pub open spec fn refers_to(node: NodeHandle, graph: Handle, id: ID) -> bool {
    &&& node.id == id
    &&& node.graph.module == graph.module
    &&& node.graph.id@ == graph.id@
}

/// What adding a node does: the result that is owed, and the registry that is left.
///
/// The graph must be found; the hint must refer to a node that the graph shows; the line
/// must not read as a definition. Then the line, with the identity on its node, stands among
/// the lines of the graph where the hint places it. In every other case nothing changes.
pub open spec fn added(
    before: Registry,
    handle: Handle,
    expression: AstView,
    id: ID,
    hint: LocationHint,
    res: Result<NodeHandle, Error>,
    after: Registry,
) -> bool {
    match before.definition(handle.module, handle.id@) {
        None => {
            &&& res matches Err(Error::Addressing(error))
            &&& addressing_failure(error, handle.id@)
            &&& after == before
        },
        Some(definition) => {
            match hint_index(body_line_nodes(definition.body()), hint) {
                None => {
                    &&& res matches Err(Error::NodeLookup(error))
                    &&& error == NodeLookupError::NodeNotFound(hint_id(hint))
                    &&& after == before
                },
                Some(index) => {
                    if definition_of(expression, ScopeKind::NonRoot).is_some() {
                        &&& res matches Err(Error::Structure(error))
                        &&& error == StructuralError::NotANode
                        &&& after == before
                    } else {
                        &&& res matches Ok(node)
                        &&& refers_to(node, handle, id)
                        &&& graph_changed(
                            before,
                            handle,
                            body_with_line(definition.body(), index, with_identity(expression, id)),
                            after,
                        )
                    }
                },
            }
        },
    }
}

/// What removing a node does: the result that is owed, and the registry that is left.
///
/// The graph must be found, and it must show the node. Then the first line that shows the
/// node is gone from the lines of the graph. In every other case nothing changes.
pub open spec fn removed(
    before: Registry,
    handle: Handle,
    id: ID,
    res: Result<(), Error>,
    after: Registry,
) -> bool {
    match before.definition(handle.module, handle.id@) {
        None => {
            &&& res matches Err(Error::Addressing(error))
            &&& addressing_failure(error, handle.id@)
            &&& after == before
        },
        Some(definition) => {
            match node_index(body_line_nodes(definition.body()), id) {
                None => {
                    &&& res matches Err(Error::NodeLookup(error))
                    &&& error == NodeLookupError::NodeNotFound(id)
                    &&& after == before
                },
                Some(index) => {
                    &&& res is Ok
                    &&& graph_changed(
                        before,
                        handle,
                        body_without_line(definition.body(), index),
                        after,
                    )
                },
            }
        },
    }
}

impl Clone for Handle {
    fn clone(&self) -> (res: Self)
        ensures
            res.module == self.module,
            res.id@ == self.id@,
    {
        Handle { module: self.module, id: self.id.clone() }
    }
}

impl Handle {
    /// A handle for the graph that the identifier leads to in the module. There is none
    /// where the identifier leads to no definition.
    pub fn new(registry: &Registry, module: ModuleHandle, id: Id) -> (res: Result<
        Handle,
        AddressingError,
    >)
        ensures
            match res {
                Ok(handle) => {
                    &&& handle.module == module
                    &&& handle.id == id
                    &&& registry.definition(module, id@).is_some()
                },
                Err(error) => {
                    &&& addressing_failure(error, id@)
                    &&& registry.definition(module, id@).is_none()
                },
            },
    {
        match registry.find_definition(module, &id) {
            Ok(_) => Ok(Handle { module, id }),
            Err(error) => Err(error),
        }
    }

    /// The module that the graph belongs to.
    pub fn get_module(&self) -> (res: ModuleHandle)
        ensures
            res == self.module,
    {
        self.module
    }

    /// The identifier of the graph in its module.
    pub fn get_id(&self) -> (res: Id)
        ensures
            res@ == self.id@,
    {
        self.id.clone()
    }

    /// The definition whose body is the graph, as the module holds it now.
    pub fn get_definition(&self, registry: &Registry) -> (res: Result<
        DefinitionInfo,
        AddressingError,
    >)
        ensures
            match res {
                Ok(definition) => Some(definition@) == registry.definition(
                    self.module,
                    self.id@,
                ),
                Err(error) => {
                    &&& addressing_failure(error, self.id@)
                    &&& registry.definition(self.module, self.id@).is_none()
                },
            },
    {
        registry.find_definition(self.module, &self.id)
    }

    /// The nodes of the graph, in the order of their lines, as the module holds them now.
    pub fn list_node_infos(&self, registry: &Registry) -> (res: Result<
        Vec<NodeInfo>,
        AddressingError,
    >)
        ensures
            match registry.definition(self.module, self.id@) {
                Some(definition) => res matches Ok(nodes) && nodes_view(nodes@) == body_nodes(
                    definition.body(),
                ),
                None => res matches Err(error) && addressing_failure(error, self.id@),
            },
    {
        let definition = match self.get_definition(registry) {
            Ok(definition) => definition,
            Err(error) => { return Err(error); },
        };
        let graph = GraphInfo::from_definition(definition);
        Ok(graph.nodes())
    }

    /// The node of the given identity, as the module holds it now.
    pub fn node_info(&self, registry: &Registry, id: ID) -> (res: Result<NodeInfo, Error>)
        ensures
            match registry.definition(self.module, self.id@) {
                Some(definition) => match node_index(body_line_nodes(definition.body()), id) {
                    Some(index) => res matches Ok(node) && Some(node@) == body_line_nodes(
                        definition.body(),
                    )[index],
                    None => res matches Err(Error::NodeLookup(error)) && error
                        == NodeLookupError::NodeNotFound(id),
                },
                None => res matches Err(Error::Addressing(error)) && addressing_failure(
                    error,
                    self.id@,
                ),
            },
    {
        let definition = match self.get_definition(registry) {
            Ok(definition) => definition,
            Err(error) => { return Err(Error::Addressing(error)); },
        };
        let graph = GraphInfo::from_definition(definition);
        match graph.find_node(id) {
            Ok(node) => Ok(node),
            Err(error) => Err(Error::NodeLookup(error)),
        }
    }

    /// Writes the changed definition of the graph back to the module and tells the
    /// subscribers of the graph.
    fn commit(&self, registry: &mut Registry, definition: &DefinitionInfo)
        requires
            old(registry).definition(self.module, self.id@) matches Some(before) && same_head(
                before.ast,
                definition@.ast,
            ) && definition@ == before.with_body(definition@.body()),
        ensures
            graph_changed(*old(registry), *self, definition@.body(), *final(registry)),
    {
        let line = definition.line_ast();
        let event = Event { graph: Some(self.id.clone()), notification: Graph::Invalidate };
        let ghost lines = registry.lines(self.module);
        let ghost events = registry.modules[self.module.index as int].events@;
        proof {
            assert(self.id@.skip(0) =~= self.id@);
            lemma_replaced_resolves(lines, ScopeKind::Root, self.id@, line@);
        }
        let controller = &mut registry.modules[self.module.index];
        let _ = replace_definition(&mut controller.ast.lines, ScopeKind::Root, &self.id, 0, line);
        controller.events.push(event);
        proof {
            assert(events_view(events.push(event)) =~= events_view(events).push(event@));
        }
    }

    /// Adds a node of the given identity to the graph.
    pub fn add_node_with_id(
        &self,
        registry: &mut Registry,
        expression: Ast,
        id: ID,
        location_hint: LocationHint,
    ) -> (res: Result<NodeHandle, Error>)
        ensures
            added(*old(registry), *self, expression@, id, location_hint, res, *final(registry)),
    {
        let definition = match self.get_definition(registry) {
            Ok(definition) => definition,
            Err(error) => { return Err(Error::Addressing(error)); },
        };
        let mut graph = GraphInfo::from_definition(definition);
        match graph.resolve_location(location_hint) {
            Ok(_) => {},
            Err(error) => { return Err(Error::NodeLookup(error)); },
        }
        if DefinitionInfo::from_line_ast(&expression, ScopeKind::NonRoot).is_some() {
            return Err(Error::Structure(StructuralError::NotANode));
        }
        let line = set_line_identity(expression, id);
        match graph.add_node(line, location_hint) {
            Ok(()) => {},
            Err(error) => { return Err(error); },
        }
        self.commit(registry, &graph.source);
        Ok(NodeHandle::new(self.clone(), id))
    }

    /// Adds a node to the graph and gives the handle that refers to it.
    ///
    /// The node gets the identity that the caller chose; else the one that its line has
    /// already; else a random one.
    pub fn add_node(&self, registry: &mut Registry, node: NewNodeInfo) -> (res: Result<
        NodeHandle,
        Error,
    >)
        ensures
            exists|drawn: ID|
                added(
                    *old(registry),
                    *self,
                    node.expression@,
                    new_node_id(node, drawn),
                    node.location_hint,
                    res,
                    *final(registry),
                ),
    {
        let id = match node.id {
            Some(id) => id,
            None => match identity_of_line(&node.expression) {
                Some(id) => id,
                None => random_id(),
            },
        };
        let ghost before = *registry;
        let res = self.add_node_with_id(registry, node.expression, id, node.location_hint);
        proof {
            assert(added(
                before,
                *self,
                node.expression@,
                new_node_id(node, id),
                node.location_hint,
                res,
                *registry,
            ));
        }
        res
    }

    /// The handle that refers to the node of the given identity, where the graph shows it.
    pub fn get_node(&self, registry: &Registry, id: ID) -> (res: Result<NodeHandle, Error>)
        ensures
            match registry.definition(self.module, self.id@) {
                Some(definition) => match node_index(body_line_nodes(definition.body()), id) {
                    Some(_) => res matches Ok(node) && refers_to(node, *self, id),
                    None => res matches Err(Error::NodeLookup(error)) && error
                        == NodeLookupError::NodeNotFound(id),
                },
                None => res matches Err(Error::Addressing(error)) && addressing_failure(
                    error,
                    self.id@,
                ),
            },
    {
        match self.node_info(registry, id) {
            Ok(_) => Ok(NodeHandle::new(self.clone(), id)),
            Err(error) => Err(error),
        }
    }

    /// The handles that refer to the nodes of the graph, in the order of their lines.
    pub fn get_nodes(&self, registry: &Registry) -> (res: Result<Vec<NodeHandle>, Error>)
        ensures
            match registry.definition(self.module, self.id@) {
                Some(definition) => {
                    &&& res matches Ok(handles)
                    &&& handles.len() == body_nodes(definition.body()).len()
                    &&& forall|i: int|
                        0 <= i < handles.len() ==> refers_to(
                            #[trigger] handles[i],
                            *self,
                            body_nodes(definition.body())[i].id,
                        )
                },
                None => res matches Err(Error::Addressing(error)) && addressing_failure(
                    error,
                    self.id@,
                ),
            },
    {
        let nodes = match self.list_node_infos(registry) {
            Ok(nodes) => nodes,
            Err(error) => { return Err(Error::Addressing(error)); },
        };
        let mut handles: Vec<NodeHandle> = Vec::new();
        let mut i: usize = 0;
        while i < nodes.len()
            invariant
                i <= nodes.len(),
                handles.len() == i,
                forall|j: int|
                    0 <= j < i ==> refers_to(#[trigger] handles[j], *self, nodes_view(nodes@)[j].id),
            decreases nodes.len() - i,
        {
            handles.push(NodeHandle::new(self.clone(), nodes[i].id));
            i += 1;
        }
        Ok(handles)
    }

    /// Removes the node of the given identity from the graph.
    pub fn remove_node(&self, registry: &mut Registry, id: ID) -> (res: Result<(), Error>)
        ensures
            removed(*old(registry), *self, id, res, *final(registry)),
    {
        let definition = match self.get_definition(registry) {
            Ok(definition) => definition,
            Err(error) => { return Err(Error::Addressing(error)); },
        };
        let mut graph = GraphInfo::from_definition(definition);
        match graph.remove_node(id) {
            Ok(()) => {},
            Err(error) => { return Err(error); },
        }
        self.commit(registry, &graph.source);
        Ok(())
    }

    /// Subscribes to the notifications of the graph: to those that are published from now
    /// on.
    pub fn subscribe(&self, registry: &Registry) -> (res: Subscriber)
        ensures
            res.module == self.module,
            res.graph@ == self.id@,
            res.pending(registry) == Seq::<Graph>::empty(),
            registry.has(self.module) ==> res.position == registry.log(self.module).len(),
    {
        let position = if self.module.index < registry.modules.len() {
            registry.modules[self.module.index].events.len()
        } else {
            0
        };
        let res = Subscriber { module: self.module, graph: self.id.clone(), position };
        proof {
            if registry.has(self.module) {
                assert(registry.log(self.module).skip(position as int) =~= Seq::<
                    EventView,
                >::empty());
            }
        }
        res
    }
}

/// The node that a new line shows once it has its identity: for a line that does not read
/// as a definition, a node of that identity.
pub proof fn lemma_new_line_is_node(expression: AstView, id: ID)
    requires
        definition_of(expression, ScopeKind::NonRoot) is None,
    ensures
        line_node(node_line(with_identity(expression, id))) == node_of_line(
            with_identity(expression, id),
        ),
        node_of_line(with_identity(expression, id)) matches Some(node) && node.id == id,
{
    lemma_with_identity(expression, id);
    if is_assignment(expression) {
        lemma_same_head_defines(with_identity(expression, id), expression, ScopeKind::NonRoot);
    }
}

/// After a node was added, the graph lists the nodes that it listed, in their order, and the
/// new node among them, at the place that the lines before its line give. Where no two nodes
/// shared an identity and none had that of the new node, no two nodes share one afterwards.
///
/// This holds of every graph whose body reads alike as a body and as the lines of a block.
pub proof fn lemma_added_node_is_listed(
    before: Registry,
    handle: Handle,
    expression: AstView,
    id: ID,
    hint: LocationHint,
    res: Result<NodeHandle, Error>,
    after: Registry,
)
    requires
        added(before, handle, expression, id, hint, res, after),
        res is Ok,
        before.definition(handle.module, handle.id@) matches Some(definition) && reads_alike(
            definition.body(),
        ),
    ensures
        ({
            let old_body = before.definition(handle.module, handle.id@).unwrap().body();
            let new_body = after.definition(handle.module, handle.id@).unwrap().body();
            let place = rank(
                body_line_nodes(old_body),
                hint_index(body_line_nodes(old_body), hint).unwrap(),
            );
            let node = node_of_line(with_identity(expression, id)).unwrap();
            &&& after.definition(handle.module, handle.id@) is Some
            &&& node.id == id
            &&& 0 <= place <= body_nodes(old_body).len()
            &&& body_nodes(new_body) == body_nodes(old_body).insert(place, node)
            &&& distinct_ids(body_nodes(old_body)) && !has_node(body_nodes(old_body), id)
                ==> distinct_ids(body_nodes(new_body))
        }),
{
    let definition = before.definition(handle.module, handle.id@).unwrap();
    let slots = body_line_nodes(definition.body());
    let index = hint_index(slots, hint).unwrap();
    lemma_definition_binds(before.lines(handle.module), ScopeKind::Root, handle.id@);
    lemma_new_line_is_node(expression, id);
    lemma_hint_index_in_range(definition.body(), hint);
    lemma_new_line_shows(definition.body(), index, with_identity(expression, id));
    let nodes = body_nodes(definition.body());
    if distinct_ids(nodes) && !has_node(nodes, id) {
        lemma_new_id_stays_distinct(
            nodes,
            rank(slots, index),
            node_of_line(with_identity(expression, id)).unwrap(),
        );
    }
}

/// An index that a hint resolves to lies among the lines of the body, or directly behind
/// them.
pub proof fn lemma_hint_index_in_range(body: AstView, hint: LocationHint)
    ensures
        hint_index(body_line_nodes(body), hint) matches Some(index) ==> 0 <= index
            <= body_lines(body).len(),
        body_line_nodes(body).len() == body_lines(body).len(),
{
    lemma_node_index_finds(body_line_nodes(body), hint_id(hint));
}

/// Adding a node relative to a node that the graph does not list fails, tells that the node
/// was not found, and changes nothing.
pub proof fn lemma_add_by_unknown_node(
    before: Registry,
    handle: Handle,
    expression: AstView,
    id: ID,
    hint: LocationHint,
    res: Result<NodeHandle, Error>,
    after: Registry,
)
    requires
        added(before, handle, expression, id, hint, res, after),
        before.definition(handle.module, handle.id@) matches Some(definition) && !has_node(
            body_nodes(definition.body()),
            hint_id(hint),
        ),
        hint is Before || hint is After,
    ensures
        res matches Err(Error::NodeLookup(error)) && error == NodeLookupError::NodeNotFound(
            hint_id(hint),
        ),
        after == before,
{
    let definition = before.definition(handle.module, handle.id@).unwrap();
    lemma_node_index_finds(body_line_nodes(definition.body()), hint_id(hint));
}

/// Removing a node that the graph does not list fails, tells that the node was not found,
/// and changes nothing.
pub proof fn lemma_remove_unknown_node(
    before: Registry,
    handle: Handle,
    id: ID,
    res: Result<(), Error>,
    after: Registry,
)
    requires
        removed(before, handle, id, res, after),
        before.definition(handle.module, handle.id@) matches Some(definition) && !has_node(
            body_nodes(definition.body()),
            id,
        ),
    ensures
        res matches Err(Error::NodeLookup(error)) && error == NodeLookupError::NodeNotFound(id),
        after == before,
{
    let definition = before.definition(handle.module, handle.id@).unwrap();
    lemma_node_index_finds(body_line_nodes(definition.body()), id);
}

/// Removing a node that the graph lists succeeds. Afterwards the graph lists the nodes that
/// it listed, in their order, but for the first node of the given identity. Where no two
/// nodes shared an identity, it lists no node of that identity any more.
pub proof fn lemma_removed_node_is_gone(
    before: Registry,
    handle: Handle,
    id: ID,
    res: Result<(), Error>,
    after: Registry,
)
    requires
        removed(before, handle, id, res, after),
        before.definition(handle.module, handle.id@) matches Some(definition) && has_node(
            body_nodes(definition.body()),
            id,
        ),
    ensures
        ({
            let old_body = before.definition(handle.module, handle.id@).unwrap().body();
            let new_body = after.definition(handle.module, handle.id@).unwrap().body();
            let place = rank(
                body_line_nodes(old_body),
                node_index(body_line_nodes(old_body), id).unwrap(),
            );
            &&& res is Ok
            &&& after.definition(handle.module, handle.id@) is Some
            &&& 0 <= place < body_nodes(old_body).len()
            &&& body_nodes(old_body)[place].id == id
            &&& forall|earlier: int|
                0 <= earlier < place ==> (#[trigger] body_nodes(old_body)[earlier]).id != id
            &&& body_nodes(new_body) == body_nodes(old_body).remove(place)
            &&& distinct_ids(body_nodes(old_body)) ==> !has_node(body_nodes(new_body), id)
        }),
{
    let definition = before.definition(handle.module, handle.id@).unwrap();
    let body = definition.body();
    let slots = body_line_nodes(body);
    lemma_definition_binds(before.lines(handle.module), ScopeKind::Root, handle.id@);
    lemma_node_index_finds(slots, id);
    lemma_hint_index_in_range(body, LocationHint::Before(id));
    let index = node_index(slots, id).unwrap();
    lemma_gone_line_hides(body, index);
    if distinct_ids(body_nodes(body)) {
        lemma_removed_id_is_gone(body_nodes(body), rank(slots, index));
    }
}

/// A change of a graph reaches every subscriber of that graph, behind what the subscriber
/// has yet to see, and no subscriber of another graph.
pub proof fn lemma_change_reaches_subscribers(
    before: Registry,
    handle: Handle,
    body: AstView,
    after: Registry,
    subscriber: Subscriber,
)
    requires
        graph_changed(before, handle, body, after),
        subscriber.module == handle.module,
        subscriber.position <= before.log(handle.module).len(),
    ensures
        subscriber.pending(&after) == if subscriber.graph@ == handle.id@ {
            subscriber.pending(&before).push(Graph::Invalidate)
        } else {
            subscriber.pending(&before)
        },
{
    let log = before.log(handle.module);
    let event = EventView { graph: Some(handle.id@), notification: Graph::Invalidate };
    let position = subscriber.position as int;
    assert(log.push(event).skip(position) =~= log.skip(position).push(event));
    lemma_published_push(log.skip(position), event, subscriber.graph@);
}

} // verus!
