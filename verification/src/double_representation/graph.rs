//! Graphs: the bodies of definitions, read as ordered lists of nodes.

use vstd::prelude::*;
use crate::ast::Ast;
use crate::ast::AstView;
use crate::ast::Block;
use crate::ast::BlockLine;
use crate::ast::ID;
use crate::ast::Line;
use crate::ast::LineView;
use crate::ast::Module;
use crate::ast::Shape;
use crate::ast::ShapeView;
use crate::ast::line_view;
use crate::ast::lines_view;
use crate::double_representation::definition::DefinitionInfo;
use crate::double_representation::definition::DefinitionName;
use crate::double_representation::definition::DefinitionNameView;
use crate::double_representation::definition::DefinitionView;
use crate::double_representation::definition::ScopeKind;
use crate::double_representation::definition::block_body;
use crate::double_representation::definition::body_lines;
use crate::double_representation::definition::definition_in;
use crate::double_representation::definition::definition_of;
use crate::double_representation::definition::is_assignment;
use crate::double_representation::definition::scope_lines;
use crate::double_representation::node::NodeInfo;
use crate::double_representation::node::NodeView;
use crate::double_representation::node::expression_node_of;
use crate::double_representation::node::node_of_line;
use crate::double_representation::node::nodes_view;
use crate::double_representation::node::set_line_expression;
use crate::double_representation::node::set_line_identity;
use crate::double_representation::node::with_expression;
use crate::double_representation::node::with_identity;
use crate::error::AddressingError;
use crate::error::Error;
use crate::error::NodeLookupError;
use crate::error::StructuralError;

verus! {

/// Where the line of a new node should stand among the lines of the graph.
#[derive(Clone, Copy, Debug)]
pub enum LocationHint {
    /// Directly before the line of the node with this identity.
    Before(ID),
    /// Directly after the line of the node with this identity.
    After(ID),
    /// Before every line.
    Start,
    /// After every line.
    End,
}

/// One step on the way from a module to a graph: the name of the definition to enter.
pub type Crumb = DefinitionName;

/// Identifies a graph in a module: the names to enter in turn, from the module's root.
///
/// Two identifiers are equal where they hold the same crumbs in the same order.
#[derive(Debug, Eq, Hash)]
pub struct Id {
    /// The steps from the module to the graph.
    pub crumbs: Vec<Crumb>,
}

/// Mathematical value of a list of crumbs.
pub open spec fn crumbs_view(crumbs: Seq<Crumb>) -> Seq<DefinitionNameView> {
    crumbs.map_values(|crumb: Crumb| crumb@)
}

impl View for Id {
    type V = Seq<DefinitionNameView>;

    open spec fn view(&self) -> Seq<DefinitionNameView> {
        crumbs_view(self.crumbs@)
    }
}

impl PartialEq for Id {
    fn eq(&self, other: &Id) -> (res: bool) {
        self.same_as(other)
    }
}

impl vstd::std_specs::cmp::PartialEqSpecImpl for Id {
    open spec fn obeys_eq_spec() -> bool {
        true
    }

    open spec fn eq_spec(&self, other: &Id) -> bool {
        self@ == other@
    }
}

impl Clone for Id {
    fn clone(&self) -> (res: Self)
        ensures
            res@ == self@,
    {
        let mut crumbs: Vec<Crumb> = Vec::new();
        let mut i: usize = 0;
        while i < self.crumbs.len()
            invariant
                i <= self.crumbs.len(),
                crumbs.len() == i,
                forall|j: int| 0 <= j < i ==> (#[trigger] crumbs@[j])@ == self.crumbs@[j]@,
            decreases self.crumbs.len() - i,
        {
            crumbs.push(self.crumbs[i].clone());
            i += 1;
        }
        proof {
            assert(crumbs_view(crumbs@) =~= crumbs_view(self.crumbs@));
        }
        Id { crumbs }
    }
}

impl Id {
    /// The identifier of a graph that is one step from the module's root.
    pub fn new_single_crumb(crumb: DefinitionName) -> (res: Id)
        ensures
            res@ == seq![crumb@],
    {
        let mut crumbs: Vec<Crumb> = Vec::new();
        crumbs.push(crumb);
        let res = Id { crumbs };
        proof {
            assert(res@ =~= seq![crumb@]);
        }
        res
    }

    /// Whether two identifiers hold the same crumbs in the same order.
    pub fn same_as(&self, other: &Id) -> (res: bool)
        ensures
            res == (self@ == other@),
    {
        if self.crumbs.len() != other.crumbs.len() {
            proof {
                assert(self@.len() != other@.len());
            }
            return false;
        }
        let mut i: usize = 0;
        while i < self.crumbs.len()
            invariant
                i <= self.crumbs.len(),
                self.crumbs.len() == other.crumbs.len(),
                forall|j: int| 0 <= j < i ==> self.crumbs@[j]@ == other.crumbs@[j]@,
            decreases self.crumbs.len() - i,
        {
            if !self.crumbs[i].same_as(&other.crumbs[i]) {
                proof {
                    assert(self@[i as int] != other@[i as int]);
                }
                return false;
            }
            i += 1;
        }
        proof {
            assert(self@ =~= other@);
        }
        true
    }
}

/// The definition that the crumbs lead to, from the given lines in the given scope.
///
/// The first crumb is looked up among the lines; each further crumb among the lines of the
/// body of the definition found before it. There is none where a crumb names no definition,
/// and none for an empty list of crumbs.
pub open spec fn definition_at(
    lines: Seq<LineView>,
    kind: ScopeKind,
    crumbs: Seq<DefinitionNameView>,
) -> Option<DefinitionView>
    decreases crumbs.len(),
{
    if crumbs.len() == 0 {
        None
    } else {
        match definition_in(lines, kind, crumbs[0]) {
            Some(definition) => {
                if crumbs.len() == 1 {
                    Some(definition)
                } else {
                    definition_at(
                        scope_lines(definition.body()),
                        ScopeKind::NonRoot,
                        crumbs.skip(1),
                    )
                }
            },
            None => None,
        }
    }
}

/// A definition that crumbs lead to is a line that binds with `=`.
pub proof fn lemma_definition_binds(
    lines: Seq<LineView>,
    kind: ScopeKind,
    crumbs: Seq<DefinitionNameView>,
)
    ensures
        definition_at(lines, kind, crumbs) matches Some(definition) ==> is_assignment(
            definition.ast,
        ),
    decreases crumbs.len(),
{
    if crumbs.len() > 1 {
        match definition_in(lines, kind, crumbs[0]) {
            Some(definition) => {
                lemma_definition_binds(
                    scope_lines(definition.body()),
                    ScopeKind::NonRoot,
                    crumbs.skip(1),
                );
            },
            None => {},
        }
    }
}

/// Identifiers that hold the same crumbs in the same order lead to the same definition.
pub proof fn lemma_equal_ids_resolve_alike(lines: Seq<LineView>, first: Id, second: Id)
    requires
        first@ == second@,
    ensures
        definition_at(lines, ScopeKind::Root, first@) == definition_at(
            lines,
            ScopeKind::Root,
            second@,
        ),
{
}

/// Looks up a graph in a module: the definition that the identifier's crumbs lead to.
pub fn traverse_for_definition(ast: &Module, id: &Id) -> (res: Result<
    DefinitionInfo,
    AddressingError,
>)
    ensures
        match res {
            Ok(definition) => Some(definition@) == definition_at(ast@, ScopeKind::Root, id@),
            Err(AddressingError::EmptyGraphId) => id@.len() == 0,
            Err(AddressingError::DefinitionNotFound(path)) => {
                &&& id@.len() > 0
                &&& path@ == id@
                &&& definition_at(ast@, ScopeKind::Root, id@).is_none()
            },
        },
{
    if id.crumbs.len() == 0 {
        return Err(AddressingError::EmptyGraphId);
    }
    let mut definition = match ast.find_definition(&id.crumbs[0]) {
        Some(definition) => definition,
        None => { return Err(AddressingError::DefinitionNotFound(id.clone())); },
    };
    let mut i: usize = 1;
    while i < id.crumbs.len()
        invariant
            1 <= i <= id.crumbs.len(),
            definition_at(ast@, ScopeKind::Root, id@) == (if i == id.crumbs.len() {
                Some(definition@)
            } else {
                definition_at(scope_lines(definition@.body()), ScopeKind::NonRoot, id@.skip(i as int))
            }),
        decreases id.crumbs.len() - i,
    {
        proof {
            assert(id@.skip(i as int)[0] == id.crumbs@[i as int]@);
            assert(id@.skip(i as int).skip(1) =~= id@.skip(i + 1));
        }
        definition = match definition.find_definition(&id.crumbs[i]) {
            Some(definition) => definition,
            None => { return Err(AddressingError::DefinitionNotFound(id.clone())); },
        };
        i += 1;
    }
    Ok(definition)
}

/// The node that a line of a block shows: none for a blank line and none for a nested
/// definition; for any other line the node that the line makes.
pub open spec fn line_node(line: LineView) -> Option<NodeView> {
    match line.elem {
        Some(ast) => {
            if definition_of(ast, ScopeKind::NonRoot).is_some() {
                None
            } else {
                node_of_line(ast)
            }
        },
        None => None,
    }
}

/// The node that a body shows which is no block: the whole body as one expression, and none
/// where the body reads as a definition.
pub open spec fn inline_node(body: AstView) -> Option<NodeView> {
    if definition_of(body, ScopeKind::NonRoot).is_some() {
        None
    } else {
        expression_node_of(body)
    }
}

/// For each line of a block, the node that it shows.
pub open spec fn line_nodes(lines: Seq<LineView>) -> Seq<Option<NodeView>> {
    lines.map_values(|line: LineView| line_node(line))
}

/// For each line that a body is read as, the node that it shows.
pub open spec fn body_line_nodes(body: AstView) -> Seq<Option<NodeView>> {
    match body.shape {
        ShapeView::Block { lines, .. } => line_nodes(lines),
        _ => seq![inline_node(body)],
    }
}

/// The nodes that are there, in the order of their lines.
pub open spec fn present(slots: Seq<Option<NodeView>>) -> Seq<NodeView>
    decreases slots.len(),
{
    if slots.len() == 0 {
        Seq::empty()
    } else {
        match slots.last() {
            Some(node) => present(slots.drop_last()).push(node),
            None => present(slots.drop_last()),
        }
    }
}

/// The nodes of the graph of a body, in the order of their lines.
pub open spec fn body_nodes(body: AstView) -> Seq<NodeView> {
    present(body_line_nodes(body))
}

/// Whether the line shows the node of the given identity.
pub open spec fn shows(slot: Option<NodeView>, id: ID) -> bool {
    slot matches Some(node) && node.id == id
}

/// Index of the first line at or after `from` that shows the node of the given identity.
pub open spec fn node_index_from(slots: Seq<Option<NodeView>>, id: ID, from: int) -> Option<int>
    decreases slots.len() - from,
{
    if from < 0 || from >= slots.len() {
        None
    } else if shows(slots[from], id) {
        Some(from)
    } else {
        node_index_from(slots, id, from + 1)
    }
}

/// Index of the first line that shows the node of the given identity.
pub open spec fn node_index(slots: Seq<Option<NodeView>>, id: ID) -> Option<int> {
    node_index_from(slots, id, 0)
}

/// The index at which a hint places a new line, among lines that show the given nodes.
pub open spec fn hint_index(slots: Seq<Option<NodeView>>, hint: LocationHint) -> Option<int> {
    match hint {
        LocationHint::Start => Some(0),
        LocationHint::End => Some(slots.len() as int),
        LocationHint::Before(id) => node_index(slots, id),
        LocationHint::After(id) => match node_index(slots, id) {
            Some(index) => Some(index + 1),
            None => None,
        },
    }
}

/// The identity that a hint refers to; an arbitrary one for a hint that refers to none.
pub open spec fn hint_id(hint: LocationHint) -> ID {
    match hint {
        LocationHint::Before(id) => id,
        LocationHint::After(id) => id,
        _ => ID { value: 0 },
    }
}

/// The line that a new node makes.
pub open spec fn node_line(ast: AstView) -> LineView {
    BlockLine { elem: Some(ast), off: 0 }
}

/// The body after a new line has been put among the lines that it is read as.
pub open spec fn body_with_line(body: AstView, index: int, line: AstView) -> AstView {
    block_body(body, body_lines(body).insert(index, node_line(line)))
}

/// The body after one of the lines that it is read as has been taken out.
pub open spec fn body_without_line(body: AstView, index: int) -> AstView {
    block_body(body, body_lines(body).remove(index))
}

/// The line of the body at the index after its node was given another expression, which
/// takes the identity of the node. In a block a binding binds the new expression; any other
/// line, and the one line of a body that is no block, is the new expression, read as a line
/// of its own.
pub open spec fn edited_line(body: AstView, index: int, expression: AstView, id: ID) -> AstView {
    if body.shape is Block {
        with_expression(body_lines(body)[index].elem.unwrap(), expression, id)
    } else {
        with_identity(expression, id)
    }
}

/// The body after the node of one of the lines that it is read as was given another
/// expression.
pub open spec fn body_with_edit(body: AstView, index: int, expression: AstView, id: ID) -> AstView {
    block_body(
        body,
        body_lines(body).update(
            index,
            BlockLine {
                elem: Some(edited_line(body, index, expression, id)),
                off: body_lines(body)[index].off,
            },
        ),
    )
}

/// The node that a line of a block shows.
pub fn node_of_block_line(line: &Line) -> (res: Option<NodeInfo>)
    ensures
        res.is_some() == line_node(line_view(*line)).is_some(),
        res matches Some(node) ==> Some(node@) == line_node(line_view(*line)),
{
    match &line.elem {
        Some(ast) => {
            match DefinitionInfo::from_line_ast(ast, ScopeKind::NonRoot) {
                Some(_) => None,
                None => NodeInfo::from_line_ast(ast),
            }
        },
        None => None,
    }
}

/// Collects the nodes of a block, in the order of its lines.
pub fn block_nodes(ast: &Block) -> (res: Vec<NodeInfo>)
    ensures
        nodes_view(res@) == present(line_nodes(lines_view(ast.lines@))),
{
    let mut nodes: Vec<NodeInfo> = Vec::new();
    let ghost slots = line_nodes(lines_view(ast.lines@));
    let mut i: usize = 0;
    proof {
        assert(nodes_view(nodes@) =~= present(slots.take(0)));
    }
    while i < ast.lines.len()
        invariant
            i <= ast.lines.len(),
            slots == line_nodes(lines_view(ast.lines@)),
            nodes_view(nodes@) == present(slots.take(i as int)),
        decreases ast.lines.len() - i,
    {
        let ghost before = nodes@;
        proof {
            assert(slots.take(i + 1).drop_last() =~= slots.take(i as int));
            assert(slots.take(i + 1).last() == line_node(line_view(ast.lines@[i as int])));
        }
        match node_of_block_line(&ast.lines[i]) {
            Some(node) => {
                nodes.push(node);
                proof {
                    assert(nodes_view(nodes@) =~= nodes_view(before).push(node@));
                }
            },
            None => {},
        }
        i += 1;
    }
    proof {
        assert(slots.take(ast.lines.len() as int) =~= slots);
    }
    nodes
}

/// Collects the node of a body that is no block: the whole body, unless it reads as a
/// definition or has no identity.
pub fn expression_node(ast: Ast) -> (res: Vec<NodeInfo>)
    ensures
        nodes_view(res@) == present(seq![inline_node(ast@)]),
{
    let mut nodes: Vec<NodeInfo> = Vec::new();
    let ghost slots = seq![inline_node(ast@)];
    proof {
        assert(slots.drop_last() =~= Seq::<Option<NodeView>>::empty());
        assert(present(slots.drop_last()) =~= Seq::<NodeView>::empty());
    }
    let node = match DefinitionInfo::from_line_ast(&ast, ScopeKind::NonRoot) {
        Some(_) => None,
        None => NodeInfo::new_expression(ast),
    };
    match node {
        Some(node) => {
            nodes.push(node);
            proof {
                assert(nodes_view(nodes@) =~= Seq::<NodeView>::empty().push(node@));
            }
        },
        None => {
            proof {
                assert(nodes_view(nodes@) =~= Seq::<NodeView>::empty());
            }
        },
    }
    nodes
}

/// The graph of one definition, as its syntax tree describes it.
#[derive(Debug)]
pub struct GraphInfo {
    /// The definition whose body is the graph.
    pub source: DefinitionInfo,
}

impl Clone for GraphInfo {
    fn clone(&self) -> (res: Self)
        ensures
            res.source@ == self.source@,
    {
        GraphInfo { source: self.source.clone() }
    }
}

impl GraphInfo {
    /// The graph of the given definition.
    pub fn from_definition(source: DefinitionInfo) -> (res: GraphInfo)
        ensures
            res.source == source,
    {
        GraphInfo { source }
    }

    /// The body of the graph's definition.
    pub open spec fn body(&self) -> AstView {
        self.source@.body()
    }

    /// Lists the nodes of a body.
    fn from_function_binding(body: &Ast) -> (res: Vec<NodeInfo>)
        ensures
            nodes_view(res@) == body_nodes(body@),
    {
        match &body.shape {
            Shape::Block(block) => block_nodes(block),
            _ => expression_node(body.clone()),
        }
    }

    /// Lists the nodes of the graph, in the order of their lines.
    pub fn nodes(&self) -> (res: Vec<NodeInfo>)
        ensures
            nodes_view(res@) == body_nodes(self.body()),
    {
        GraphInfo::from_function_binding(self.source.body())
    }

    /// Searches the lines of a block for the node of the given identity, and gives the index
    /// of the first line that shows it.
    pub fn find_node_index_in_lines(lines: &Vec<Line>, id: ID) -> (res: Result<
        usize,
        NodeLookupError,
    >)
        ensures
            match node_index(line_nodes(lines_view(lines@)), id) {
                Some(index) => res matches Ok(found) && found == index,
                None => res == Err::<usize, NodeLookupError>(NodeLookupError::NodeNotFound(id)),
            },
    {
        let ghost slots = line_nodes(lines_view(lines@));
        let mut i: usize = 0;
        while i < lines.len()
            invariant
                i <= lines.len(),
                slots == line_nodes(lines_view(lines@)),
                node_index(slots, id) == node_index_from(slots, id, i as int),
            decreases lines.len() - i,
        {
            proof {
                assert(slots[i as int] == line_node(line_view(lines@[i as int])));
            }
            match node_of_block_line(&lines[i]) {
                Some(node) => {
                    if node.id == id {
                        return Ok(i);
                    }
                },
                None => {},
            }
            i += 1;
        }
        Err(NodeLookupError::NodeNotFound(id))
    }

    /// Searches the lines of the graph for the node of the given identity.
    pub fn find_node_index(&self, id: ID) -> (res: Result<usize, NodeLookupError>)
        ensures
            match node_index(body_line_nodes(self.body()), id) {
                Some(index) => res matches Ok(found) && found == index,
                None => res == Err::<usize, NodeLookupError>(NodeLookupError::NodeNotFound(id)),
            },
    {
        let body = self.source.body();
        match &body.shape {
            Shape::Block(block) => GraphInfo::find_node_index_in_lines(&block.lines, id),
            _ => {
                let ghost slots = body_line_nodes(self.body());
                proof {
                    assert(slots[0] == inline_node(body@));
                    assert(node_index_from(slots, id, 1) is None);
                }
                if DefinitionInfo::from_line_ast(body, ScopeKind::NonRoot).is_some() {
                    return Err(NodeLookupError::NodeNotFound(id));
                }
                match body.id {
                    Some(found) => {
                        if found == id {
                            Ok(0)
                        } else {
                            Err(NodeLookupError::NodeNotFound(id))
                        }
                    },
                    None => Err(NodeLookupError::NodeNotFound(id)),
                }
            },
        }
    }

    /// The node of the given identity: the one that the first line shows which shows such a
    /// node.
    pub fn find_node(&self, id: ID) -> (res: Result<NodeInfo, NodeLookupError>)
        ensures
            match node_index(body_line_nodes(self.body()), id) {
                Some(index) => res matches Ok(node) && Some(node@) == body_line_nodes(
                    self.body(),
                )[index],
                None => res == Err::<NodeInfo, NodeLookupError>(
                    NodeLookupError::NodeNotFound(id),
                ),
            },
    {
        proof {
            lemma_node_index(body_line_nodes(self.body()), id, 0);
        }
        let index = match self.find_node_index(id) {
            Ok(index) => index,
            Err(error) => { return Err(error); },
        };
        let body = self.source.body();
        let node = match &body.shape {
            Shape::Block(block) => {
                proof {
                    assert(body_lines(body@) == lines_view(block.lines@));
                    assert(lines_view(block.lines@).len() == block.lines.len());
                    assert(body_line_nodes(body@)[index as int] == line_node(
                        line_view(block.lines@[index as int]),
                    ));
                }
                node_of_block_line(&block.lines[index])
            },
            _ => {
                match DefinitionInfo::from_line_ast(body, ScopeKind::NonRoot) {
                    Some(_) => None,
                    None => NodeInfo::new_expression(body.clone()),
                }
            },
        };
        match node {
            Some(node) => Ok(node),
            None => Err(NodeLookupError::NodeNotFound(id)),
        }
    }

    /// Resolves a hint to the index at which it places a new line.
    pub fn resolve_location(&self, location_hint: LocationHint) -> (res: Result<
        usize,
        NodeLookupError,
    >)
        ensures
            match hint_index(body_line_nodes(self.body()), location_hint) {
                Some(index) => res matches Ok(found) && found == index,
                None => res == Err::<usize, NodeLookupError>(
                    NodeLookupError::NodeNotFound(hint_id(location_hint)),
                ),
            },
            res matches Ok(index) ==> index <= body_lines(self.body()).len(),
    {
        proof {
            lemma_node_index(body_line_nodes(self.body()), hint_id(location_hint), 0);
            lemma_line_count(self.source.ast.rarg);
        }
        let body = self.source.body();
        let ghost slots = body_line_nodes(self.body());
        match location_hint {
            LocationHint::Start => Ok(0),
            LocationHint::End => {
                match &body.shape {
                    Shape::Block(block) => {
                        proof {
                            assert(body_lines(body@) == lines_view(block.lines@));
                            assert(lines_view(block.lines@).len() == block.lines.len());
                            assert(slots.len() == block.lines.len());
                        }
                        Ok(block.lines.len())
                    },
                    _ => Ok(1),
                }
            },
            LocationHint::Before(id) => self.find_node_index(id),
            LocationHint::After(id) => match self.find_node_index(id) {
                Ok(index) => Ok(index + 1),
                Err(error) => Err(error),
            },
        }
    }

    /// Adds the line of a new node to the graph, where the hint places it.
    ///
    /// The body becomes a block of the lines that it was read as, with the new line among
    /// them; every other line stays as it was. Where the hint refers to a node that the
    /// graph does not show, nothing changes.
    pub fn add_node(&mut self, line_ast: Ast, location_hint: LocationHint) -> (res: Result<
        (),
        Error,
    >)
        ensures
            match hint_index(body_line_nodes(old(self).body()), location_hint) {
                Some(index) => {
                    &&& res is Ok
                    &&& final(self).source@ == old(self).source@.with_body(
                        body_with_line(old(self).body(), index, line_ast@),
                    )
                },
                None => {
                    &&& res matches Err(Error::NodeLookup(error))
                    &&& error == NodeLookupError::NodeNotFound(hint_id(location_hint))
                    &&& *final(self) == *old(self)
                },
            },
    {
        let index = match self.resolve_location(location_hint) {
            Ok(index) => index,
            Err(error) => { return Err(Error::NodeLookup(error)); },
        };
        let mut lines = self.source.block_lines();
        let ghost before = lines@;
        let line = BlockLine { elem: Some(line_ast), off: 0 };
        lines.insert(index, line);
        proof {
            assert(lines_view(before).len() == before.len());
            assert(lines_view(lines@) =~= lines_view(before).insert(
                index as int,
                node_line(line_ast@),
            ));
        }
        self.source.set_block_lines(lines);
        Ok(())
    }

    /// Gives a node of the graph another expression; the node keeps its identity and its
    /// line keeps its place.
    ///
    /// The body becomes a block of the lines that it was read as, with the changed line
    /// among them. Nothing changes where the graph does not show the node, or where the
    /// changed line would read as a definition.
    pub fn edit_node(&mut self, node_id: ID, new_expression: Ast) -> (res: Result<(), Error>)
        ensures
            match node_index(body_line_nodes(old(self).body()), node_id) {
                Some(index) => {
                    if definition_of(
                        edited_line(old(self).body(), index, new_expression@, node_id),
                        ScopeKind::NonRoot,
                    ).is_some() {
                        &&& res matches Err(Error::Structure(error))
                        &&& error == StructuralError::NotANode
                        &&& *final(self) == *old(self)
                    } else {
                        &&& res is Ok
                        &&& final(self).source@ == old(self).source@.with_body(
                            body_with_edit(old(self).body(), index, new_expression@, node_id),
                        )
                    }
                },
                None => {
                    &&& res matches Err(Error::NodeLookup(error))
                    &&& error == NodeLookupError::NodeNotFound(node_id)
                    &&& *final(self) == *old(self)
                },
            },
    {
        proof {
            lemma_node_index(body_line_nodes(self.body()), node_id, 0);
            lemma_line_count(self.source.ast.rarg);
        }
        let index = match self.find_node_index(node_id) {
            Ok(index) => index,
            Err(error) => { return Err(Error::NodeLookup(error)); },
        };
        let in_block = match &self.source.body().shape {
            Shape::Block(_) => true,
            _ => false,
        };
        let mut lines = self.source.block_lines();
        let ghost before = lines_view(lines@);
        proof {
            assert(before.len() == lines@.len());
            assert(before[index as int] == line_view(lines@[index as int]));
            assert(body_line_nodes(self.body())[index as int] is Some);
        }
        let BlockLine { elem, off } = lines.remove(index);
        let line = match elem {
            Some(line) => line,
            None => { return Err(Error::NodeLookup(NodeLookupError::NodeNotFound(node_id))); },
        };
        let changed = if in_block {
            set_line_expression(line, new_expression, node_id)
        } else {
            set_line_identity(new_expression, node_id)
        };
        if DefinitionInfo::from_line_ast(&changed, ScopeKind::NonRoot).is_some() {
            return Err(Error::Structure(StructuralError::NotANode));
        }
        let ghost changed_view = changed@;
        lines.insert(index, BlockLine { elem: Some(changed), off });
        proof {
            assert(lines_view(lines@) =~= before.update(
                index as int,
                BlockLine { elem: Some(changed_view), off },
            ));
        }
        self.source.set_block_lines(lines);
        Ok(())
    }

    /// Removes the line of a node from the graph.
    ///
    /// The body becomes a block of the lines that it was read as, without the first line
    /// that shows the node; every other line stays as it was. Where that line was the only
    /// one, the block is left without lines. Nothing changes where the graph does not show
    /// the node.
    pub fn remove_node(&mut self, node_id: ID) -> (res: Result<(), Error>)
        ensures
            match node_index(body_line_nodes(old(self).body()), node_id) {
                Some(index) => {
                    &&& res is Ok
                    &&& final(self).source@ == old(self).source@.with_body(
                        body_without_line(old(self).body(), index),
                    )
                },
                None => {
                    &&& res matches Err(Error::NodeLookup(error))
                    &&& error == NodeLookupError::NodeNotFound(node_id)
                    &&& *final(self) == *old(self)
                },
            },
    {
        proof {
            lemma_node_index(body_line_nodes(self.body()), node_id, 0);
            lemma_line_count(self.source.ast.rarg);
        }
        let index = match self.find_node_index(node_id) {
            Ok(index) => index,
            Err(error) => { return Err(Error::NodeLookup(error)); },
        };
        let mut lines = self.source.block_lines();
        let ghost before = lines@;
        proof {
            assert(lines_view(before).len() == before.len());
        }
        let _ = lines.remove(index);
        proof {
            assert(lines_view(lines@) =~= lines_view(before).remove(index as int));
        }
        self.source.set_block_lines(lines);
        Ok(())
    }
}

/// A body is read as one line for each entry of the list of nodes that its lines show, and
/// the lines can be counted.
pub proof fn lemma_line_count(body: Ast)
    ensures
        body_line_nodes(body@).len() == body_lines(body@).len(),
        body_lines(body@).len() <= usize::MAX,
{
    match body.shape {
        Shape::Block(block) => {
            assert(body_lines(body@) == lines_view(block.lines@));
            assert(lines_view(block.lines@).len() == block.lines.len());
        },
        _ => {},
    }
}

/// Reading the nodes of a graph again gives the same nodes in the same order: each with the
/// same identity and the same expression.
pub proof fn lemma_nodes_read_alike(graph: GraphInfo, first: Seq<NodeInfo>, second: Seq<NodeInfo>)
    requires
        nodes_view(first) == body_nodes(graph.body()),
        nodes_view(second) == body_nodes(graph.body()),
    ensures
        first.len() == second.len(),
        forall|place: int|
            0 <= place < first.len() ==> (#[trigger] first[place]).id == second[place].id
                && first[place].expression@ == second[place].expression@,
{
    assert(nodes_view(first).len() == first.len());
    assert(nodes_view(second).len() == second.len());
    assert forall|place: int| 0 <= place < first.len() implies (#[trigger] first[place]).id
        == second[place].id && first[place].expression@ == second[place].expression@ by {
        assert(nodes_view(first)[place] == first[place]@);
        assert(nodes_view(second)[place] == second[place]@);
    }
}

/// The search for a node skips the lines before the first that shows it.
pub proof fn lemma_node_index(slots: Seq<Option<NodeView>>, id: ID, from: int)
    requires
        0 <= from,
    ensures
        match node_index_from(slots, id, from) {
            Some(index) => {
                &&& from <= index < slots.len()
                &&& shows(slots[index], id)
                &&& forall|j: int| from <= j < index ==> !shows(#[trigger] slots[j], id)
            },
            None => forall|j: int| from <= j < slots.len() ==> !shows(#[trigger] slots[j], id),
        },
    decreases slots.len() - from,
{
    if from < slots.len() && !shows(slots[from], id) {
        lemma_node_index(slots, id, from + 1);
    }
}

} // verus!
