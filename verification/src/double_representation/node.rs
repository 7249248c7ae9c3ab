//! Nodes: the lines of a definition's body that the graph shows.

use vstd::prelude::*;
use crate::ast::Ast;
use crate::ast::AstView;
use crate::ast::ID;
use crate::ast::Infix;
use crate::ast::Shape;
use crate::double_representation::definition::is_assignment;
use crate::double_representation::definition::is_operator_char;
use crate::double_representation::definition::right_side;
use crate::double_representation::definition::to_assignment;
use crate::double_representation::definition::with_right_side;

verus! {

/// Mathematical value of a node.
pub ghost struct NodeView {
    /// Identity of the node: that of its expression.
    pub id: ID,
    /// The expression that the node computes.
    pub expression: AstView,
}

/// The node that wraps an expression: it takes the identity of the expression, and there is
/// none where the expression has no identity.
pub open spec fn expression_node_of(ast: AstView) -> Option<NodeView> {
    match ast.id {
        Some(id) => Some(NodeView { id, expression: ast }),
        None => None,
    }
}

/// The node that a line makes: for a binding `name = expression` the node of the bound
/// expression, for any other line the node of the whole line.
pub open spec fn node_of_line(ast: AstView) -> Option<NodeView> {
    if is_assignment(ast) {
        expression_node_of(right_side(ast))
    } else {
        expression_node_of(ast)
    }
}

/// A line of a definition's body, seen as a node of the graph.
#[derive(Debug)]
pub struct NodeInfo {
    /// Identity of the node: that of its expression.
    pub id: ID,
    /// The expression that the node computes.
    pub expression: Ast,
}

impl View for NodeInfo {
    type V = NodeView;

    open spec fn view(&self) -> NodeView {
        NodeView { id: self.id, expression: self.expression@ }
    }
}

impl Clone for NodeInfo {
    fn clone(&self) -> (res: Self)
        ensures
            res@ == self@,
    {
        NodeInfo { id: self.id, expression: self.expression.clone() }
    }
}

/// Mathematical value of a list of nodes.
pub open spec fn nodes_view(nodes: Seq<NodeInfo>) -> Seq<NodeView> {
    nodes.map_values(|node: NodeInfo| node@)
}

impl NodeInfo {
    /// Reads a line as a node: a binding gives the node of what it binds.
    pub fn from_line_ast(ast: &Ast) -> (res: Option<NodeInfo>)
        ensures
            res.is_some() == node_of_line(ast@).is_some(),
            res matches Some(node) ==> Some(node@) == node_of_line(ast@),
    {
        match to_assignment(ast) {
            Some(infix) => NodeInfo::new_expression(infix.rarg.clone()),
            None => NodeInfo::new_expression(ast.clone()),
        }
    }

    /// Wraps an expression as a node, where the expression has an identity.
    pub fn new_expression(ast: Ast) -> (res: Option<NodeInfo>)
        ensures
            res.is_some() == expression_node_of(ast@).is_some(),
            res matches Some(node) ==> Some(node@) == expression_node_of(ast@),
    {
        match ast.id {
            Some(id) => Some(NodeInfo { id, expression: ast }),
            None => None,
        }
    }

    /// Identity of the node.
    pub fn id(&self) -> (res: ID)
        ensures
            res == self@.id,
    {
        self.id
    }

    /// The expression that the node computes.
    pub fn expression(&self) -> (res: &Ast)
        ensures
            res@ == self@.expression,
    {
        &self.expression
    }
}

/// The node with the given identity in place of its own.
pub open spec fn identified(ast: AstView, id: ID) -> AstView {
    AstView { id: Some(id), shape: ast.shape }
}

/// The line whose node has the given identity: a binding has it on the bound expression, any
/// other line on the whole line.
pub open spec fn with_identity(ast: AstView, id: ID) -> AstView {
    if is_assignment(ast) {
        with_right_side(ast, identified(right_side(ast), id))
    } else {
        identified(ast, id)
    }
}

/// The identity that the node of a line has, where the line gives it one.
pub open spec fn line_identity(ast: AstView) -> Option<ID> {
    if is_assignment(ast) {
        right_side(ast).id
    } else {
        ast.id
    }
}

/// The identity that the node of a line has, where the line gives it one.
pub fn identity_of_line(ast: &Ast) -> (res: Option<ID>)
    ensures
        res == line_identity(ast@),
{
    match to_assignment(ast) {
        Some(infix) => infix.rarg.id,
        None => ast.id,
    }
}

/// Gives the node of a line the given identity.
pub fn set_line_identity(ast: Ast, id: ID) -> (res: Ast)
    ensures
        res@ == with_identity(ast@, id),
{
    let ghost before = ast@;
    let Ast { id: line_id, shape } = ast;
    match shape {
        Shape::Infix(infix) => {
            let binds = is_operator_char(&infix.opr, '=');
            proof {
                assert(before == infix.as_node(line_id));
                assert(binds == is_assignment(before));
            }
            let Infix { larg, loff, opr, roff, rarg } = *infix;
            if binds {
                let bound = Ast { id: Some(id), shape: rarg.shape };
                proof {
                    assert(bound@ == identified(rarg@, id));
                }
                Ast {
                    id: line_id,
                    shape: Shape::Infix(Box::new(Infix { larg, loff, opr, roff, rarg: bound })),
                }
            } else {
                Ast {
                    id: Some(id),
                    shape: Shape::Infix(Box::new(Infix { larg, loff, opr, roff, rarg })),
                }
            }
        },
        other => {
            let res = Ast { id: Some(id), shape: other };
            proof {
                assert(!is_assignment(before));
                assert(res@.shape == before.shape);
            }
            res
        },
    }
}

/// The line after its node was given another expression, which takes the identity of the
/// node: a binding binds the new expression; any other line is the new expression, read as a
/// line of its own.
pub open spec fn with_expression(line: AstView, expression: AstView, id: ID) -> AstView {
    if is_assignment(line) {
        with_right_side(line, identified(expression, id))
    } else {
        with_identity(expression, id)
    }
}

/// Gives the node of a line another expression, which takes the given identity.
pub fn set_line_expression(line: Ast, expression: Ast, id: ID) -> (res: Ast)
    ensures
        res@ == with_expression(line@, expression@, id),
{
    let ghost before = line@;
    let Ast { id: line_id, shape } = line;
    match shape {
        Shape::Infix(infix) => {
            let binds = is_operator_char(&infix.opr, '=');
            proof {
                assert(before == infix.as_node(line_id));
                assert(binds == is_assignment(before));
            }
            if binds {
                let bound = Ast { id: Some(id), shape: expression.shape };
                proof {
                    assert(bound@ == identified(expression@, id));
                }
                let Infix { larg, loff, opr, roff, rarg: _ } = *infix;
                Ast {
                    id: line_id,
                    shape: Shape::Infix(Box::new(Infix { larg, loff, opr, roff, rarg: bound })),
                }
            } else {
                set_line_identity(expression, id)
            }
        },
        _ => {
            proof {
                assert(!is_assignment(before));
            }
            set_line_identity(expression, id)
        },
    }
}

/// A line that was given an identity makes a node of that identity, and it reads as a
/// definition exactly where it did before.
pub proof fn lemma_with_identity(ast: AstView, id: ID)
    ensures
        node_of_line(with_identity(ast, id)) matches Some(node) && node.id == id,
        line_identity(with_identity(ast, id)) == Some(id),
        is_assignment(with_identity(ast, id)) == is_assignment(ast),
{
}

} // verus!
