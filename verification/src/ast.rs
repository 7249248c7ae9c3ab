//! The syntax tree that the graph is read from.
//!
//! Only the shapes that the graph logic tells apart are modelled: identifiers, operators,
//! other literal tokens, prefix applications, infix applications and blocks of lines.

use vstd::prelude::*;

pub mod text;

verus! {

/// Stable identity of a tree node: the 128 bits of a universally unique identifier.
#[derive(Clone, Copy, Debug, PartialEq, Eq, Structural, Hash)]
pub struct ID {
    /// The identifier, packed into one integer.
    pub value: u128,
}

/// Draws a random identifier.
///
/// Calls `uuid::Uuid::new_v4` and packs its bytes with `Uuid::as_u128`. Nothing is claimed of
/// the random bits. The four version bits are those of version 4 and the two variant bits
/// are `10`, as `new_v4` sets them. The call fails where the operating system gives no random
/// bytes.
#[verifier::external_body]
pub(crate) fn random_id() -> (res: ID)
    ensures
        res.value & 0x0000_0000_0000_f000_c000_0000_0000_0000 == 0x0000_0000_0000_4000_8000_0000_0000_0000,
{
    ID { value: uuid::Uuid::new_v4().as_u128() }
}

/// One line of a block or of a module.
///
/// A line without payload is a blank line. `off` counts the spaces that trail the line.
#[derive(Debug)]
pub struct BlockLine<T> {
    /// What the line holds.
    pub elem: T,
    /// Number of spaces after the payload.
    pub off: usize,
}

/// A line that may be blank, as blocks and modules hold them.
pub type Line = BlockLine<Option<Ast>>;

/// Application of a function to one argument, `func arg`.
#[derive(Debug)]
pub struct Prefix {
    /// The applied function; itself a prefix application when there are more arguments.
    pub func: Ast,
    /// Number of spaces between function and argument.
    pub off: usize,
    /// The last argument.
    pub arg: Ast,
}

/// Application of a binary operator, `larg opr rarg`.
#[derive(Debug)]
pub struct Infix {
    /// Left operand.
    pub larg: Ast,
    /// Number of spaces between left operand and operator.
    pub loff: usize,
    /// The operator.
    pub opr: Ast,
    /// Number of spaces between operator and right operand.
    pub roff: usize,
    /// Right operand.
    pub rarg: Ast,
}

/// A sequence of lines that forms the body of a definition.
#[derive(Debug)]
pub struct Block {
    /// Number of spaces that start each non-blank line.
    pub indent: usize,
    /// The lines, in source order.
    pub lines: Vec<Line>,
}

/// What a tree node is.
#[derive(Debug)]
pub enum Shape {
    /// A variable name, such as `foo`.
    Var { name: String },
    /// A constructor name, such as `Foo`.
    Cons { name: String },
    /// An operator name, such as `+`.
    Opr { name: String },
    /// Any other token, such as a number or a text literal, kept as written.
    Literal { repr: String },
    /// A prefix application.
    Prefix(Box<Prefix>),
    /// An infix application.
    Infix(Box<Infix>),
    /// A block of lines.
    Block(Block),
}

/// A node of the syntax tree.
#[derive(Debug)]
pub struct Ast {
    /// Identity of the node, where it has one.
    pub id: Option<ID>,
    /// The node itself.
    pub shape: Shape,
}

/// The syntax tree of a whole module: its lines at the root scope.
#[derive(Debug)]
pub struct Module {
    /// The lines, in source order.
    pub lines: Vec<Line>,
}

/// Mathematical value of a tree node.
pub ghost struct AstView {
    /// Identity of the node, where it has one.
    pub id: Option<ID>,
    /// The node itself.
    pub shape: ShapeView,
}

/// Mathematical value of a line that may be blank.
pub type LineView = BlockLine<Option<AstView>>;

/// Mathematical value of what a tree node is.
pub ghost enum ShapeView {
    /// A variable name.
    Var { name: Seq<char> },
    /// A constructor name.
    Cons { name: Seq<char> },
    /// An operator name.
    Opr { name: Seq<char> },
    /// Any other token, as written.
    Literal { repr: Seq<char> },
    /// A prefix application.
    Prefix { func: Box<AstView>, off: usize, arg: Box<AstView> },
    /// An infix application.
    Infix { larg: Box<AstView>, loff: usize, opr: Box<AstView>, roff: usize, rarg: Box<AstView> },
    /// A block of lines.
    Block { indent: usize, lines: Seq<LineView> },
}

/// Mathematical value of one line.
pub open spec fn line_view(line: Line) -> LineView
    decreases line,
{
    BlockLine {
        elem: match line.elem {
            Some(ast) => Some(ast.view()),
            None => None,
        },
        off: line.off,
    }
}

/// Mathematical value of a list of lines.
pub open spec fn lines_view(lines: Seq<Line>) -> Seq<LineView>
    decreases lines,
{
    Seq::new(
        lines.len(),
        |i: int|
            if 0 <= i < lines.len() {
                line_view(lines[i])
            } else {
                BlockLine { elem: None, off: 0 }
            },
    )
}

impl View for Ast {
    type V = AstView;

    open spec fn view(&self) -> AstView
        decreases *self,
    {
        AstView {
            id: self.id,
            shape: match self.shape {
                Shape::Var { name } => ShapeView::Var { name: name@ },
                Shape::Cons { name } => ShapeView::Cons { name: name@ },
                Shape::Opr { name } => ShapeView::Opr { name: name@ },
                Shape::Literal { repr } => ShapeView::Literal { repr: repr@ },
                Shape::Prefix(prefix) => ShapeView::Prefix {
                    func: Box::new(prefix.func.view()),
                    off: prefix.off,
                    arg: Box::new(prefix.arg.view()),
                },
                Shape::Infix(infix) => ShapeView::Infix {
                    larg: Box::new(infix.larg.view()),
                    loff: infix.loff,
                    opr: Box::new(infix.opr.view()),
                    roff: infix.roff,
                    rarg: Box::new(infix.rarg.view()),
                },
                Shape::Block(block) => ShapeView::Block {
                    indent: block.indent,
                    lines: lines_view(block.lines@),
                },
            },
        }
    }
}

impl ID {
    /// The identity of the given value.
    pub fn new(value: u128) -> (res: ID)
        ensures
            res.value == value,
    {
        ID { value }
    }
}

impl Line {
    /// A line that holds the given node, without trailing spaces.
    pub fn new(ast: Ast) -> (res: Line)
        ensures
            line_view(res) == (BlockLine { elem: Some(ast@), off: 0 }),
    {
        BlockLine { elem: Some(ast), off: 0 }
    }

    /// A blank line.
    pub fn blank() -> (res: Line)
        ensures
            line_view(res) == (BlockLine { elem: None::<AstView>, off: 0 }),
    {
        BlockLine { elem: None, off: 0 }
    }
}

impl Ast {
    /// A node of the given shape and identity.
    pub fn new(shape: Shape, id: Option<ID>) -> (res: Ast)
        ensures
            res.shape == shape,
            res.id == id,
    {
        Ast { id, shape }
    }

    /// A variable name, without identity.
    pub fn var(name: &str) -> (res: Ast)
        ensures
            res@ == (AstView { id: None, shape: ShapeView::Var { name: name@ } }),
    {
        Ast { id: None, shape: Shape::Var { name: name.to_owned() } }
    }

    /// A constructor name, without identity.
    pub fn cons(name: &str) -> (res: Ast)
        ensures
            res@ == (AstView { id: None, shape: ShapeView::Cons { name: name@ } }),
    {
        Ast { id: None, shape: Shape::Cons { name: name.to_owned() } }
    }

    /// An operator name, without identity.
    pub fn opr(name: &str) -> (res: Ast)
        ensures
            res@ == (AstView { id: None, shape: ShapeView::Opr { name: name@ } }),
    {
        Ast { id: None, shape: Shape::Opr { name: name.to_owned() } }
    }

    /// Any other token, without identity.
    pub fn literal(repr: &str) -> (res: Ast)
        ensures
            res@ == (AstView { id: None, shape: ShapeView::Literal { repr: repr@ } }),
    {
        Ast { id: None, shape: Shape::Literal { repr: repr.to_owned() } }
    }

    /// The application of a function to an argument, without identity.
    pub fn prefix(func: Ast, off: usize, arg: Ast) -> (res: Ast)
        ensures
            res@ == (AstView {
                id: None,
                shape: ShapeView::Prefix { func: Box::new(func@), off, arg: Box::new(arg@) },
            }),
    {
        Ast { id: None, shape: Shape::Prefix(Box::new(Prefix { func, off, arg })) }
    }

    /// The application of an operator to two operands, without identity.
    pub fn infix(larg: Ast, loff: usize, opr: Ast, roff: usize, rarg: Ast) -> (res: Ast)
        ensures
            res@ == (AstView {
                id: None,
                shape: ShapeView::Infix {
                    larg: Box::new(larg@),
                    loff,
                    opr: Box::new(opr@),
                    roff,
                    rarg: Box::new(rarg@),
                },
            }),
    {
        Ast { id: None, shape: Shape::Infix(Box::new(Infix { larg, loff, opr, roff, rarg })) }
    }

    /// A block of the given lines, without identity.
    pub fn block(indent: usize, lines: Vec<Line>) -> (res: Ast)
        ensures
            res@ == (AstView {
                id: None,
                shape: ShapeView::Block { indent, lines: lines_view(lines@) },
            }),
    {
        Ast { id: None, shape: Shape::Block(Block { indent, lines }) }
    }

    /// The same node under the given identity.
    pub fn with_id(self, id: ID) -> (res: Ast)
        ensures
            res@ == (AstView { id: Some(id), shape: self@.shape }),
    {
        Ast { id: Some(id), shape: self.shape }
    }
}

impl Module {
    /// A module of the given lines.
    pub fn new(lines: Vec<Line>) -> (res: Module)
        ensures
            res@ == lines_view(lines@),
    {
        Module { lines }
    }
}

impl Infix {
    /// The tree node that this application makes under the given identity.
    pub open spec fn as_node(self, id: Option<ID>) -> AstView {
        AstView {
            id,
            shape: ShapeView::Infix {
                larg: Box::new(self.larg@),
                loff: self.loff,
                opr: Box::new(self.opr@),
                roff: self.roff,
                rarg: Box::new(self.rarg@),
            },
        }
    }
}

/// Mathematical value of a list of tree nodes.
pub open spec fn asts_view(asts: Seq<Ast>) -> Seq<AstView> {
    asts.map_values(|ast: Ast| ast@)
}

impl View for Module {
    type V = Seq<LineView>;

    open spec fn view(&self) -> Seq<LineView> {
        lines_view(self.lines@)
    }
}

/// Copies one line.
pub fn clone_line(line: &Line) -> (res: Line)
    ensures
        line_view(res) == line_view(*line),
    decreases *line,
{
    let elem = match &line.elem {
        Some(ast) => Some(ast.clone()),
        None => None,
    };
    BlockLine { elem, off: line.off }
}

/// Copies a list of lines.
pub fn clone_lines(lines: &Vec<Line>) -> (res: Vec<Line>)
    ensures
        lines_view(res@) == lines_view(lines@),
    decreases *lines,
{
    let mut res: Vec<Line> = Vec::new();
    let mut i: usize = 0;
    while i < lines.len()
        invariant
            i <= lines.len(),
            res.len() == i,
            forall|j: int| 0 <= j < i ==> line_view(#[trigger] res@[j]) == line_view(lines@[j]),
        decreases lines.len() - i,
    {
        res.push(clone_line(&lines[i]));
        i += 1;
    }
    proof {
        assert(lines_view(res@) =~= lines_view(lines@));
    }
    res
}

impl Clone for Ast {
    fn clone(&self) -> (res: Self)
        ensures
            res@ == self@,
        decreases *self,
    {
        let shape = match &self.shape {
            Shape::Var { name } => Shape::Var { name: name.clone() },
            Shape::Cons { name } => Shape::Cons { name: name.clone() },
            Shape::Opr { name } => Shape::Opr { name: name.clone() },
            Shape::Literal { repr } => Shape::Literal { repr: repr.clone() },
            Shape::Prefix(prefix) => Shape::Prefix(
                Box::new(
                    Prefix {
                        func: prefix.func.clone(),
                        off: prefix.off,
                        arg: prefix.arg.clone(),
                    },
                ),
            ),
            Shape::Infix(infix) => Shape::Infix(
                Box::new(
                    Infix {
                        larg: infix.larg.clone(),
                        loff: infix.loff,
                        opr: infix.opr.clone(),
                        roff: infix.roff,
                        rarg: infix.rarg.clone(),
                    },
                ),
            ),
            Shape::Block(block) => Shape::Block(
                Block { indent: block.indent, lines: clone_lines(&block.lines) },
            ),
        };
        Ast { id: self.id, shape }
    }
}

impl Clone for Infix {
    fn clone(&self) -> (res: Self)
        ensures
            forall|id: Option<ID>| #[trigger] res.as_node(id) == self.as_node(id),
    {
        Infix {
            larg: self.larg.clone(),
            loff: self.loff,
            opr: self.opr.clone(),
            roff: self.roff,
            rarg: self.rarg.clone(),
        }
    }
}

impl Clone for Module {
    fn clone(&self) -> (res: Self)
        ensures
            res@ == self@,
    {
        Module { lines: clone_lines(&self.lines) }
    }
}

} // verus!
