//! Definitions: the named, function-like bindings that a module and its blocks hold.

use vstd::prelude::*;
use crate::ast::Ast;
use crate::ast::AstView;
use crate::ast::Block;
use crate::ast::BlockLine;
use crate::ast::ID;
use crate::ast::Infix;
use crate::ast::Line;
use crate::ast::LineView;
use crate::ast::Module;
use crate::ast::Shape;
use crate::ast::ShapeView;
use crate::ast::asts_view;
use crate::ast::clone_lines;
use crate::ast::lines_view;

verus! {

/// Where a line stands: directly in a module, or inside the body of a definition.
#[derive(Clone, Copy, Debug, PartialEq, Eq, Structural)]
pub enum ScopeKind {
    /// The line is one of a module's own lines.
    Root,
    /// The line is one of the lines of a definition's body.
    NonRoot,
}

/// Name of the operator that binds a body to a name.
pub open spec fn assignment_operator() -> Seq<char> {
    seq!['=']
}

/// Name of the operator that reaches a member of a type.
pub open spec fn access_operator() -> Seq<char> {
    seq!['.']
}

/// Whether the node is the operator of the given name.
pub open spec fn is_operator(ast: AstView, name: Seq<char>) -> bool {
    ast.shape matches ShapeView::Opr { name: n } && n == name
}

/// Whether the node binds something with `=`.
pub open spec fn is_assignment(ast: AstView) -> bool {
    ast.shape matches ShapeView::Infix { opr, .. } && is_operator(*opr, assignment_operator())
}

/// Left side of an infix application; the node itself where it is none.
pub open spec fn left_side(ast: AstView) -> AstView {
    match ast.shape {
        ShapeView::Infix { larg, .. } => *larg,
        _ => ast,
    }
}

/// Right side of an infix application; the node itself where it is none.
pub open spec fn right_side(ast: AstView) -> AstView {
    match ast.shape {
        ShapeView::Infix { rarg, .. } => *rarg,
        _ => ast,
    }
}

/// The name that an identifier node spells.
pub open spec fn identifier_name(ast: AstView) -> Option<Seq<char>> {
    match ast.shape {
        ShapeView::Var { name } => Some(name),
        ShapeView::Cons { name } => Some(name),
        ShapeView::Opr { name } => Some(name),
        _ => None,
    }
}

/// The function of a chain of prefix applications: `f` in `f a b`.
pub open spec fn prefix_head(ast: AstView) -> AstView
    decreases ast,
{
    match ast.shape {
        ShapeView::Prefix { func, .. } => prefix_head(*func),
        _ => ast,
    }
}

/// The arguments of a chain of prefix applications, first to last: `a`, `b` in `f a b`.
pub open spec fn prefix_args(ast: AstView) -> Seq<AstView>
    decreases ast,
{
    match ast.shape {
        ShapeView::Prefix { func, arg, .. } => prefix_args(*func).push(*arg),
        _ => Seq::empty(),
    }
}

/// Mathematical value of a definition's name.
pub ghost struct DefinitionNameView {
    /// The name proper.
    pub name: Seq<char>,
    /// The types that the name is reached through, outermost first; empty for a plain name.
    pub extended_target: Seq<Seq<char>>,
}

/// The definition name that a node spells: an identifier, or identifiers joined by `.`.
pub open spec fn definition_name(ast: AstView) -> Option<DefinitionNameView>
    decreases ast,
{
    match ast.shape {
        ShapeView::Infix { larg, opr, rarg, .. } => {
            if is_operator(*opr, access_operator()) {
                match (definition_name(*larg), identifier_name(*rarg)) {
                    (Some(target), Some(name)) => Some(
                        DefinitionNameView {
                            name,
                            extended_target: target.extended_target.push(target.name),
                        },
                    ),
                    _ => None,
                }
            } else {
                None
            }
        },
        _ => match identifier_name(ast) {
            Some(name) => Some(DefinitionNameView { name, extended_target: Seq::empty() }),
            None => None,
        },
    }
}

/// Whether the node is the operator whose name is the one character `c`.
pub fn is_operator_char(ast: &Ast, c: char) -> (res: bool)
    ensures
        res == is_operator(ast@, seq![c]),
{
    match &ast.shape {
        Shape::Opr { name } => {
            let text = name.as_str();
            if text.unicode_len() == 1 {
                let found = text.get_char(0) == c;
                proof {
                    if found {
                        assert(name@ =~= seq![c]);
                    } else {
                        assert(seq![c][0] == c);
                    }
                }
                found
            } else {
                proof {
                    assert(seq![c].len() == 1);
                }
                false
            }
        },
        _ => false,
    }
}

/// The infix application of a node that binds with `=`.
pub fn to_assignment(ast: &Ast) -> (res: Option<&Infix>)
    ensures
        res.is_some() == is_assignment(ast@),
        res matches Some(infix) ==> infix.as_node(ast.id) == ast@,
{
    match &ast.shape {
        Shape::Infix(infix) => {
            if is_operator_char(&infix.opr, '=') {
                Some(&**infix)
            } else {
                None
            }
        },
        _ => None,
    }
}

/// Name of a definition.
///
/// Two names are equal where they spell the same name and are reached through the same
/// types.
#[derive(Debug, Eq, Hash)]
pub struct DefinitionName {
    /// The name proper.
    pub name: String,
    /// The types that the name is reached through, outermost first; empty for a plain name.
    pub extended_target: Vec<String>,
}

/// Mathematical value of a list of names.
pub open spec fn names_view(names: Seq<String>) -> Seq<Seq<char>> {
    names.map_values(|name: String| name@)
}

impl View for DefinitionName {
    type V = DefinitionNameView;

    open spec fn view(&self) -> DefinitionNameView {
        DefinitionNameView {
            name: self.name@,
            extended_target: names_view(self.extended_target@),
        }
    }
}

impl PartialEq for DefinitionName {
    fn eq(&self, other: &DefinitionName) -> (res: bool) {
        self.same_as(other)
    }
}

impl vstd::std_specs::cmp::PartialEqSpecImpl for DefinitionName {
    open spec fn obeys_eq_spec() -> bool {
        true
    }

    open spec fn eq_spec(&self, other: &DefinitionName) -> bool {
        self@ == other@
    }
}

impl Clone for DefinitionName {
    fn clone(&self) -> (res: Self)
        ensures
            res@ == self@,
    {
        let mut extended_target: Vec<String> = Vec::new();
        let mut i: usize = 0;
        while i < self.extended_target.len()
            invariant
                i <= self.extended_target.len(),
                extended_target.len() == i,
                forall|j: int| 0 <= j < i ==> (#[trigger] extended_target@[j])@ == self.extended_target@[j]@,
            decreases self.extended_target.len() - i,
        {
            extended_target.push(self.extended_target[i].clone());
            i += 1;
        }
        proof {
            assert(names_view(extended_target@) =~= names_view(self.extended_target@));
        }
        DefinitionName { name: self.name.clone(), extended_target }
    }
}

impl DefinitionName {
    /// A name that is reached through no type.
    pub fn new_plain(name: &str) -> (res: DefinitionName)
        ensures
            res@ == (DefinitionNameView { name: name@, extended_target: Seq::empty() }),
    {
        let res = DefinitionName { name: name.to_owned(), extended_target: Vec::new() };
        proof {
            assert(names_view(res.extended_target@) =~= Seq::<Seq<char>>::empty());
        }
        res
    }

    /// Reads the name that a node spells, where it spells one.
    pub fn from_ast(ast: &Ast) -> (res: Option<DefinitionName>)
        ensures
            res.is_some() == definition_name(ast@).is_some(),
            res matches Some(name) ==> Some(name@) == definition_name(ast@),
        decreases *ast,
    {
        match &ast.shape {
            Shape::Infix(infix) => {
                if !is_operator_char(&infix.opr, '.') {
                    return None;
                }
                let target = match DefinitionName::from_ast(&infix.larg) {
                    Some(target) => target,
                    None => { return None; },
                };
                let name = match identifier(&infix.rarg) {
                    Some(name) => name.clone(),
                    None => { return None; },
                };
                let mut extended_target = target.extended_target;
                extended_target.push(target.name);
                let res = DefinitionName { name, extended_target };
                proof {
                    assert(names_view(res.extended_target@) =~= target@.extended_target.push(
                        target@.name,
                    ));
                }
                Some(res)
            },
            _ => match identifier(ast) {
                Some(name) => {
                    let res = DefinitionName { name: name.clone(), extended_target: Vec::new() };
                    proof {
                        assert(names_view(res.extended_target@) =~= Seq::<Seq<char>>::empty());
                    }
                    Some(res)
                },
                None => None,
            },
        }
    }

    /// Whether two names are the same: the same name, reached through the same types.
    pub fn same_as(&self, other: &DefinitionName) -> (res: bool)
        ensures
            res == (self@ == other@),
    {
        if self.name != other.name {
            return false;
        }
        if self.extended_target.len() != other.extended_target.len() {
            proof {
                assert(self@.extended_target.len() != other@.extended_target.len());
            }
            return false;
        }
        let mut i: usize = 0;
        while i < self.extended_target.len()
            invariant
                i <= self.extended_target.len(),
                self.extended_target.len() == other.extended_target.len(),
                forall|j: int| 0 <= j < i ==> self.extended_target@[j]@ == other.extended_target@[j]@,
            decreases self.extended_target.len() - i,
        {
            if self.extended_target[i] != other.extended_target[i] {
                proof {
                    assert(self@.extended_target[i as int] != other@.extended_target[i as int]);
                }
                return false;
            }
            i += 1;
        }
        proof {
            assert(self@.extended_target =~= other@.extended_target);
        }
        true
    }
}

/// The name that an identifier node spells.
pub fn identifier(ast: &Ast) -> (res: Option<&String>)
    ensures
        res.is_some() == identifier_name(ast@).is_some(),
        res matches Some(name) ==> Some(name@) == identifier_name(ast@),
{
    match &ast.shape {
        Shape::Var { name } => Some(name),
        Shape::Cons { name } => Some(name),
        Shape::Opr { name } => Some(name),
        _ => None,
    }
}

/// Collects the arguments of a chain of prefix applications behind those already in `args`.
fn push_prefix_args(ast: &Ast, args: &mut Vec<Ast>)
    ensures
        asts_view(final(args)@) == asts_view(old(args)@) + prefix_args(ast@),
    decreases *ast,
{
    match &ast.shape {
        Shape::Prefix(prefix) => {
            push_prefix_args(&prefix.func, args);
            let ghost before = args@;
            args.push(prefix.arg.clone());
            proof {
                assert(asts_view(args@) =~= asts_view(before).push(prefix.arg@));
                assert(asts_view(args@) =~= asts_view(old(args)@) + prefix_args(ast@));
            }
        },
        _ => {
            proof {
                assert(asts_view(args@) =~= asts_view(old(args)@) + prefix_args(ast@));
            }
        },
    }
}

/// The function of a chain of prefix applications.
pub fn head_of_prefix(ast: &Ast) -> (res: &Ast)
    ensures
        res@ == prefix_head(ast@),
    decreases *ast,
{
    match &ast.shape {
        Shape::Prefix(prefix) => head_of_prefix(&prefix.func),
        _ => ast,
    }
}

/// The arguments of a chain of prefix applications, first to last.
pub fn args_of_prefix(ast: &Ast) -> (res: Vec<Ast>)
    ensures
        asts_view(res@) == prefix_args(ast@),
{
    let mut args: Vec<Ast> = Vec::new();
    proof {
        assert(asts_view(args@) =~= Seq::<AstView>::empty());
    }
    push_prefix_args(ast, &mut args);
    proof {
        assert(Seq::<AstView>::empty() + prefix_args(ast@) =~= prefix_args(ast@));
    }
    args
}

/// Indentation given to a body that becomes a block.
pub const DEFAULT_INDENT: usize = 4;

/// Mathematical value of a definition.
pub ghost struct DefinitionView {
    /// The whole line: an infix application of `=`.
    pub ast: AstView,
    /// The name that the line defines.
    pub name: DefinitionNameView,
    /// The arguments that the definition takes.
    pub args: Seq<AstView>,
}

impl DefinitionView {
    /// The body: what stands right of `=`.
    pub open spec fn body(self) -> AstView {
        right_side(self.ast)
    }

    /// The same definition with another body.
    pub open spec fn with_body(self, body: AstView) -> DefinitionView {
        DefinitionView { ast: with_right_side(self.ast, body), name: self.name, args: self.args }
    }
}

/// The infix application with another right side; any other node as it is.
pub open spec fn with_right_side(ast: AstView, rarg: AstView) -> AstView {
    match ast.shape {
        ShapeView::Infix { larg, loff, opr, roff, rarg: _ } => AstView {
            id: ast.id,
            shape: ShapeView::Infix { larg, loff, opr, roff, rarg: Box::new(rarg) },
        },
        _ => ast,
    }
}

/// The definition that a line's node makes in the given scope, where it makes one.
///
/// The node binds with `=`, and its left side is a name followed by arguments. At the root
/// of a module there may be no arguments; inside a body a binding without arguments is a
/// variable, not a definition.
pub open spec fn definition_of(ast: AstView, kind: ScopeKind) -> Option<DefinitionView> {
    if is_assignment(ast) {
        let args = prefix_args(left_side(ast));
        match definition_name(prefix_head(left_side(ast))) {
            Some(name) => {
                if kind == ScopeKind::NonRoot && args.len() == 0 {
                    None
                } else {
                    Some(DefinitionView { ast, name, args })
                }
            },
            None => None,
        }
    } else {
        None
    }
}

/// The lines that a body is read as: those of a block, or the one line of any other body.
pub open spec fn body_lines(body: AstView) -> Seq<LineView> {
    match body.shape {
        ShapeView::Block { lines, .. } => lines,
        _ => seq![BlockLine { elem: Some(body), off: 0 }],
    }
}

/// The lines among which a body may hold definitions: those of a block, else none.
pub open spec fn scope_lines(body: AstView) -> Seq<LineView> {
    match body.shape {
        ShapeView::Block { lines, .. } => lines,
        _ => Seq::empty(),
    }
}

/// The indentation of a block made from the lines of the given body.
pub open spec fn block_indent(body: AstView) -> usize {
    match body.shape {
        ShapeView::Block { indent, .. } => indent,
        _ => DEFAULT_INDENT,
    }
}

/// The body that the given lines make in place of `body`: a block without identity.
pub open spec fn block_body(body: AstView, lines: Seq<LineView>) -> AstView {
    AstView { id: None, shape: ShapeView::Block { indent: block_indent(body), lines } }
}

/// The definition that a line makes in the given scope, where it makes one.
pub open spec fn line_definition(line: LineView, kind: ScopeKind) -> Option<DefinitionView> {
    match line.elem {
        Some(ast) => definition_of(ast, kind),
        None => None,
    }
}

/// Whether the line defines the given name in the given scope.
pub open spec fn defines(line: LineView, kind: ScopeKind, name: DefinitionNameView) -> bool {
    line_definition(line, kind) matches Some(definition) && definition.name == name
}

/// Index of the first line at or after `from` that defines the name.
pub open spec fn definition_index_from(
    lines: Seq<LineView>,
    kind: ScopeKind,
    name: DefinitionNameView,
    from: int,
) -> Option<int>
    decreases lines.len() - from,
{
    if from < 0 || from >= lines.len() {
        None
    } else if defines(lines[from], kind, name) {
        Some(from)
    } else {
        definition_index_from(lines, kind, name, from + 1)
    }
}

/// Index of the first line that defines the name.
pub open spec fn definition_index(
    lines: Seq<LineView>,
    kind: ScopeKind,
    name: DefinitionNameView,
) -> Option<int> {
    definition_index_from(lines, kind, name, 0)
}

/// The definition of the name among the lines: that of the first line that defines it.
pub open spec fn definition_in(
    lines: Seq<LineView>,
    kind: ScopeKind,
    name: DefinitionNameView,
) -> Option<DefinitionView> {
    match definition_index(lines, kind, name) {
        Some(index) => line_definition(lines[index], kind),
        None => None,
    }
}

/// A named, function-like binding: one line `name args = body`.
#[derive(Debug)]
pub struct DefinitionInfo {
    /// Identity of the line's node, where it has one.
    pub id: Option<ID>,
    /// The line: an infix application of `=`.
    pub ast: Infix,
    /// The name that the line defines.
    pub name: DefinitionName,
    /// The arguments that the definition takes.
    pub args: Vec<Ast>,
}

impl View for DefinitionInfo {
    type V = DefinitionView;

    open spec fn view(&self) -> DefinitionView {
        DefinitionView {
            ast: self.ast.as_node(self.id),
            name: self.name@,
            args: asts_view(self.args@),
        }
    }
}

impl Clone for DefinitionInfo {
    fn clone(&self) -> (res: Self)
        ensures
            res@ == self@,
    {
        let mut args: Vec<Ast> = Vec::new();
        let mut i: usize = 0;
        while i < self.args.len()
            invariant
                i <= self.args.len(),
                args.len() == i,
                forall|j: int| 0 <= j < i ==> (#[trigger] args@[j])@ == self.args@[j]@,
            decreases self.args.len() - i,
        {
            args.push(self.args[i].clone());
            i += 1;
        }
        proof {
            assert(asts_view(args@) =~= asts_view(self.args@));
        }
        DefinitionInfo { id: self.id, ast: self.ast.clone(), name: self.name.clone(), args }
    }
}

impl DefinitionInfo {
    /// Reads a line's node as a definition in the given scope.
    pub fn from_line_ast(ast: &Ast, kind: ScopeKind) -> (res: Option<DefinitionInfo>)
        ensures
            res.is_some() == definition_of(ast@, kind).is_some(),
            res matches Some(definition) ==> Some(definition@) == definition_of(ast@, kind),
    {
        let infix = match to_assignment(ast) {
            Some(infix) => infix,
            None => { return None; },
        };
        let name = match DefinitionName::from_ast(head_of_prefix(&infix.larg)) {
            Some(name) => name,
            None => { return None; },
        };
        let args = args_of_prefix(&infix.larg);
        if kind == ScopeKind::NonRoot && args.len() == 0 {
            return None;
        }
        Some(DefinitionInfo { id: ast.id, ast: infix.clone(), name, args })
    }

    /// The body of the definition: what stands right of `=`.
    pub fn body(&self) -> (res: &Ast)
        ensures
            res@ == self@.body(),
    {
        &self.ast.rarg
    }

    /// The whole line of the definition as a tree node.
    pub fn line_ast(&self) -> (res: Ast)
        ensures
            res@ == self@.ast,
    {
        let infix = self.ast.clone();
        proof {
            assert(infix.as_node(self.id) == self.ast.as_node(self.id));
        }
        Ast { id: self.id, shape: Shape::Infix(Box::new(infix)) }
    }

    /// The lines of the body: those of a block, or the one line that any other body makes.
    pub fn block_lines(&self) -> (res: Vec<Line>)
        ensures
            lines_view(res@) == body_lines(self@.body()),
    {
        match &self.ast.rarg.shape {
            Shape::Block(block) => clone_lines(&block.lines),
            _ => {
                let mut lines: Vec<Line> = Vec::new();
                lines.push(BlockLine { elem: Some(self.ast.rarg.clone()), off: 0 });
                proof {
                    assert(lines_view(lines@) =~= body_lines(self@.body()));
                }
                lines
            },
        }
    }

    /// Makes the given lines the body of the definition.
    ///
    /// The body becomes a block of exactly these lines, with the indentation of the block
    /// that it was, or the default one. The block has no identity.
    pub fn set_block_lines(&mut self, lines: Vec<Line>)
        ensures
            final(self)@ == old(self)@.with_body(
                block_body(old(self)@.body(), lines_view(lines@)),
            ),
    {
        let indent = match &self.ast.rarg.shape {
            Shape::Block(block) => block.indent,
            _ => DEFAULT_INDENT,
        };
        self.ast.rarg = Ast { id: None, shape: Shape::Block(Block { indent, lines }) };
    }

    /// Looks up a definition among the lines of the body.
    pub fn find_definition(&self, name: &DefinitionName) -> (res: Option<DefinitionInfo>)
        ensures
            res.is_some() == definition_in(
                scope_lines(self@.body()),
                ScopeKind::NonRoot,
                name@,
            ).is_some(),
            res matches Some(definition) ==> Some(definition@) == definition_in(
                scope_lines(self@.body()),
                ScopeKind::NonRoot,
                name@,
            ),
    {
        match &self.ast.rarg.shape {
            Shape::Block(block) => find_definition_in_lines(
                &block.lines,
                ScopeKind::NonRoot,
                name,
            ),
            _ => None,
        }
    }
}

impl Module {
    /// Looks up a definition among the lines of the module.
    pub fn find_definition(&self, name: &DefinitionName) -> (res: Option<DefinitionInfo>)
        ensures
            res.is_some() == definition_in(self@, ScopeKind::Root, name@).is_some(),
            res matches Some(definition) ==> Some(definition@) == definition_in(
                self@,
                ScopeKind::Root,
                name@,
            ),
    {
        find_definition_in_lines(&self.lines, ScopeKind::Root, name)
    }
}

/// Finds the first line that defines the name, with the definition that it makes.
pub fn find_definition_index(lines: &Vec<Line>, kind: ScopeKind, name: &DefinitionName) -> (res:
    Option<(usize, DefinitionInfo)>)
    ensures
        res.is_some() == definition_index(lines_view(lines@), kind, name@).is_some(),
        res matches Some((index, definition)) ==> {
            &&& Some(index as int) == definition_index(lines_view(lines@), kind, name@)
            &&& Some(definition@) == definition_in(lines_view(lines@), kind, name@)
        },
{
    let mut i: usize = 0;
    while i < lines.len()
        invariant
            i <= lines.len(),
            definition_index(lines_view(lines@), kind, name@) == definition_index_from(
                lines_view(lines@),
                kind,
                name@,
                i as int,
            ),
        decreases lines.len() - i,
    {
        proof {
            assert(lines_view(lines@)[i as int] == crate::ast::line_view(lines@[i as int]));
        }
        if let Some(ast) = &lines[i].elem {
            if let Some(definition) = DefinitionInfo::from_line_ast(ast, kind) {
                if definition.name.same_as(name) {
                    return Some((i, definition));
                }
            }
        }
        i += 1;
    }
    None
}

/// Finds the definition of the name among the lines: that of the first line that defines it.
pub fn find_definition_in_lines(lines: &Vec<Line>, kind: ScopeKind, name: &DefinitionName) -> (res:
    Option<DefinitionInfo>)
    ensures
        res.is_some() == definition_in(lines_view(lines@), kind, name@).is_some(),
        res matches Some(definition) ==> Some(definition@) == definition_in(
            lines_view(lines@),
            kind,
            name@,
        ),
{
    match find_definition_index(lines, kind, name) {
        Some((_, definition)) => Some(definition),
        None => None,
    }
}

} // verus!
