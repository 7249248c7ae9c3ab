//! The text that a syntax tree stands for.

use vstd::prelude::*;
use vstd::string::StringExecFns;
use crate::ast::Ast;
use crate::ast::AstView;
use crate::ast::Line;
use crate::ast::LineView;
use crate::ast::Module;
use crate::ast::Shape;
use crate::ast::ShapeView;
use crate::ast::line_view;
use crate::ast::lines_view;

verus! {

/// A run of spaces.
pub open spec fn spaces(count: nat) -> Seq<char> {
    Seq::new(count, |i: int| ' ')
}

/// The text of a tree node.
///
/// A token is its own text. An application is the texts of its parts, with the spaces
/// between them. A block starts each of its lines on a new row of the text.
pub open spec fn repr(ast: AstView) -> Seq<char>
    decreases ast, 0nat,
{
    match ast.shape {
        ShapeView::Var { name } => name,
        ShapeView::Cons { name } => name,
        ShapeView::Opr { name } => name,
        ShapeView::Literal { repr } => repr,
        ShapeView::Prefix { func, off, arg } => repr(*func) + spaces(off as nat) + repr(*arg),
        ShapeView::Infix { larg, loff, opr, roff, rarg } => repr(*larg) + spaces(loff as nat)
            + repr(*opr) + spaces(roff as nat) + repr(*rarg),
        ShapeView::Block { indent, lines } => block_repr(lines, indent, lines.len()),
    }
}

/// The text of the first `count` lines of a block: each on a row of its own, indented where
/// it holds something, and followed by its trailing spaces.
pub open spec fn block_repr(lines: Seq<LineView>, indent: usize, count: nat) -> Seq<char>
    decreases lines, count,
{
    if count == 0 || count > lines.len() {
        Seq::empty()
    } else {
        block_repr(lines, indent, (count - 1) as nat) + seq!['\n'] + (match lines[count
            - 1].elem {
            Some(ast) => spaces(indent as nat) + repr(ast),
            None => Seq::empty(),
        }) + spaces(lines[count - 1].off as nat)
    }
}

/// The text of a line at the root of a module.
pub open spec fn root_line_repr(line: LineView) -> Seq<char> {
    (match line.elem {
        Some(ast) => repr(ast),
        None => Seq::empty(),
    }) + spaces(line.off as nat)
}

/// The text of the first `count` lines of a module: the lines, one per row.
pub open spec fn module_repr(lines: Seq<LineView>, count: nat) -> Seq<char>
    decreases count,
{
    if count == 0 || count > lines.len() {
        Seq::empty()
    } else if count == 1 {
        root_line_repr(lines[0])
    } else {
        module_repr(lines, (count - 1) as nat) + seq!['\n'] + root_line_repr(lines[count - 1])
    }
}

/// Appends a run of spaces to a text.
pub fn push_spaces(text: &mut String, count: usize)
    ensures
        final(text)@ == old(text)@ + spaces(count as nat),
{
    let mut i: usize = 0;
    proof {
        assert(text@ =~= old(text)@ + spaces(0));
    }
    while i < count
        invariant
            i <= count,
            text@ == old(text)@ + spaces(i as nat),
        decreases count - i,
    {
        proof {
            reveal_strlit(" ");
        }
        text.append(" ");
        i += 1;
        proof {
            assert(" "@ =~= seq![' ']);
            assert(text@ =~= old(text)@ + spaces(i as nat));
        }
    }
}

/// The text of the lines of a block.
pub fn block_text(lines: &Vec<Line>, indent: usize) -> (res: String)
    ensures
        res@ == block_repr(lines_view(lines@), indent, lines@.len()),
    decreases *lines,
{
    let mut text = String::new();
    let ghost views = lines_view(lines@);
    let mut i: usize = 0;
    while i < lines.len()
        invariant
            i <= lines.len(),
            views == lines_view(lines@),
            text@ == block_repr(views, indent, i as nat),
        decreases lines.len() - i,
    {
        let ghost before = text@;
        proof {
            reveal_strlit("\n");
            assert(views[i as int] == line_view(lines@[i as int]));
        }
        text.append("\n");
        proof {
            assert("\n"@ =~= seq!['\n']);
        }
        match &lines[i].elem {
            Some(ast) => {
                push_spaces(&mut text, indent);
                let inner = ast.repr();
                text.append(inner.as_str());
            },
            None => {},
        }
        push_spaces(&mut text, lines[i].off);
        i += 1;
        proof {
            assert(text@ =~= block_repr(views, indent, i as nat));
        }
    }
    text
}

impl Ast {
    /// The text of the node.
    pub fn repr(&self) -> (res: String)
        ensures
            res@ == repr(self@),
        decreases *self,
    {
        match &self.shape {
            Shape::Var { name } => name.clone(),
            Shape::Cons { name } => name.clone(),
            Shape::Opr { name } => name.clone(),
            Shape::Literal { repr } => repr.clone(),
            Shape::Prefix(prefix) => {
                let mut text = prefix.func.repr();
                push_spaces(&mut text, prefix.off);
                let arg = prefix.arg.repr();
                text.append(arg.as_str());
                text
            },
            Shape::Infix(infix) => {
                let mut text = infix.larg.repr();
                push_spaces(&mut text, infix.loff);
                let opr = infix.opr.repr();
                text.append(opr.as_str());
                push_spaces(&mut text, infix.roff);
                let rarg = infix.rarg.repr();
                text.append(rarg.as_str());
                text
            },
            Shape::Block(block) => {
                proof {
                    assert(lines_view(block.lines@).len() == block.lines@.len());
                }
                block_text(&block.lines, block.indent)
            },
        }
    }
}

impl Module {
    /// The text of the module.
    pub fn repr(&self) -> (res: String)
        ensures
            res@ == module_repr(self@, self@.len()),
    {
        let mut text = String::new();
        let ghost views = lines_view(self.lines@);
        let mut i: usize = 0;
        while i < self.lines.len()
            invariant
                i <= self.lines.len(),
                views == lines_view(self.lines@),
                text@ == module_repr(views, i as nat),
            decreases self.lines.len() - i,
        {
            proof {
                reveal_strlit("\n");
                assert(views[i as int] == line_view(self.lines@[i as int]));
            }
            if i > 0 {
                text.append("\n");
                proof {
                    assert("\n"@ =~= seq!['\n']);
                }
            }
            match &self.lines[i].elem {
                Some(ast) => {
                    let inner = ast.repr();
                    text.append(inner.as_str());
                },
                None => {},
            }
            push_spaces(&mut text, self.lines[i].off);
            i += 1;
            proof {
                assert(text@ =~= module_repr(views, i as nat));
            }
        }
        text
    }
}

} // verus!
