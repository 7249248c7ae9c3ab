//! Writing a changed definition back to the place in the tree that it was read from.

use vstd::prelude::*;
use crate::ast::Ast;
use crate::ast::AstView;
use crate::ast::Block;
use crate::ast::BlockLine;
use crate::ast::Infix;
use crate::ast::Line;
use crate::ast::LineView;
use crate::ast::Shape;
use crate::ast::ShapeView;
use crate::ast::line_view;
use crate::ast::lines_view;
use crate::double_representation::definition::DefinitionInfo;
use crate::double_representation::definition::DefinitionNameView;
use crate::double_representation::definition::DefinitionView;
use crate::double_representation::definition::ScopeKind;
use crate::double_representation::definition::defines;
use crate::double_representation::definition::definition_index;
use crate::double_representation::definition::definition_index_from;
use crate::double_representation::definition::definition_of;
use crate::double_representation::definition::find_definition_index;
use crate::double_representation::definition::right_side;
use crate::double_representation::definition::scope_lines;
use crate::double_representation::definition::with_right_side;
use crate::double_representation::graph::Id;
use crate::double_representation::graph::definition_at;

verus! {

/// The line with another node in it; its trailing spaces stay.
pub open spec fn with_elem(line: LineView, ast: AstView) -> LineView {
    BlockLine { elem: Some(ast), off: line.off }
}

/// The block with other lines; its identity and its indentation stay. Any other node as it
/// is.
pub open spec fn with_lines(body: AstView, lines: Seq<LineView>) -> AstView {
    match body.shape {
        ShapeView::Block { indent, lines: _ } => AstView {
            id: body.id,
            shape: ShapeView::Block { indent, lines },
        },
        _ => body,
    }
}

/// The lines after the definition that the crumbs lead to has been given the new line.
///
/// Only the line of that definition changes, and with it the lines that it is nested in:
/// each keeps everything but its body. Where the crumbs lead to no definition, nothing
/// changes.
pub open spec fn replaced(
    lines: Seq<LineView>,
    kind: ScopeKind,
    crumbs: Seq<DefinitionNameView>,
    line: AstView,
) -> Seq<LineView>
    decreases crumbs.len(),
{
    if crumbs.len() == 0 {
        lines
    } else {
        match definition_index(lines, kind, crumbs[0]) {
            Some(index) => {
                if crumbs.len() == 1 {
                    lines.update(index, with_elem(lines[index], line))
                } else if definition_at(lines, kind, crumbs).is_some() {
                    let outer = lines[index].elem.unwrap();
                    let body = right_side(outer);
                    let inner = replaced(
                        scope_lines(body),
                        ScopeKind::NonRoot,
                        crumbs.skip(1),
                        line,
                    );
                    lines.update(
                        index,
                        with_elem(lines[index], with_right_side(outer, with_lines(body, inner))),
                    )
                } else {
                    lines
                }
            },
            None => lines,
        }
    }
}

/// Whether two lines bind to the same left side: both are infix applications with the same
/// left operand and the same operator.
pub open spec fn same_head(first: AstView, second: AstView) -> bool {
    match (first.shape, second.shape) {
        (
            ShapeView::Infix { larg: first_larg, opr: first_opr, .. },
            ShapeView::Infix { larg: second_larg, opr: second_opr, .. },
        ) => *first_larg == *second_larg && *first_opr == *second_opr,
        _ => false,
    }
}

/// A line that binds to the same left side as a definition defines the same name with the
/// same arguments.
pub proof fn lemma_same_head_defines(first: AstView, second: AstView, kind: ScopeKind)
    requires
        same_head(first, second),
    ensures
        definition_of(first, kind).is_some() == definition_of(second, kind).is_some(),
        definition_of(first, kind) matches Some(definition) ==> definition_of(second, kind)
            == Some(
            DefinitionView { ast: second, name: definition.name, args: definition.args },
        ),
{
}

/// The search for a name skips the lines before the first that defines it.
pub proof fn lemma_definition_index(
    lines: Seq<LineView>,
    kind: ScopeKind,
    name: DefinitionNameView,
    from: int,
)
    requires
        0 <= from,
    ensures
        match definition_index_from(lines, kind, name, from) {
            Some(index) => {
                &&& from <= index < lines.len()
                &&& defines(lines[index], kind, name)
                &&& forall|j: int| from <= j < index ==> !defines(#[trigger] lines[j], kind, name)
            },
            None => forall|j: int|
                from <= j < lines.len() ==> !defines(#[trigger] lines[j], kind, name),
        },
    decreases lines.len() - from,
{
    if from < lines.len() && !defines(lines[from], kind, name) {
        lemma_definition_index(lines, kind, name, from + 1);
    }
}

/// The first line at or after `from` that defines a name is found at its index.
pub proof fn lemma_definition_index_is(
    lines: Seq<LineView>,
    kind: ScopeKind,
    name: DefinitionNameView,
    from: int,
    index: int,
)
    requires
        0 <= from <= index < lines.len(),
        defines(lines[index], kind, name),
        forall|j: int| from <= j < index ==> !defines(#[trigger] lines[j], kind, name),
    ensures
        definition_index_from(lines, kind, name, from) == Some(index),
    decreases index - from,
{
    if from < index {
        lemma_definition_index_is(lines, kind, name, from + 1, index);
    }
}

/// After the definition that the crumbs lead to has been given a new line that binds to the
/// same left side, the crumbs lead to the definition that the new line makes.
pub proof fn lemma_replaced_resolves(
    lines: Seq<LineView>,
    kind: ScopeKind,
    crumbs: Seq<DefinitionNameView>,
    line: AstView,
)
    requires
        definition_at(lines, kind, crumbs) matches Some(definition) && same_head(
            definition.ast,
            line,
        ),
    ensures
        replaced(lines, kind, crumbs, line).len() == lines.len(),
        definition_at(lines, kind, crumbs) matches Some(definition) && definition_at(
            replaced(lines, kind, crumbs, line),
            kind,
            crumbs,
        ) == Some(DefinitionView { ast: line, name: definition.name, args: definition.args }),
    decreases crumbs.len(),
{
    let name = crumbs[0];
    lemma_definition_index(lines, kind, name, 0);
    let index = definition_index(lines, kind, name).unwrap();
    let outer = lines[index].elem.unwrap();
    let after = replaced(lines, kind, crumbs, line);
    if crumbs.len() == 1 {
        lemma_same_head_defines(outer, line, kind);
        assert forall|j: int| 0 <= j < index implies !defines(#[trigger] after[j], kind, name) by {
            assert(after[j] == lines[j]);
        }
        lemma_definition_index_is(after, kind, name, 0, index);
    } else {
        let body = right_side(outer);
        let rest = crumbs.skip(1);
        lemma_replaced_resolves(scope_lines(body), ScopeKind::NonRoot, rest, line);
        let inner = replaced(scope_lines(body), ScopeKind::NonRoot, rest, line);
        let changed = with_right_side(outer, with_lines(body, inner));
        lemma_same_head_defines(outer, changed, kind);
        assert forall|j: int| 0 <= j < index implies !defines(#[trigger] after[j], kind, name) by {
            assert(after[j] == lines[j]);
        }
        lemma_definition_index_is(after, kind, name, 0, index);
        assert(scope_lines(right_side(changed)) == inner);
    }
}

/// Gives the definition that the crumbs lead to, from `depth` on, a new line.
///
/// Tells whether the crumbs lead to a definition; where they do not, the lines keep their
/// value.
pub fn replace_definition(
    lines: &mut Vec<Line>,
    kind: ScopeKind,
    id: &Id,
    depth: usize,
    line: Ast,
) -> (found: bool)
    requires
        depth <= id.crumbs.len(),
    ensures
        found == definition_at(lines_view(old(lines)@), kind, id@.skip(depth as int)).is_some(),
        lines_view(final(lines)@) == replaced(
            lines_view(old(lines)@),
            kind,
            id@.skip(depth as int),
            line@,
        ),
    decreases id.crumbs.len() - depth,
{
    let ghost crumbs = id@.skip(depth as int);
    let ghost before = lines_view(lines@);
    if depth >= id.crumbs.len() {
        return false;
    }
    proof {
        assert(crumbs[0] == id.crumbs@[depth as int]@);
        assert(crumbs.skip(1) =~= id@.skip(depth + 1));
        lemma_definition_index(before, kind, crumbs[0], 0);
    }
    let (index, definition) = match find_definition_index(lines, kind, &id.crumbs[depth]) {
        Some(found) => found,
        None => { return false; },
    };
    let off = lines[index].off;
    proof {
        assert(before[index as int] == line_view(lines@[index as int]));
        assert(before.len() == lines@.len());
    }
    if depth + 1 == id.crumbs.len() {
        lines.set(index, BlockLine { elem: Some(line), off });
        proof {
            assert(lines_view(lines@) =~= before.update(
                index as int,
                with_elem(before[index as int], line@),
            ));
        }
        return true;
    }
    let DefinitionInfo { id: outer_id, ast: infix, name: _, args: _ } = definition;
    let Infix { larg, loff, opr, roff, rarg } = infix;
    let ghost outer = before[index as int].elem.unwrap();
    let ghost body = rarg@;
    proof {
        assert(definition_at(before, kind, crumbs) == definition_at(
            scope_lines(body),
            ScopeKind::NonRoot,
            crumbs.skip(1),
        ));
    }
    let Ast { id: body_id, shape } = rarg;
    match shape {
        Shape::Block(Block { indent, lines: mut inner }) => {
            let found = replace_definition(&mut inner, ScopeKind::NonRoot, id, depth + 1, line);
            if found {
                let new_body = Ast {
                    id: body_id,
                    shape: Shape::Block(Block { indent, lines: inner }),
                };
                let new_line = Ast {
                    id: outer_id,
                    shape: Shape::Infix(Box::new(Infix { larg, loff, opr, roff, rarg: new_body })),
                };
                proof {
                    assert(new_body@ == with_lines(body, lines_view(inner@)));
                    assert(new_line@ == with_right_side(outer, new_body@));
                }
                lines.set(index, BlockLine { elem: Some(new_line), off });
                proof {
                    assert(lines_view(lines@) =~= before.update(
                        index as int,
                        with_elem(before[index as int], new_line@),
                    ));
                }
            }
            found
        },
        _ => {
            proof {
                assert(scope_lines(body) =~= Seq::<LineView>::empty());
            }
            false
        },
    }
}

} // verus!
