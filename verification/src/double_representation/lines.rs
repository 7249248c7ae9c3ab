//! How the nodes of a graph follow its lines.
//!
//! A graph is read from a list of lines, each of which shows a node or none. What is proved
//! here relates the list of nodes to the list of lines: the nodes keep the order of their
//! lines, a new line adds at most its own node, and a line that goes takes at most its own
//! node with it.

use vstd::prelude::*;
use crate::ast::AstView;
use crate::ast::BlockLine;
use crate::ast::ID;
use crate::ast::LineView;
use crate::ast::ShapeView;
use crate::ast::text::repr;
use crate::double_representation::definition::ScopeKind;
use crate::double_representation::definition::body_lines;
use crate::double_representation::definition::definition_of;
use crate::double_representation::definition::is_assignment;
use crate::double_representation::graph::body_line_nodes;
use crate::double_representation::graph::body_nodes;
use crate::double_representation::graph::body_with_edit;
use crate::double_representation::graph::body_with_line;
use crate::double_representation::graph::body_without_line;
use crate::double_representation::graph::edited_line;
use crate::double_representation::graph::inline_node;
use crate::double_representation::graph::lemma_node_index;
use crate::double_representation::graph::line_node;
use crate::double_representation::graph::line_nodes;
use crate::double_representation::graph::node_index;
use crate::double_representation::graph::node_index_from;
use crate::double_representation::graph::node_line;
use crate::double_representation::graph::present;
use crate::double_representation::graph::shows;
use crate::double_representation::node::NodeView;
use crate::double_representation::node::lemma_with_identity;
use crate::double_representation::node::line_identity;
use crate::double_representation::node::node_of_line;

verus! {

/// The number of nodes that the lines before the given one show: the place, among the nodes,
/// of the node of that line.
pub open spec fn rank(slots: Seq<Option<NodeView>>, index: int) -> int {
    present(slots.take(index)).len() as int
}

/// The nodes of one line.
pub proof fn lemma_present_one(slot: Option<NodeView>)
    ensures
        present(seq![slot]) == match slot {
            Some(node) => seq![node],
            None => Seq::empty(),
        },
{
    assert(seq![slot].drop_last() =~= Seq::<Option<NodeView>>::empty());
    assert(present(seq![slot].drop_last()) =~= Seq::<NodeView>::empty());
    match slot {
        Some(node) => {
            assert(Seq::<NodeView>::empty().push(node) =~= seq![node]);
        },
        None => {},
    }
}

/// The nodes of two lists of lines, one after the other, are the nodes of the first followed
/// by the nodes of the second.
pub proof fn lemma_present_concat(first: Seq<Option<NodeView>>, second: Seq<Option<NodeView>>)
    ensures
        present(first + second) == present(first) + present(second),
    decreases second.len(),
{
    if second.len() == 0 {
        assert(first + second =~= first);
        assert(present(first) + present(second) =~= present(first));
    } else {
        lemma_present_concat(first, second.drop_last());
        assert((first + second).drop_last() =~= first + second.drop_last());
        assert((first + second).last() == second.last());
        match second.last() {
            Some(node) => {
                assert((present(first) + present(second.drop_last())).push(node) =~= present(first)
                    + present(second.drop_last()).push(node));
            },
            None => {},
        }
    }
}

/// The nodes of a list of lines are those of the lines before an index followed by those of
/// the lines from it on.
pub proof fn lemma_present_split(slots: Seq<Option<NodeView>>, index: int)
    requires
        0 <= index <= slots.len(),
    ensures
        present(slots) == present(slots.take(index)) + present(slots.skip(index)),
{
    assert(slots =~= slots.take(index) + slots.skip(index));
    lemma_present_concat(slots.take(index), slots.skip(index));
}

/// A new line adds its own node, at the place that the lines before it give, and no other;
/// a line that shows no node adds none.
pub proof fn lemma_present_insert(
    slots: Seq<Option<NodeView>>,
    index: int,
    slot: Option<NodeView>,
)
    requires
        0 <= index <= slots.len(),
    ensures
        0 <= rank(slots, index) <= present(slots).len(),
        present(slots.insert(index, slot)) == match slot {
            Some(node) => present(slots).insert(rank(slots, index), node),
            None => present(slots),
        },
{
    let head = slots.take(index);
    let tail = slots.skip(index);
    lemma_present_split(slots, index);
    lemma_present_one(slot);
    assert(slots.insert(index, slot) =~= (head + seq![slot]) + tail);
    lemma_present_concat(head + seq![slot], tail);
    lemma_present_concat(head, seq![slot]);
    match slot {
        Some(node) => {
            assert((present(head) + seq![node]) + present(tail) =~= (present(head) + present(
                tail,
            )).insert(present(head).len() as int, node));
        },
        None => {
            assert(present(head) + Seq::<NodeView>::empty() =~= present(head));
        },
    }
}

/// A line that goes takes its own node with it, and no other; a line that shows no node
/// takes none.
pub proof fn lemma_present_remove(slots: Seq<Option<NodeView>>, index: int)
    requires
        0 <= index < slots.len(),
    ensures
        slots[index] is Some ==> 0 <= rank(slots, index) < present(slots).len() && present(
            slots,
        )[rank(slots, index)] == slots[index].unwrap(),
        present(slots.remove(index)) == match slots[index] {
            Some(_) => present(slots).remove(rank(slots, index)),
            None => present(slots),
        },
{
    let head = slots.take(index);
    let tail = slots.skip(index + 1);
    let slot = slots[index];
    lemma_present_one(slot);
    assert(slots =~= (head + seq![slot]) + tail);
    lemma_present_concat(head + seq![slot], tail);
    lemma_present_concat(head, seq![slot]);
    assert(slots.remove(index) =~= head + tail);
    lemma_present_concat(head, tail);
    match slot {
        Some(node) => {
            assert(((present(head) + seq![node]) + present(tail)).remove(
                present(head).len() as int,
            ) =~= present(head) + present(tail));
        },
        None => {
            assert(present(head) + Seq::<NodeView>::empty() =~= present(head));
        },
    }
}

/// A line that shows another node in place of its own changes that node, and no other.
pub proof fn lemma_present_update(slots: Seq<Option<NodeView>>, index: int, node: NodeView)
    requires
        0 <= index < slots.len(),
        slots[index] is Some,
    ensures
        0 <= rank(slots, index) < present(slots).len(),
        present(slots.update(index, Some(node))) == present(slots).update(
            rank(slots, index),
            node,
        ),
{
    let rest = slots.remove(index);
    lemma_present_remove(slots, index);
    assert(rest.take(index) =~= slots.take(index));
    lemma_present_insert(rest, index, Some(node));
    assert(rest.insert(index, Some(node)) =~= slots.update(index, Some(node)));
    assert(present(slots).remove(rank(slots, index)).insert(rank(slots, index), node)
        =~= present(slots).update(rank(slots, index), node));
}

/// The nodes keep the order of their lines: of two lines that show nodes, the node of the
/// earlier line comes earlier.
pub proof fn lemma_rank_increases(slots: Seq<Option<NodeView>>, first: int, second: int)
    requires
        0 <= first < second <= slots.len(),
    ensures
        rank(slots, first) <= rank(slots, second),
        slots[first] is Some ==> rank(slots, first) < rank(slots, second),
{
    let upto = slots.take(second);
    lemma_present_split(upto, first);
    assert(upto.take(first) =~= slots.take(first));
    let rest = upto.skip(first);
    lemma_present_split(rest, 1);
    assert(rest.take(1) =~= seq![slots[first]]);
    lemma_present_one(slots[first]);
}

/// Every node is the node of a line: the line whose rank is the place of the node.
pub proof fn lemma_node_has_line(slots: Seq<Option<NodeView>>, place: int) -> (index: int)
    requires
        0 <= place < present(slots).len(),
    ensures
        0 <= index < slots.len(),
        slots[index] == Some(present(slots)[place]),
        rank(slots, index) == place,
    decreases slots.len(),
{
    let last = slots.len() - 1;
    assert(slots.take(last) =~= slots.drop_last());
    match slots.last() {
        Some(node) => {
            if place == present(slots.drop_last()).len() {
                last
            } else {
                let index = lemma_node_has_line(slots.drop_last(), place);
                assert(slots.drop_last().take(index) =~= slots.take(index));
                index
            }
        },
        None => {
            let index = lemma_node_has_line(slots.drop_last(), place);
            assert(slots.drop_last().take(index) =~= slots.take(index));
            index
        },
    }
}

/// Whether some node of the list has the identity.
pub open spec fn has_node(nodes: Seq<NodeView>, id: ID) -> bool {
    exists|place: int| 0 <= place < nodes.len() && (#[trigger] nodes[place]).id == id
}

/// Whether no two nodes of the list have the same identity.
pub open spec fn distinct_ids(nodes: Seq<NodeView>) -> bool {
    forall|first: int, second: int|
        0 <= first < second < nodes.len() ==> (#[trigger] nodes[first]).id != (
        #[trigger] nodes[second]).id
}

/// A node is found among the lines exactly where the graph shows a node of its identity, and
/// it is then the first such node of the graph.
pub proof fn lemma_node_index_finds(slots: Seq<Option<NodeView>>, id: ID)
    ensures
        node_index(slots, id).is_some() == has_node(present(slots), id),
        node_index(slots, id) matches Some(index) ==> {
            &&& 0 <= index < slots.len()
            &&& shows(slots[index], id)
            &&& 0 <= rank(slots, index) < present(slots).len()
            &&& present(slots)[rank(slots, index)] == slots[index].unwrap()
            &&& present(slots)[rank(slots, index)].id == id
            &&& forall|place: int|
                0 <= place < rank(slots, index) ==> (#[trigger] present(slots)[place]).id != id
        },
{
    lemma_node_index(slots, id, 0);
    let nodes = present(slots);
    match node_index(slots, id) {
        Some(index) => {
            lemma_present_remove(slots, index);
            assert(nodes[rank(slots, index)].id == id);
            assert forall|place: int| 0 <= place < rank(slots, index) implies (
            #[trigger] nodes[place]).id != id by {
                let line = lemma_node_has_line(slots, place);
                if line >= index {
                    if line > index {
                        lemma_rank_increases(slots, index, line);
                    }
                }
                assert(!shows(slots[line], id));
            }
        },
        None => {
            assert forall|place: int| 0 <= place < nodes.len() implies (#[trigger] nodes[place]).id
                != id by {
                let line = lemma_node_has_line(slots, place);
                assert(!shows(slots[line], id));
            }
        },
    }
}

/// The nodes that the lines of a block show, line by line, after a line was put among them.
pub proof fn lemma_line_nodes_insert(lines: Seq<LineView>, index: int, line: LineView)
    requires
        0 <= index <= lines.len(),
    ensures
        line_nodes(lines.insert(index, line)) == line_nodes(lines).insert(index, line_node(line)),
{
    assert(line_nodes(lines.insert(index, line)) =~= line_nodes(lines).insert(
        index,
        line_node(line),
    ));
}

/// The nodes that the lines of a block show, line by line, after a line was taken out.
pub proof fn lemma_line_nodes_remove(lines: Seq<LineView>, index: int)
    requires
        0 <= index < lines.len(),
    ensures
        line_nodes(lines.remove(index)) == line_nodes(lines).remove(index),
{
    assert(line_nodes(lines.remove(index)) =~= line_nodes(lines).remove(index));
}

/// Whether the body shows the same nodes when its lines are read as the lines of a block.
///
/// Every block does. A body that is no block does unless it is a binding that is no
/// definition: as a body it is one node, the whole binding; as a line of a block it is the
/// node of what it binds.
pub open spec fn reads_alike(body: AstView) -> bool {
    ||| body.shape is Block
    ||| !is_assignment(body)
    ||| definition_of(body, ScopeKind::NonRoot).is_some()
}

/// A body that reads alike shows, line by line, the nodes that its lines show in a block.
pub proof fn lemma_reads_alike(body: AstView)
    requires
        reads_alike(body),
    ensures
        body_line_nodes(body) == line_nodes(body_lines(body)),
{
    match body.shape {
        ShapeView::Block { .. } => {},
        _ => {
            assert(line_nodes(body_lines(body)) =~= seq![inline_node(body)]);
        },
    }
}

/// A body that is no block, has an identity and does not read as a definition shows exactly
/// one node: the whole body, under the identity of the body, and so with the text of the
/// body.
pub proof fn lemma_plain_body_is_one_node(body: AstView)
    requires
        !(body.shape is Block),
        body.id is Some,
        definition_of(body, ScopeKind::NonRoot) is None,
    ensures
        body_nodes(body) == seq![NodeView { id: body.id.unwrap(), expression: body }],
        body_nodes(body).len() == 1,
        repr(body_nodes(body)[0].expression) == repr(body),
{
    lemma_present_one(inline_node(body));
}

/// Whether the line of a block holds something that is no nested definition.
pub open spec fn is_node_line(line: LineView) -> bool {
    line.elem matches Some(ast) && definition_of(ast, ScopeKind::NonRoot) is None
}

/// The number of lines that hold something that is no nested definition.
pub open spec fn count_node_lines(lines: Seq<LineView>) -> nat
    decreases lines.len(),
{
    if lines.len() == 0 {
        0
    } else if is_node_line(lines.last()) {
        count_node_lines(lines.drop_last()) + 1
    } else {
        count_node_lines(lines.drop_last())
    }
}

/// Whether every line that holds something that is no nested definition gives its node an
/// identity.
pub open spec fn node_lines_identified(lines: Seq<LineView>) -> bool {
    forall|index: int|
        0 <= index < lines.len() && is_node_line(#[trigger] lines[index]) ==> line_identity(
            lines[index].elem.unwrap(),
        ) is Some
}

/// Whether the line at the index is one that holds something that is no nested definition,
/// and shows the node.
pub open spec fn is_line_of(lines: Seq<LineView>, index: int, node: NodeView) -> bool {
    &&& 0 <= index < lines.len()
    &&& is_node_line(lines[index])
    &&& line_node(lines[index]) == Some(node)
}

/// Whether the node at the given place among the nodes of a block is the node of a line
/// that holds something that is no nested definition, and of one whose rank is that place.
pub open spec fn node_has_line(lines: Seq<LineView>, place: int) -> bool {
    exists|index: int|
        #[trigger] is_line_of(lines, index, present(line_nodes(lines))[place]) && rank(
            line_nodes(lines),
            index,
        ) == place
}

/// The nodes of a block follow its lines.
///
/// A blank line and a nested definition show no node. Every node is the node of a line that
/// holds something that is no nested definition. Every such line whose node has an identity
/// shows that node, at the place that the lines before it give; and these places grow with
/// the lines.
pub proof fn lemma_block_nodes_follow_lines(lines: Seq<LineView>)
    ensures
        forall|index: int|
            0 <= index < lines.len() && !is_node_line(#[trigger] lines[index]) ==> line_node(
                lines[index],
            ) is None,
        forall|place: int|
            0 <= place < present(line_nodes(lines)).len() ==> #[trigger] node_has_line(
                lines,
                place,
            ),
        forall|index: int|
            0 <= index < lines.len() && is_node_line(#[trigger] lines[index]) && line_identity(
                lines[index].elem.unwrap(),
            ) is Some ==> {
                &&& 0 <= rank(line_nodes(lines), index) < present(line_nodes(lines)).len()
                &&& Some(present(line_nodes(lines))[rank(line_nodes(lines), index)])
                    == node_of_line(lines[index].elem.unwrap())
            },
        forall|first: int, second: int|
            0 <= first < second < lines.len() ==> #[trigger] rank(line_nodes(lines), first)
                <= #[trigger] rank(line_nodes(lines), second),
{
    let slots = line_nodes(lines);
    assert forall|place: int|
        0 <= place < present(line_nodes(lines)).len() implies #[trigger] node_has_line(
        lines,
        place,
    ) by {
        let index = lemma_node_has_line(slots, place);
        assert(slots[index] == line_node(lines[index]));
        assert(is_line_of(lines, index, present(line_nodes(lines))[place]) && rank(
            line_nodes(lines),
            index,
        ) == place);
    }
    assert forall|index: int|
        0 <= index < lines.len() && is_node_line(#[trigger] lines[index]) && line_identity(
            lines[index].elem.unwrap(),
        ) is Some implies {
        &&& 0 <= rank(slots, index) < present(slots).len()
        &&& Some(present(slots)[rank(slots, index)]) == node_of_line(lines[index].elem.unwrap())
    } by {
        assert(slots[index] == line_node(lines[index]));
        lemma_present_remove(slots, index);
    }
    assert forall|first: int, second: int| 0 <= first < second < lines.len() implies #[trigger] rank(
        slots,
        first,
    ) <= #[trigger] rank(slots, second) by {
        lemma_rank_increases(slots, first, second);
    }
}

/// Where every line that could be a node has an identity for it, a block shows as many nodes
/// as it has lines that hold something that is no nested definition.
pub proof fn lemma_node_count(lines: Seq<LineView>)
    requires
        node_lines_identified(lines),
    ensures
        present(line_nodes(lines)).len() == count_node_lines(lines),
    decreases lines.len(),
{
    if lines.len() > 0 {
        let rest = lines.drop_last();
        assert forall|index: int|
            0 <= index < rest.len() && is_node_line(#[trigger] rest[index]) implies line_identity(
            rest[index].elem.unwrap(),
        ) is Some by {
            assert(rest[index] == lines[index]);
        }
        lemma_node_count(rest);
        assert(line_nodes(lines).drop_last() =~= line_nodes(rest));
        assert(line_nodes(lines).last() == line_node(lines.last()));
        assert(lines.last() == lines[lines.len() - 1]);
    }
}

/// After a line was put among the lines of a body that reads alike, the graph shows the
/// nodes that it showed, in their order, and the node of the new line at the place that the
/// lines before it give. A new line that shows no node leaves the nodes as they were.
pub proof fn lemma_new_line_shows(body: AstView, index: int, line: AstView)
    requires
        reads_alike(body),
        0 <= index <= body_lines(body).len(),
    ensures
        0 <= rank(body_line_nodes(body), index) <= body_nodes(body).len(),
        body_nodes(body_with_line(body, index, line)) == match line_node(node_line(line)) {
            Some(node) => body_nodes(body).insert(rank(body_line_nodes(body), index), node),
            None => body_nodes(body),
        },
{
    lemma_reads_alike(body);
    lemma_line_nodes_insert(body_lines(body), index, node_line(line));
    lemma_present_insert(body_line_nodes(body), index, line_node(node_line(line)));
}

/// After a line was taken from the lines of a body, the graph shows the nodes that it
/// showed, in their order, but for the node of that line.
pub proof fn lemma_gone_line_hides(body: AstView, index: int)
    requires
        0 <= index < body_lines(body).len(),
    ensures
        body_nodes(body_without_line(body, index)) == match body_line_nodes(body)[index] {
            Some(_) => body_nodes(body).remove(rank(body_line_nodes(body), index)),
            None => body_nodes(body),
        },
{
    if body.shape is Block {
        lemma_reads_alike(body);
        lemma_line_nodes_remove(body_lines(body), index);
        lemma_present_remove(body_line_nodes(body), index);
    } else {
        let slots = body_line_nodes(body);
        lemma_present_remove(slots, index);
        assert(slots.remove(index) =~= Seq::<Option<NodeView>>::empty());
        assert(line_nodes(body_lines(body).remove(index)) =~= Seq::<Option<NodeView>>::empty());
    }
}

/// The first line at or after `from` that shows a node is found at its index.
pub proof fn lemma_node_index_is(slots: Seq<Option<NodeView>>, id: ID, from: int, index: int)
    requires
        0 <= from <= index < slots.len(),
        shows(slots[index], id),
        forall|j: int| from <= j < index ==> !shows(#[trigger] slots[j], id),
    ensures
        node_index_from(slots, id, from) == Some(index),
    decreases index - from,
{
    if from < index {
        lemma_node_index_is(slots, id, from + 1, index);
    }
}

/// A node that was added is found at its line, and removing it again leaves the lines and
/// the nodes that were there before it was added.
///
/// This holds of a body that reads alike, and of a new line that shows a node whose
/// identity no node of the graph has.
pub proof fn lemma_add_then_remove(body: AstView, index: int, line: AstView, id: ID)
    requires
        reads_alike(body),
        0 <= index <= body_lines(body).len(),
        shows(line_node(node_line(line)), id),
        !has_node(body_nodes(body), id),
    ensures
        node_index(body_line_nodes(body_with_line(body, index, line)), id) == Some(index),
        body_lines(body_without_line(body_with_line(body, index, line), index)) == body_lines(
            body,
        ),
        body_nodes(body_without_line(body_with_line(body, index, line), index)) == body_nodes(
            body,
        ),
{
    lemma_reads_alike(body);
    let lines = body_lines(body);
    let slots = body_line_nodes(body);
    let more = lines.insert(index, node_line(line));
    lemma_line_nodes_insert(lines, index, node_line(line));
    lemma_node_index_finds(slots, id);
    lemma_node_index(slots, id, 0);
    let shown = line_nodes(more);
    assert forall|j: int| 0 <= j < index implies !shows(#[trigger] shown[j], id) by {
        assert(shown[j] == slots[j]);
    }
    lemma_node_index_is(shown, id, 0, index);
    assert(more.remove(index) =~= lines);
}

/// Where no two nodes share an identity, the graph shows no node of the identity of a node
/// that was taken out.
pub proof fn lemma_removed_id_is_gone(nodes: Seq<NodeView>, place: int)
    requires
        distinct_ids(nodes),
        0 <= place < nodes.len(),
    ensures
        !has_node(nodes.remove(place), nodes[place].id),
        distinct_ids(nodes.remove(place)),
{
    let rest = nodes.remove(place);
    assert forall|other: int| 0 <= other < rest.len() implies (#[trigger] rest[other]).id
        != nodes[place].id by {
        if other < place {
            assert(rest[other] == nodes[other]);
        } else {
            assert(rest[other] == nodes[other + 1]);
        }
    }
    assert forall|first: int, second: int| 0 <= first < second < rest.len() implies (
    #[trigger] rest[first]).id != (#[trigger] rest[second]).id by {
        let from = if first < place { first } else { first + 1 };
        let to = if second < place { second } else { second + 1 };
        assert(rest[first] == nodes[from]);
        assert(rest[second] == nodes[to]);
    }
}

/// Where no two nodes share an identity and none has the identity of a new node, no two
/// nodes share an identity after the new node was put among them.
pub proof fn lemma_new_id_stays_distinct(nodes: Seq<NodeView>, place: int, node: NodeView)
    requires
        distinct_ids(nodes),
        !has_node(nodes, node.id),
        0 <= place <= nodes.len(),
    ensures
        distinct_ids(nodes.insert(place, node)),
{
    let more = nodes.insert(place, node);
    assert forall|first: int, second: int| 0 <= first < second < more.len() implies (
    #[trigger] more[first]).id != (#[trigger] more[second]).id by {
        if first != place && second != place {
            let from = if first < place { first } else { first - 1 };
            let to = if second < place { second } else { second - 1 };
            assert(more[first] == nodes[from]);
            assert(more[second] == nodes[to]);
        } else if first == place {
            assert(more[second] == nodes[second - 1]);
        } else {
            assert(more[first] == nodes[first]);
        }
    }
}

/// After a node of a body that reads alike was given another expression, the graph shows
/// the nodes that it showed, in their order, but for that node: in its place stands the node
/// of the changed line, which has the same identity.
pub proof fn lemma_edit_keeps_place(body: AstView, index: int, expression: AstView, id: ID)
    requires
        reads_alike(body),
        0 <= index < body_lines(body).len(),
        shows(body_line_nodes(body)[index], id),
        definition_of(edited_line(body, index, expression, id), ScopeKind::NonRoot) is None,
    ensures
        0 <= rank(body_line_nodes(body), index) < body_nodes(body).len(),
        node_of_line(edited_line(body, index, expression, id)) matches Some(node) && node.id
            == id && body_nodes(body_with_edit(body, index, expression, id)) == body_nodes(
            body,
        ).update(rank(body_line_nodes(body), index), node),
{
    lemma_reads_alike(body);
    lemma_with_identity(expression, id);
    let lines = body_lines(body);
    let line = edited_line(body, index, expression, id);
    let changed = lines.update(index, BlockLine { elem: Some(line), off: lines[index].off });
    let node = node_of_line(line).unwrap();
    assert(line_node(changed[index]) == Some(node));
    assert(line_nodes(changed) =~= line_nodes(lines).update(index, Some(node)));
    lemma_present_update(body_line_nodes(body), index, node);
}

} // verus!
