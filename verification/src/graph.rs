//! The knowledge graph shown by the dashboard.

use vstd::prelude::*;
use crate::columns::{as_i32, as_int, as_text, i32_of, int_of, text_of, view_opt};
use crate::dashboard::{as_bool, as_json_value, bool_of, node_id, DashboardError, EdgeKind, Graph, GraphEdge, GraphNode};
use crate::text::decimal_int;
use crate::search::reversed;
use crate::sql::SqlValue;
use crate::store::{all_have_width, answered, bound_all, query_failed, Bound, Database};

verus! {

/// The rows of one part of the graph, last first.
fn graph_rows(db: &Database, sql: &str, ncols: usize) -> (r: Result<Vec<Vec<SqlValue>>, DashboardError>)
    ensures
        r matches Ok(rows) ==> all_have_width(rows@, ncols as nat),
        r matches Ok(rows) ==> answered(sql@, Seq::<Bound>::empty(), rows@.reverse()),
        r matches Err(e) ==> e == DashboardError::Internal && query_failed(sql@, Seq::<Bound>::empty()),
{
    let params: Vec<SqlValue> = Vec::new();
    assert(bound_all(params@) =~= Seq::<Bound>::empty());
    match db.query_ok_rows(sql, params, ncols) {
        Ok(rows) => {
            let ghost orig = rows@;
            let r = reversed(rows);
            assert forall|i: int| 0 <= i < r@.len() implies (#[trigger] r@[i]).len() == ncols by {
                assert(r@[i] == orig[orig.len() - 1 - i]);
            }
            assert(r@.reverse() =~= orig);
            Ok(r)
        },
        Err(_) => Err(DashboardError::Internal),
    }
}

/// Whether a row of 7 columns can be read as a memory node.
pub open spec fn memory_node_row_valid(row: Seq<SqlValue>) -> bool {
    &&& row.len() == 7
    &&& int_of(row[0]) is Some
    &&& text_of(row[1]) is Some
    &&& i32_of(row[2]) is Some
    &&& text_of(row[3]) is Some
    &&& bool_of(row[4]) is Some
    &&& bool_of(row[5]) is Some
    &&& row[6] is Text
}

/// `n` is the memory node that `row` reads as: its id is `m` and the
/// memory's id; its tags are the JSON of the last column.
pub open spec fn memory_node_from_row(row: Seq<SqlValue>, n: GraphNode) -> bool {
    &&& n matches GraphNode::Memory { id, raw_id, label, importance, memory_type, is_obsolete, is_forgotten, .. }
        && raw_id == int_of(row[0]).unwrap()
        && id@ == seq!['m'] + decimal_int(raw_id as int)
        && label@ == text_of(row[1]).unwrap()
        && importance == i32_of(row[2]).unwrap()
        && memory_type@ == text_of(row[3]).unwrap()
        && is_obsolete == bool_of(row[4]).unwrap()
        && is_forgotten == bool_of(row[5]).unwrap()
}

/// Whether a row of 3 columns can be read as an entity node.
pub open spec fn entity_node_row_valid(row: Seq<SqlValue>) -> bool {
    &&& row.len() == 3
    &&& int_of(row[0]) is Some
    &&& text_of(row[1]) is Some
    &&& text_of(row[2]) is Some
}

/// `n` is the entity node that `row` reads as; its id is `e` and the
/// entity's id.
pub open spec fn entity_node_from_row(row: Seq<SqlValue>, n: GraphNode) -> bool {
    &&& n matches GraphNode::Entity { id, raw_id, label, entity_type }
        && raw_id == int_of(row[0]).unwrap()
        && id@ == seq!['e'] + decimal_int(raw_id as int)
        && label@ == text_of(row[1]).unwrap()
        && entity_type@ == text_of(row[2]).unwrap()
}

/// Whether a row of 2 columns can be read as a project node.
pub open spec fn project_node_row_valid(row: Seq<SqlValue>) -> bool {
    &&& row.len() == 2
    &&& int_of(row[0]) is Some
    &&& text_of(row[1]) is Some
}

/// `n` is the project node that `row` reads as; its id is `p` and the
/// project's id.
pub open spec fn project_node_from_row(row: Seq<SqlValue>, n: GraphNode) -> bool {
    &&& n matches GraphNode::Project { id, raw_id, label }
        && raw_id == int_of(row[0]).unwrap()
        && id@ == seq!['p'] + decimal_int(raw_id as int)
        && label@ == text_of(row[1]).unwrap()
}

/// `n` is what some row reads as, for a node of its kind.
pub open spec fn node_read(n: GraphNode) -> bool {
    match n {
        GraphNode::Memory { .. } => exists|row: Seq<SqlValue>| #[trigger] memory_node_from_row(row, n),
        GraphNode::Entity { .. } => exists|row: Seq<SqlValue>| #[trigger] entity_node_from_row(row, n),
        GraphNode::Project { .. } => exists|row: Seq<SqlValue>| #[trigger] project_node_from_row(row, n),
    }
}

/// The place of a node's kind in the graph: memories, then entities, then projects.
pub open spec fn node_rank(n: GraphNode) -> int {
    match n {
        GraphNode::Memory { .. } => 0,
        GraphNode::Entity { .. } => 1,
        GraphNode::Project { .. } => 2,
    }
}

/// The rank of the nodes read from rows of that many columns.
pub open spec fn width_rank(ncols: usize) -> int {
    if ncols == 7 { 0 } else if ncols == 3 { 1 } else { 2 }
}

/// The place of an edge's kind in the graph, in the order the parts are read.
pub open spec fn edge_rank(kind: EdgeKind) -> int {
    match kind {
        EdgeKind::MemoryLink => 0,
        EdgeKind::EntityAssoc => 1,
        EdgeKind::ProjectAssoc => 2,
        EdgeKind::Relationship => 3,
        EdgeKind::EntityProject => 4,
    }
}

/// The letters of the kinds of node an edge of that kind joins.
pub open spec fn edge_ends(kind: EdgeKind) -> (char, char) {
    match kind {
        EdgeKind::MemoryLink => ('m', 'm'),
        EdgeKind::EntityAssoc => ('m', 'e'),
        EdgeKind::ProjectAssoc => ('m', 'p'),
        EdgeKind::Relationship => ('e', 'e'),
        EdgeKind::EntityProject => ('e', 'p'),
    }
}

/// The number of columns of the rows an edge of that kind is read from.
pub open spec fn edge_width(kind: EdgeKind) -> nat {
    if kind == EdgeKind::Relationship { 3 } else { 2 }
}

/// Whether a row can be read as an edge of that kind.
pub open spec fn edge_row_valid(row: Seq<SqlValue>, kind: EdgeKind) -> bool {
    &&& row.len() == edge_width(kind)
    &&& int_of(row[0]) is Some
    &&& int_of(row[1]) is Some
    &&& kind == EdgeKind::Relationship ==> text_of(row[2]) is Some
}

/// `e` is the edge that `row` reads as: from the node of the first id to
/// that of the second, with the letters of `ends`; a relationship carries
/// its type as its label, other edges none.
pub open spec fn edge_from_row(row: Seq<SqlValue>, ends: (char, char), kind: EdgeKind, e: GraphEdge) -> bool {
    &&& e.kind == kind
    &&& e.source@ == seq![ends.0] + decimal_int(int_of(row[0]).unwrap() as int)
    &&& e.target@ == seq![ends.1] + decimal_int(int_of(row[1]).unwrap() as int)
    &&& if kind == EdgeKind::Relationship {
        view_opt(e.label) == Some(text_of(row[2]).unwrap())
    } else {
        e.label is None
    }
}

/// `e` is what some row reads as, for an edge of its kind.
pub open spec fn edge_read(e: GraphEdge) -> bool {
    exists|row: Seq<SqlValue>| #[trigger] edge_from_row(row, edge_ends(e.kind), e.kind, e)
}

fn memory_node(row: Vec<SqlValue>) -> (r: Option<GraphNode>)
    requires
        row.len() == 7,
    ensures
        r is Some <==> memory_node_row_valid(row@),
        r matches Some(n) ==> memory_node_from_row(row@, n),
{
    let ghost r0 = row@;
    let mut row = row;
    let tags = as_json_value(row.pop().unwrap());
    assert(row@ =~= r0.take(6));
    let tags = match tags { Some(v) => v, None => { return None; } };
    let is_forgotten = as_bool(row.pop().unwrap());
    assert(row@ =~= r0.take(5));
    let is_forgotten = match is_forgotten { Some(v) => v, None => { return None; } };
    let is_obsolete = as_bool(row.pop().unwrap());
    assert(row@ =~= r0.take(4));
    let is_obsolete = match is_obsolete { Some(v) => v, None => { return None; } };
    let memory_type = as_text(row.pop().unwrap());
    assert(row@ =~= r0.take(3));
    let memory_type = match memory_type { Some(v) => v, None => { return None; } };
    let importance = as_i32(row.pop().unwrap());
    assert(row@ =~= r0.take(2));
    let importance = match importance { Some(v) => v, None => { return None; } };
    let label = as_text(row.pop().unwrap());
    assert(row@ =~= r0.take(1));
    let label = match label { Some(v) => v, None => { return None; } };
    let raw_id = as_int(row.pop().unwrap());
    assert(row@ =~= r0.take(0));
    let raw_id = match raw_id { Some(v) => v, None => { return None; } };
    Some(GraphNode::Memory { id: node_id('m', raw_id), raw_id, label, importance, memory_type, is_obsolete, is_forgotten, tags })
}

fn entity_node(row: Vec<SqlValue>) -> (r: Option<GraphNode>)
    requires
        row.len() == 3,
    ensures
        r is Some <==> entity_node_row_valid(row@),
        r matches Some(n) ==> entity_node_from_row(row@, n),
{
    let ghost r0 = row@;
    let mut row = row;
    let entity_type = as_text(row.pop().unwrap());
    assert(row@ =~= r0.take(2));
    let entity_type = match entity_type { Some(v) => v, None => { return None; } };
    let label = as_text(row.pop().unwrap());
    assert(row@ =~= r0.take(1));
    let label = match label { Some(v) => v, None => { return None; } };
    let raw_id = as_int(row.pop().unwrap());
    assert(row@ =~= r0.take(0));
    let raw_id = match raw_id { Some(v) => v, None => { return None; } };
    Some(GraphNode::Entity { id: node_id('e', raw_id), raw_id, label, entity_type })
}

fn project_node(row: Vec<SqlValue>) -> (r: Option<GraphNode>)
    requires
        row.len() == 2,
    ensures
        r is Some <==> project_node_row_valid(row@),
        r matches Some(n) ==> project_node_from_row(row@, n),
{
    let ghost r0 = row@;
    let mut row = row;
    let label = as_text(row.pop().unwrap());
    assert(row@ =~= r0.take(1));
    let label = match label { Some(v) => v, None => { return None; } };
    let raw_id = as_int(row.pop().unwrap());
    assert(row@ =~= r0.take(0));
    let raw_id = match raw_id { Some(v) => v, None => { return None; } };
    Some(GraphNode::Project { id: node_id('p', raw_id), raw_id, label })
}

/// An edge between the nodes `a`+first column and `b`+second column; a
/// relationship edge carries the third column as its label.
fn edge(row: Vec<SqlValue>, a: char, b: char, kind: EdgeKind) -> (r: Option<GraphEdge>)
    requires
        row.len() == edge_width(kind),
    ensures
        r is Some <==> edge_row_valid(row@, kind),
        r matches Some(e) ==> edge_from_row(row@, (a, b), kind, e),
{
    let ghost r0 = row@;
    let mut row = row;
    let label = if kind == EdgeKind::Relationship {
        let t = as_text(row.pop().unwrap());
        assert(row@ =~= r0.take(2));
        match t { Some(v) => Some(v), None => { return None; } }
    } else {
        None
    };
    assert(row@ =~= r0.take(2));
    let target = as_int(row.pop().unwrap());
    assert(row@ =~= r0.take(1));
    let target = match target { Some(v) => v, None => { return None; } };
    let source = as_int(row.pop().unwrap());
    assert(row@ =~= r0.take(0));
    let source = match source { Some(v) => v, None => { return None; } };
    Some(GraphEdge { source: node_id(a, source), target: node_id(b, target), kind, label })
}

/// Whether a row can be read as a node of the kind read from rows of
/// `ncols` columns: 7 for memories, 3 for entities, else projects.
pub open spec fn node_row_valid(row: Seq<SqlValue>, ncols: usize) -> bool {
    if ncols == 7 {
        memory_node_row_valid(row)
    } else if ncols == 3 {
        entity_node_row_valid(row)
    } else {
        project_node_row_valid(row)
    }
}

/// `n` is the node of that kind that `row` reads as.
pub open spec fn node_from_row(row: Seq<SqlValue>, ncols: usize, n: GraphNode) -> bool {
    if ncols == 7 {
        memory_node_from_row(row, n)
    } else if ncols == 3 {
        entity_node_from_row(row, n)
    } else {
        project_node_from_row(row, n)
    }
}

/// `out` holds, in order, the node each row of `rows` that can be read as
/// one reads as; rows that cannot are passed over.
pub open spec fn nodes_list_of(rows: Seq<Vec<SqlValue>>, out: Seq<GraphNode>, ncols: usize) -> bool
    decreases rows.len(),
{
    if rows.len() == 0 {
        out.len() == 0
    } else if node_row_valid(rows.last()@, ncols) {
        out.len() > 0 && node_from_row(rows.last()@, ncols, out.last())
            && nodes_list_of(rows.drop_last(), out.drop_last(), ncols)
    } else {
        nodes_list_of(rows.drop_last(), out, ncols)
    }
}

/// `out` holds, in order, the edge of that kind each row of `rows` that
/// can be read as one reads as; rows that cannot are passed over.
pub open spec fn edges_list_of(rows: Seq<Vec<SqlValue>>, out: Seq<GraphEdge>, kind: EdgeKind) -> bool
    decreases rows.len(),
{
    if rows.len() == 0 {
        out.len() == 0
    } else if edge_row_valid(rows.last()@, kind) {
        out.len() > 0 && edge_from_row(rows.last()@, edge_ends(kind), kind, out.last())
            && edges_list_of(rows.drop_last(), out.drop_last(), kind)
    } else {
        edges_list_of(rows.drop_last(), out, kind)
    }
}

/// Adds the nodes of one part of the graph, in the order of `rows` popped.
fn add_nodes(nodes: &mut Vec<GraphNode>, rows: Vec<Vec<SqlValue>>, ncols: usize)
    requires
        all_have_width(rows@, ncols as nat),
        ncols == 7 || ncols == 3 || ncols == 2,
    ensures
        final(nodes)@.len() >= old(nodes)@.len(),
        final(nodes)@.take(old(nodes)@.len() as int) == old(nodes)@,
        forall|i: int| old(nodes)@.len() <= i < final(nodes)@.len() ==> node_read(#[trigger] final(nodes)@[i])
            && node_rank(final(nodes)@[i]) == width_rank(ncols),
        nodes_list_of(rows@.reverse(), final(nodes)@.skip(old(nodes)@.len() as int), ncols),
{
    let ghost n0 = nodes@;
    let ghost orig = rows@.reverse();
    let mut rows = rows;
    assert(orig.take(0) =~= Seq::<Vec<SqlValue>>::empty());
    assert(nodes@.skip(n0.len() as int) =~= Seq::<GraphNode>::empty());
    while rows.len() > 0
        invariant
            all_have_width(rows@, ncols as nat),
            rows.len() <= orig.len(),
            forall|j: int| 0 <= j < rows.len() ==> #[trigger] rows@[j] == orig[orig.len() - 1 - j],
            nodes_list_of(orig.take(orig.len() - rows.len()), nodes@.skip(n0.len() as int), ncols),
            ncols == 7 || ncols == 3 || ncols == 2,
            nodes@.len() >= n0.len(),
            nodes@.take(n0.len() as int) == n0,
            forall|i: int| n0.len() <= i < nodes@.len() ==> node_read(#[trigger] nodes@[i])
                && node_rank(nodes@[i]) == width_rank(ncols),
        decreases rows.len(),
    {
        let ghost before = rows@;
        let ghost k = orig.len() - rows.len();
        let ghost done = nodes@.skip(n0.len() as int);
        let row = rows.pop().unwrap();
        assert(row == before[before.len() - 1]);
        assert(row == orig[k]);
        assert(forall|j: int| 0 <= j < rows.len() ==> #[trigger] rows@[j] == before[j]);
        assert(orig.take(k + 1).drop_last() =~= orig.take(k));
        let ghost rv = row@;
        let node = if ncols == 7 { memory_node(row) } else if ncols == 3 { entity_node(row) } else { project_node(row) };
        match node {
            Some(n) => {
                if ncols == 7 {
                    assert(memory_node_from_row(rv, n));
                } else if ncols == 3 {
                    assert(entity_node_from_row(rv, n));
                } else {
                    assert(project_node_from_row(rv, n));
                }
                assert(node_read(n));
                let ghost nb = nodes@;
                nodes.push(n);
                assert(nodes@.take(n0.len() as int) =~= nb.take(n0.len() as int));
                assert(nodes@.skip(n0.len() as int).drop_last() =~= done);
                assert(nodes@.skip(n0.len() as int).last() == n);
            },
            None => {},
        }
    }
    assert(orig.take(orig.len() as int) =~= orig);
}

/// Adds the edges of one part of the graph, in the order of `rows` popped.
fn add_edges(edges: &mut Vec<GraphEdge>, rows: Vec<Vec<SqlValue>>, a: char, b: char, kind: EdgeKind)
    requires
        all_have_width(rows@, edge_width(kind)),
        (a, b) == edge_ends(kind),
    ensures
        final(edges)@.len() >= old(edges)@.len(),
        final(edges)@.take(old(edges)@.len() as int) == old(edges)@,
        forall|i: int| old(edges)@.len() <= i < final(edges)@.len() ==> edge_read(#[trigger] final(edges)@[i])
            && final(edges)@[i].kind == kind,
        edges_list_of(rows@.reverse(), final(edges)@.skip(old(edges)@.len() as int), kind),
{
    let ghost e0 = edges@;
    let ghost orig = rows@.reverse();
    let mut rows = rows;
    assert(orig.take(0) =~= Seq::<Vec<SqlValue>>::empty());
    assert(edges@.skip(e0.len() as int) =~= Seq::<GraphEdge>::empty());
    while rows.len() > 0
        invariant
            all_have_width(rows@, edge_width(kind)),
            rows.len() <= orig.len(),
            forall|j: int| 0 <= j < rows.len() ==> #[trigger] rows@[j] == orig[orig.len() - 1 - j],
            edges_list_of(orig.take(orig.len() - rows.len()), edges@.skip(e0.len() as int), kind),
            (a, b) == edge_ends(kind),
            edges@.len() >= e0.len(),
            edges@.take(e0.len() as int) == e0,
            forall|i: int| e0.len() <= i < edges@.len() ==> edge_read(#[trigger] edges@[i]) && edges@[i].kind == kind,
        decreases rows.len(),
    {
        let ghost before = rows@;
        let ghost k = orig.len() - rows.len();
        let ghost done = edges@.skip(e0.len() as int);
        let row = rows.pop().unwrap();
        assert(row == before[before.len() - 1]);
        assert(row == orig[k]);
        assert(forall|j: int| 0 <= j < rows.len() ==> #[trigger] rows@[j] == before[j]);
        assert(orig.take(k + 1).drop_last() =~= orig.take(k));
        let ghost rv = row@;
        match edge(row, a, b, kind) {
            Some(e) => {
                assert(edge_from_row(rv, edge_ends(e.kind), e.kind, e));
                let ghost eb = edges@;
                edges.push(e);
                assert(edges@.take(e0.len() as int) =~= eb.take(e0.len() as int));
                assert(edges@.skip(e0.len() as int).drop_last() =~= done);
                assert(edges@.skip(e0.len() as int).last() == e);
            },
            None => {},
        }
    }
    assert(orig.take(orig.len() as int) =~= orig);
}

/// Nodes are read and in the order of their kinds, none past rank `k`.
pub open spec fn nodes_in_order(s: Seq<GraphNode>, k: int) -> bool {
    &&& forall|i: int| 0 <= i < s.len() ==> node_read(#[trigger] s[i]) && node_rank(s[i]) <= k
    &&& forall|i: int, j: int| 0 <= i < j < s.len() ==> node_rank(#[trigger] s[i]) <= node_rank(#[trigger] s[j])
}

/// Appending nodes of rank `k` to nodes in order up to rank `k` keeps them in order.
proof fn lemma_nodes_append(prev: Seq<GraphNode>, next: Seq<GraphNode>, k: int)
    requires
        nodes_in_order(prev, k),
        next.len() >= prev.len(),
        next.take(prev.len() as int) == prev,
        forall|i: int| prev.len() <= i < next.len() ==> node_read(#[trigger] next[i]) && node_rank(next[i]) == k,
    ensures
        nodes_in_order(next, k),
{
    assert forall|i: int| 0 <= i < prev.len() implies next[i] == prev[i] by {
        assert(next.take(prev.len() as int)[i] == next[i]);
    }
}

/// Edges are read and in the order of their kinds, none past rank `k`.
pub open spec fn edges_in_order(s: Seq<GraphEdge>, k: int) -> bool {
    &&& forall|i: int| 0 <= i < s.len() ==> edge_read(#[trigger] s[i]) && edge_rank(s[i].kind) <= k
    &&& forall|i: int, j: int| 0 <= i < j < s.len() ==> edge_rank((#[trigger] s[i]).kind) <= edge_rank((#[trigger] s[j]).kind)
}

/// Appending edges of rank `k` to edges in order up to rank `k` keeps them in order.
proof fn lemma_edges_append(prev: Seq<GraphEdge>, next: Seq<GraphEdge>, kind: EdgeKind)
    requires
        edges_in_order(prev, edge_rank(kind)),
        next.len() >= prev.len(),
        next.take(prev.len() as int) == prev,
        forall|i: int| prev.len() <= i < next.len() ==> edge_read(#[trigger] next[i]) && next[i].kind == kind,
    ensures
        edges_in_order(next, edge_rank(kind)),
{
    assert forall|i: int| 0 <= i < prev.len() implies next[i] == prev[i] by {
        assert(next.take(prev.len() as int)[i] == next[i]);
    }
}

pub const GRAPH_MEMORY_NODES: &'static str = "SELECT id, title, importance, memory_type, is_obsolete, is_forgotten, tags
         FROM memories WHERE user_id='default'
         ORDER BY importance DESC";

pub const GRAPH_ENTITY_NODES: &'static str = "SELECT id, name, entity_type FROM entities WHERE user_id='default'";

pub const GRAPH_PROJECT_NODES: &'static str = "SELECT id, name FROM projects WHERE user_id='default'";

pub const GRAPH_MEMORY_LINKS: &'static str = "SELECT source_id, target_id FROM memory_links WHERE user_id='default'";

pub const GRAPH_MEMORY_ENTITIES: &'static str = "SELECT memory_id, entity_id FROM memory_entity_association";

pub const GRAPH_MEMORY_PROJECTS: &'static str = "SELECT memory_id, project_id FROM memory_project_association";

pub const GRAPH_RELATIONSHIPS: &'static str = "SELECT source_entity_id, target_entity_id, relationship_type
         FROM entity_relationships WHERE user_id='default'";

pub const GRAPH_ENTITY_PROJECTS: &'static str = "SELECT entity_id, project_id FROM entity_project_association";

/// One of the eight queries of the graph failed.
pub open spec fn graph_failed() -> bool {
    let e = Seq::<Bound>::empty();
    ||| query_failed(GRAPH_MEMORY_NODES@, e) || query_failed(GRAPH_ENTITY_NODES@, e)
    ||| query_failed(GRAPH_PROJECT_NODES@, e) || query_failed(GRAPH_MEMORY_LINKS@, e)
    ||| query_failed(GRAPH_MEMORY_ENTITIES@, e) || query_failed(GRAPH_MEMORY_PROJECTS@, e)
    ||| query_failed(GRAPH_RELATIONSHIPS@, e) || query_failed(GRAPH_ENTITY_PROJECTS@, e)
}

/// `g` is the graph made of the answers `parts` to the eight queries of
/// the graph, in order: the nodes of the first three, then the edges of the
/// other five, each part cut from the next at `cuts`.
pub open spec fn graph_from_parts(parts: Seq<Seq<Vec<SqlValue>>>, cuts: Seq<int>, g: Graph) -> bool {
    let e = Seq::<Bound>::empty();
    let n = g.nodes@;
    let d = g.edges@;
    &&& parts.len() == 8 && cuts.len() == 6
    &&& answered(GRAPH_MEMORY_NODES@, e, parts[0]) && answered(GRAPH_ENTITY_NODES@, e, parts[1])
    &&& answered(GRAPH_PROJECT_NODES@, e, parts[2]) && answered(GRAPH_MEMORY_LINKS@, e, parts[3])
    &&& answered(GRAPH_MEMORY_ENTITIES@, e, parts[4]) && answered(GRAPH_MEMORY_PROJECTS@, e, parts[5])
    &&& answered(GRAPH_RELATIONSHIPS@, e, parts[6]) && answered(GRAPH_ENTITY_PROJECTS@, e, parts[7])
    &&& 0 <= cuts[0] <= cuts[1] <= n.len()
    &&& nodes_list_of(parts[0], n.subrange(0, cuts[0]), 7)
    &&& nodes_list_of(parts[1], n.subrange(cuts[0], cuts[1]), 3)
    &&& nodes_list_of(parts[2], n.subrange(cuts[1], n.len() as int), 2)
    &&& 0 <= cuts[2] <= cuts[3] <= cuts[4] <= cuts[5] <= d.len()
    &&& edges_list_of(parts[3], d.subrange(0, cuts[2]), EdgeKind::MemoryLink)
    &&& edges_list_of(parts[4], d.subrange(cuts[2], cuts[3]), EdgeKind::EntityAssoc)
    &&& edges_list_of(parts[5], d.subrange(cuts[3], cuts[4]), EdgeKind::ProjectAssoc)
    &&& edges_list_of(parts[6], d.subrange(cuts[4], cuts[5]), EdgeKind::Relationship)
    &&& edges_list_of(parts[7], d.subrange(cuts[5], d.len() as int), EdgeKind::EntityProject)
}

impl Database {
    /// The knowledge graph of the default user: memory nodes (most
    /// important first), entity nodes and project nodes; then edges for
    /// memory links, memory–entity and memory–project associations,
    /// relationships between entities, and entity–project associations.
    pub fn dashboard_graph(&self) -> (r: Result<Graph, DashboardError>)
        ensures
            r matches Ok(g) ==> forall|i: int| 0 <= i < g.nodes.len() ==> node_read(#[trigger] g.nodes@[i]),
            r matches Ok(g) ==> forall|i: int, j: int| 0 <= i < j < g.nodes.len()
                ==> node_rank(#[trigger] g.nodes@[i]) <= node_rank(#[trigger] g.nodes@[j]),
            r matches Ok(g) ==> forall|i: int| 0 <= i < g.edges.len() ==> edge_read(#[trigger] g.edges@[i]),
            r matches Ok(g) ==> forall|i: int, j: int| 0 <= i < j < g.edges.len()
                ==> edge_rank((#[trigger] g.edges@[i]).kind) <= edge_rank((#[trigger] g.edges@[j]).kind),
            r matches Ok(g) ==> exists|parts: Seq<Seq<Vec<SqlValue>>>, cuts: Seq<int>| #[trigger] graph_from_parts(parts, cuts, g),
            r matches Err(e) ==> e == DashboardError::Internal && graph_failed(),
    {
        let mut nodes: Vec<GraphNode> = Vec::new();
        let mut edges: Vec<GraphEdge> = Vec::new();
        let rows = graph_rows(self, GRAPH_MEMORY_NODES, 7)?;
        let ghost p0 = rows@.reverse();
        let ghost n0 = nodes@;
        add_nodes(&mut nodes, rows, 7);
        proof { lemma_nodes_append(n0, nodes@, 0); }
        let rows = graph_rows(self, GRAPH_ENTITY_NODES, 3)?;
        let ghost p1 = rows@.reverse();
        let ghost n1 = nodes@;
        add_nodes(&mut nodes, rows, 3);
        proof { lemma_nodes_append(n1, nodes@, 1); }
        let rows = graph_rows(self, GRAPH_PROJECT_NODES, 2)?;
        let ghost p2 = rows@.reverse();
        let ghost n2 = nodes@;
        add_nodes(&mut nodes, rows, 2);
        proof { lemma_nodes_append(n2, nodes@, 2); }
        let rows = graph_rows(self, GRAPH_MEMORY_LINKS, 2)?;
        let ghost p3 = rows@.reverse();
        let ghost e0 = edges@;
        add_edges(&mut edges, rows, 'm', 'm', EdgeKind::MemoryLink);
        proof { lemma_edges_append(e0, edges@, EdgeKind::MemoryLink); }
        let rows = graph_rows(self, GRAPH_MEMORY_ENTITIES, 2)?;
        let ghost p4 = rows@.reverse();
        let ghost e1 = edges@;
        add_edges(&mut edges, rows, 'm', 'e', EdgeKind::EntityAssoc);
        proof { lemma_edges_append(e1, edges@, EdgeKind::EntityAssoc); }
        let rows = graph_rows(self, GRAPH_MEMORY_PROJECTS, 2)?;
        let ghost p5 = rows@.reverse();
        let ghost e2 = edges@;
        add_edges(&mut edges, rows, 'm', 'p', EdgeKind::ProjectAssoc);
        proof { lemma_edges_append(e2, edges@, EdgeKind::ProjectAssoc); }
        let rows = graph_rows(self, GRAPH_RELATIONSHIPS, 3)?;
        let ghost p6 = rows@.reverse();
        let ghost e3 = edges@;
        add_edges(&mut edges, rows, 'e', 'e', EdgeKind::Relationship);
        proof { lemma_edges_append(e3, edges@, EdgeKind::Relationship); }
        let rows = graph_rows(self, GRAPH_ENTITY_PROJECTS, 2)?;
        let ghost p7 = rows@.reverse();
        let ghost e4 = edges@;
        add_edges(&mut edges, rows, 'e', 'p', EdgeKind::EntityProject);
        proof { lemma_edges_append(e4, edges@, EdgeKind::EntityProject); }
        let g = Graph { nodes, edges };
        proof {
            let nn = g.nodes@;
            let dd = g.edges@;
            let cuts = seq![n1.len() as int, n2.len() as int, e1.len() as int, e2.len() as int, e3.len() as int, e4.len() as int];
            assert(nn.subrange(0, cuts[0]) =~= n1.skip(n0.len() as int));
            assert(nn.subrange(cuts[0], cuts[1]) =~= n2.skip(n1.len() as int));
            assert(nn.subrange(cuts[1], nn.len() as int) =~= nn.skip(n2.len() as int));
            assert(dd.subrange(0, cuts[2]) =~= e1.skip(e0.len() as int));
            assert(dd.subrange(cuts[2], cuts[3]) =~= e2.skip(e1.len() as int));
            assert(dd.subrange(cuts[3], cuts[4]) =~= e3.skip(e2.len() as int));
            assert(dd.subrange(cuts[4], cuts[5]) =~= e4.skip(e3.len() as int));
            assert(dd.subrange(cuts[5], dd.len() as int) =~= dd.skip(e4.len() as int));
            let parts = seq![p0, p1, p2, p3, p4, p5, p6, p7];
            assert(graph_from_parts(parts, cuts, g));
        }
        Ok(g)
    }
}

} // verus!
