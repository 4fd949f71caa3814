//! Properties of generated graphs and of their text, proved over the
//! contracts of the generator and the renderer.

use crate::model::{
    config_error, cycle_edge, Sign, is_dna_sequence, is_nucleotide, ConfigError, Edge, Graph, GraphSpec, Node,
};
use crate::text::{decimal, edge_line, edge_lines, graph_text, header_line, node_line, node_lines, sign_byte};
use vstd::prelude::*;

verus! {

/// Number of newline bytes in `s`, that is, the number of lines of a text
/// whose every line is terminated.
pub open spec fn newline_count(s: Seq<u8>) -> nat
    decreases s.len(),
{
    if s.len() == 0 {
        0
    } else {
        newline_count(s.drop_last()) + if s.last() == 10u8 { 1nat } else { 0nat }
    }
}

proof fn lemma_newline_count_concat(a: Seq<u8>, b: Seq<u8>)
    ensures
        newline_count(a + b) == newline_count(a) + newline_count(b),
    decreases b.len(),
{
    if b.len() > 0 {
        assert((a + b).drop_last() =~= a + b.drop_last());
        lemma_newline_count_concat(a, b.drop_last());
    } else {
        assert(a + b =~= a);
    }
}

proof fn lemma_no_newline(s: Seq<u8>)
    requires
        forall|i: int| 0 <= i < s.len() ==> s[i] != 10u8,
    ensures
        newline_count(s) == 0,
    decreases s.len(),
{
    if s.len() > 0 {
        lemma_no_newline(s.drop_last());
    }
}

proof fn lemma_decimal_digits(n: nat)
    ensures
        forall|i: int| 0 <= i < decimal(n).len() ==> 48 <= #[trigger] decimal(n)[i] <= 57,
    decreases n,
{
    if n >= 10 {
        lemma_decimal_digits(n / 10);
        let d = decimal(n);
        let p = decimal(n / 10);
        assert(d == p.push((48 + n % 10) as u8));
        assert forall|i: int| 0 <= i < d.len() implies 48 <= #[trigger] d[i] <= 57 by {
            if i < p.len() {
                assert(d[i] == p[i]);
            }
        }
    }
}

proof fn lemma_single_newline(parts: Seq<u8>)
    requires
        forall|i: int| 0 <= i < parts.len() ==> parts[i] != 10u8,
    ensures
        newline_count(parts.push(10u8)) == 1,
{
    lemma_no_newline(parts);
    assert(parts.push(10u8).drop_last() =~= parts);
}

proof fn lemma_node_line_is_one_line(id: nat, sequence: Seq<u8>)
    requires
        is_dna_sequence(sequence),
    ensures
        newline_count(node_line(id, sequence)) == 1,
{
    lemma_decimal_digits(id);
    let body = seq![83u8, 9u8] + decimal(id) + seq![9u8] + sequence;
    assert(node_line(id, sequence) =~= body.push(10u8));
    assert forall|i: int| 0 <= i < body.len() implies body[i] != 10u8 by {
        let d = decimal(id).len();
        if 2 <= i < 2 + d {
            assert(body[i] == decimal(id)[i - 2]);
        } else if 3 + d <= i {
            assert(body[i] == sequence[i - 3 - d]);
            assert(is_nucleotide(sequence[i - 3 - d]));
        }
    }
    lemma_single_newline(body);
}

proof fn lemma_edge_line_is_one_line(e: Edge)
    ensures
        newline_count(edge_line(e)) == 1,
{
    lemma_decimal_digits(e.from as nat);
    lemma_decimal_digits(e.to as nat);
    let df = decimal(e.from as nat);
    let dt = decimal(e.to as nat);
    let body = seq![76u8, 9u8] + df + seq![9u8, sign_byte(e.from_sign), 9u8] + dt + seq![
        9u8,
        sign_byte(e.to_sign),
        9u8,
        48u8,
        77u8,
    ];
    assert(edge_line(e) =~= body.push(10u8));
    assert forall|i: int| 0 <= i < body.len() implies body[i] != 10u8 by {
        if 2 <= i < 2 + df.len() {
            assert(body[i] == df[i - 2]);
        } else if 5 + df.len() <= i < 5 + df.len() + dt.len() {
            assert(body[i] == dt[i - 5 - df.len()]);
        }
    }
    lemma_single_newline(body);
}

proof fn lemma_node_lines_count(nodes: Seq<Node>)
    requires
        forall|i: int| 0 <= i < nodes.len() ==> is_dna_sequence((#[trigger] nodes[i]).sequence@),
    ensures
        newline_count(node_lines(nodes)) == nodes.len(),
    decreases nodes.len(),
{
    if nodes.len() > 0 {
        let init = nodes.drop_last();
        assert forall|i: int| 0 <= i < init.len() implies is_dna_sequence(
            (#[trigger] init[i]).sequence@,
        ) by {
            assert(init[i] == nodes[i]);
        }
        lemma_node_lines_count(init);
        assert(is_dna_sequence(nodes[nodes.len() - 1].sequence@));
        lemma_node_line_is_one_line(nodes.last().id as nat, nodes.last().sequence@);
        lemma_newline_count_concat(
            node_lines(init),
            node_line(nodes.last().id as nat, nodes.last().sequence@),
        );
    }
}

proof fn lemma_edge_lines_count(edges: Seq<Edge>)
    ensures
        newline_count(edge_lines(edges)) == edges.len(),
    decreases edges.len(),
{
    if edges.len() > 0 {
        lemma_edge_lines_count(edges.drop_last());
        lemma_edge_line_is_one_line(edges.last());
        lemma_newline_count_concat(edge_lines(edges.drop_last()), edge_line(edges.last()));
    }
}

/// The text of a graph generated for `s` has exactly one header line,
/// `s.node_count` node lines and `s.edge_count` edge lines: one line each.
pub proof fn lemma_line_count(s: GraphSpec, g: Graph)
    requires
        g.generated_for(s),
    ensures
        newline_count(header_line()) == 1,
        newline_count(node_lines(g.nodes@)) == s.node_count,
        newline_count(edge_lines(g.edges@)) == s.edge_count,
        newline_count(graph_text(g)) == 1 + s.node_count + s.edge_count,
{
    lemma_single_newline(seq![72u8, 9u8, 86u8, 78u8, 58u8, 90u8, 58u8, 49u8, 46u8, 48u8]);
    assert(header_line() =~= seq![72u8, 9u8, 86u8, 78u8, 58u8, 90u8, 58u8, 49u8, 46u8, 48u8].push(
        10u8,
    ));
    lemma_node_lines_count(g.nodes@);
    lemma_edge_lines_count(g.edges@);
    lemma_newline_count_concat(header_line(), node_lines(g.nodes@));
    lemma_newline_count_concat(header_line() + node_lines(g.nodes@), edge_lines(g.edges@));
}

/// Asking for strong connectivity with fewer edges than nodes is rejected.
pub proof fn lemma_cycle_needs_enough_edges(s: GraphSpec)
    requires
        s.ensure_strongly_connected,
        s.edge_count < s.node_count,
    ensures
        config_error(s) == Some(ConfigError::TooFewEdgesForCycle),
{
}

/// Every orientation written on an edge line is `+` or `-`.
pub proof fn lemma_orientation_domain(e: Edge)
    ensures
        sign_byte(e.from_sign) == 43u8 || sign_byte(e.from_sign) == 45u8,
        sign_byte(e.to_sign) == 43u8 || sign_byte(e.to_sign) == 45u8,
{
}

/// `w` is a walk along `edges` on the forward strand: each node of `w` is
/// joined to the next by an edge from the first to the second, `+` on both ends.
pub open spec fn is_forward_walk(edges: Seq<Edge>, w: Seq<int>) -> bool {
    &&& w.len() > 0
    &&& forall|i: int| 0 <= i < w.len() - 1 ==> #[trigger] forward_edge(edges, w[i], w[i + 1])
}

/// Some edge leads from `x` to `y`, `+` on both ends.
pub open spec fn forward_edge(edges: Seq<Edge>, x: int, y: int) -> bool {
    exists|j: int|
        0 <= j < edges.len() && #[trigger] edges[j].from == x && edges[j].to == y
            && edges[j].from_sign == Sign::Plus && edges[j].to_sign == Sign::Plus
}

/// The node after `x` on the cycle 1 -> 2 -> ... -> n -> 1.
spec fn cycle_next(x: int, n: int) -> int {
    if x == n {
        1
    } else {
        x + 1
    }
}

/// The node `i` steps after `a` on the cycle through 1..=n.
spec fn cycle_walk(a: int, i: nat, n: int) -> int
    decreases i,
{
    if i == 0 {
        a
    } else {
        cycle_next(cycle_walk(a, (i - 1) as nat, n), n)
    }
}

proof fn lemma_cycle_walk(a: int, i: nat, n: int)
    requires
        1 <= a <= n,
        i < n,
    ensures
        cycle_walk(a, i, n) == if a + i <= n { a + i } else { a + i - n },
    decreases i,
{
    if i > 0 {
        lemma_cycle_walk(a, (i - 1) as nat, n);
    }
}

/// When strong connectivity is asked for, every node of a generated graph
/// reaches every node (itself included) along forward edges.
pub proof fn lemma_strongly_connected(s: GraphSpec, g: Graph, a: int, b: int)
    requires
        g.generated_for(s),
        s.ensure_strongly_connected,
        1 <= a <= s.node_count,
        1 <= b <= s.node_count,
    ensures
        exists|w: Seq<int>| is_forward_walk(g.edges@, w) && w[0] == a && w.last() == b,
{
    let n = s.node_count as int;
    let k: nat = if a <= b { (b - a) as nat } else { (b - a + n) as nat };
    let w = Seq::new(k + 1, |i: int| cycle_walk(a, i as nat, n));
    lemma_cycle_walk(a, k, n);
    assert forall|i: int| 0 <= i < w.len() - 1 implies #[trigger] forward_edge(
        g.edges@,
        w[i],
        w[i + 1],
    ) by {
        lemma_cycle_walk(a, i as nat, n);
        let x = w[i];
        assert(1 <= x <= n);
        let j = x - 1;
        assert(g.edges@[j] == cycle_edge(j, n));
        assert(w[i + 1] == cycle_next(x, n));
        assert(g.edges@[j].from == x && g.edges@[j].to == w[i + 1]);
    }
    assert(is_forward_walk(g.edges@, w) && w[0] == a && w.last() == b);
}

} // verus!
