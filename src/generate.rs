//! The generation procedure: nodes with random sequences, the optional cycle
//! through all nodes, then random edges, all drawn from one random stream.

use crate::model::{
    config_error, cycle_edge, cycle_edge_at, edge_in_range, is_dna_sequence, is_nucleotide,
    random_edge_budget, validate, ConfigError, Edge, Graph, GraphSpec, Node, Sign,
    MAX_SEQUENCE_LEN, MIN_SEQUENCE_LEN,
};
use crate::random::{picks, Draw, RandomSource};
use crate::text::{graph_text, render};
use vstd::prelude::*;

verus! {

/// The draws behind one sequence of `len` symbols: its length, then each
/// symbol as a pick among the four nucleotides.
pub open spec fn sequence_draws(len: nat) -> Seq<Draw> {
    seq![(MIN_SEQUENCE_LEN as int, MAX_SEQUENCE_LEN as int)] + picks(len, 4)
}

/// The draws behind `nodes`, in node order.
pub open spec fn node_draws(nodes: Seq<Node>) -> Seq<Draw>
    decreases nodes.len(),
{
    if nodes.len() == 0 {
        seq![]
    } else {
        node_draws(nodes.drop_last()) + sequence_draws(nodes.last().sequence@.len())
    }
}

/// The draws behind one random edge among `n` nodes: from, to, from's sign,
/// to's sign.
pub open spec fn edge_draws(n: int) -> Seq<Draw> {
    seq![(1, n), (1, n)] + picks(1, 2) + picks(1, 2)
}

/// The draws behind `count` random edges among `n` nodes.
pub open spec fn random_edges_draws(n: int, count: nat) -> Seq<Draw>
    decreases count,
{
    if count == 0 {
        seq![]
    } else {
        random_edges_draws(n, (count - 1) as nat) + edge_draws(n)
    }
}

/// The draws behind a whole graph generated for `s`: all node draws, none for
/// the cycle, then the random edges.
pub open spec fn graph_draws(s: GraphSpec, g: Graph) -> Seq<Draw> {
    node_draws(g.nodes@) + random_edges_draws(s.node_count as int, random_edge_budget(s) as nat)
}

/// Draws a length in `MIN_SEQUENCE_LEN..=MAX_SEQUENCE_LEN`, then that many
/// symbols of {A, C, G, T}.
pub fn random_dna_string(rng: &mut RandomSource) -> (r: Vec<u8>)
    ensures
        is_dna_sequence(r@),
        final(rng).history() == old(rng).history() + sequence_draws(r@.len()),
{
    let length = rng.draw_inclusive(MIN_SEQUENCE_LEN, MAX_SEQUENCE_LEN);
    let nucleotides: [u8; 4] = [65u8, 67u8, 71u8, 84u8];
    let r = rng.pick_many(nucleotides.as_slice(), length);
    assert forall|i: int| 0 <= i < r@.len() implies is_nucleotide(#[trigger] r@[i]) by {
        assert(nucleotides@.contains(r@[i]));
    }
    assert(final(rng).history() =~= old(rng).history() + sequence_draws(r@.len()));
    r
}

/// Draws `+` or `-`.
pub fn random_sign(rng: &mut RandomSource) -> (r: Sign)
    ensures
        final(rng).history() == old(rng).history() + picks(1, 2),
{
    let signs: [u8; 2] = [43u8, 45u8];
    if rng.pick(signs.as_slice()) == 43u8 {
        Sign::Plus
    } else {
        Sign::Minus
    }
}

/// Draws an edge between nodes of 1..=n, in the order: from, to, from's sign,
/// to's sign.
pub fn random_edge(rng: &mut RandomSource, n: usize) -> (r: Edge)
    requires
        n >= 1,
    ensures
        edge_in_range(r, n as int),
        final(rng).history() == old(rng).history() + edge_draws(n as int),
{
    let from = rng.draw_inclusive(1, n);
    let to = rng.draw_inclusive(1, n);
    let from_sign = random_sign(rng);
    let to_sign = random_sign(rng);
    assert(final(rng).history() =~= old(rng).history() + edge_draws(n as int));
    Edge { from, from_sign, to, to_sign }
}

/// Generates a graph for `s` from `rng`, or rejects `s` before drawing anything.
pub fn generate_graph(s: &GraphSpec, rng: &mut RandomSource) -> (r: Result<Graph, ConfigError>)
    ensures
        r is Ok <==> config_error(*s) is None,
        r matches Err(e) ==> config_error(*s) == Some(e) && final(rng).history() == old(
            rng,
        ).history(),
        r matches Ok(g) ==> g.generated_for(*s) && final(rng).history() == old(rng).history()
            + graph_draws(*s, g),
{
    match validate(s) {
        Err(e) => { return Err(e); },
        Ok(()) => {},
    }
    let ghost start = rng.history();
    let n = s.node_count;
    let mut nodes: Vec<Node> = Vec::new();
    let mut i: usize = 0;
    while i < n
        invariant
            0 <= i <= n,
            nodes@.len() == i,
            forall|k: int| 0 <= k < nodes@.len() ==> (#[trigger] nodes@[k]).id == k + 1,
            forall|k: int| 0 <= k < nodes@.len() ==> is_dna_sequence((#[trigger] nodes@[k]).sequence@),
            rng.history() == start + node_draws(nodes@),
        decreases n - i,
    {
        let sequence = random_dna_string(rng);
        let ghost before = nodes@;
        nodes.push(Node { id: i + 1, sequence });
        assert(nodes@.drop_last() =~= before);
        assert(rng.history() =~= start + node_draws(nodes@));
        i += 1;
    }
    let ghost after_nodes = rng.history();
    let mut edges: Vec<Edge> = Vec::new();
    let budget: usize;
    if s.ensure_strongly_connected {
        let mut c: usize = 0;
        while c < n
            invariant
                0 <= c <= n,
                edges@.len() == c,
                forall|k: int| 0 <= k < c ==> #[trigger] edges@[k] == cycle_edge(k, n as int),
                forall|k: int| 0 <= k < c ==> edge_in_range(#[trigger] edges@[k], n as int),
            decreases n - c,
        {
            edges.push(cycle_edge_at(c, n));
            c += 1;
        }
        budget = s.edge_count - n;
    } else {
        budget = s.edge_count;
    }
    let ghost prefix = edges@;
    let mut k: usize = 0;
    while k < budget
        invariant
            0 <= k <= budget,
            budget == random_edge_budget(*s),
            budget > 0 ==> n >= 1,
            edges@.len() == prefix.len() + k,
            prefix.len() + budget == s.edge_count,
            forall|j: int| 0 <= j < prefix.len() ==> #[trigger] edges@[j] == prefix[j],
            forall|j: int| 0 <= j < edges@.len() ==> edge_in_range(#[trigger] edges@[j], n as int),
            rng.history() == after_nodes + random_edges_draws(n as int, k as nat),
        decreases budget - k,
    {
        let e = random_edge(rng, n);
        edges.push(e);
        assert(rng.history() =~= after_nodes + random_edges_draws(n as int, (k + 1) as nat));
        k += 1;
    }
    let g = Graph { nodes, edges };
    assert(rng.history() =~= start + graph_draws(*s, g));
    Ok(g)
}

/// Generates the text of a graph for `s` from the stream fixed by `seed`, or
/// rejects `s` without producing any text.
pub fn generate(s: &GraphSpec, seed: u64) -> (r: Result<Vec<u8>, ConfigError>)
    ensures
        r is Ok <==> config_error(*s) is None,
        r matches Err(e) ==> config_error(*s) == Some(e),
        r matches Ok(text) ==> exists|g: Graph| #[trigger] g.generated_for(*s) && text@ == graph_text(g),
{
    let mut rng = RandomSource::from_seed(seed);
    match generate_graph(s, &mut rng) {
        Ok(g) => {
            let text = render(&g);
            assert(g.generated_for(*s) && text@ == graph_text(g));
            Ok(text)
        },
        Err(e) => Err(e),
    }
}

} // verus!
