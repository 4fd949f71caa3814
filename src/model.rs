//! The graph records and the rules that a generated graph obeys.

use vstd::prelude::*;

verus! {

/// Shortest sequence that a node can carry.
pub const MIN_SEQUENCE_LEN: usize = 5;

/// Longest sequence that a node can carry.
pub const MAX_SEQUENCE_LEN: usize = 15;

/// Strand orientation of one endpoint of an edge.
#[derive(Clone, Copy, Debug, PartialEq, Eq, Structural)]
pub enum Sign {
    Plus,
    Minus,
}

/// A link between two oriented node endpoints (1-based node ids).
#[derive(Clone, Copy, Debug, PartialEq, Eq, Structural)]
pub struct Edge {
    pub from: usize,
    pub from_sign: Sign,
    pub to: usize,
    pub to_sign: Sign,
}

/// A node id with the DNA sequence (ASCII bytes) it carries.
#[derive(Debug)]
pub struct Node {
    pub id: usize,
    pub sequence: Vec<u8>,
}

/// A generated graph: nodes in ascending id order, then edges in emission order.
#[derive(Debug)]
pub struct Graph {
    pub nodes: Vec<Node>,
    pub edges: Vec<Edge>,
}

/// What the caller asks for.
#[derive(Clone, Copy, Debug, PartialEq, Eq, Structural)]
pub struct GraphSpec {
    pub node_count: usize,
    pub edge_count: usize,
    pub ensure_strongly_connected: bool,
}

/// An input combination that cannot be generated.
#[derive(Clone, Copy, Debug, PartialEq, Eq, Structural)]
pub enum ConfigError {
    /// A cycle through all nodes was asked for, with fewer edges than nodes.
    TooFewEdgesForCycle,
    /// Random edges were asked for on a graph without nodes.
    EdgesWithoutNodes,
}

impl ConfigError {
    /// A human-readable description of the error.
    pub fn message(&self) -> (r: String)
        ensures
            r@ == error_message(*self),
    {
        match self {
            ConfigError::TooFewEdgesForCycle => {
                "Cannot ensure strong connectivity with fewer edges than nodes.".to_owned()
            },
            ConfigError::EdgesWithoutNodes => {
                "Cannot draw random edges in a graph without nodes.".to_owned()
            },
        }
    }
}

/// The text that describes `e`.
pub open spec fn error_message(e: ConfigError) -> Seq<char> {
    match e {
        ConfigError::TooFewEdgesForCycle => "Cannot ensure strong connectivity with fewer edges than nodes."@,
        ConfigError::EdgesWithoutNodes => "Cannot draw random edges in a graph without nodes."@,
    }
}

/// The error that `s` is rejected with, if any.
pub open spec fn config_error(s: GraphSpec) -> Option<ConfigError> {
    if s.ensure_strongly_connected && s.edge_count < s.node_count {
        Some(ConfigError::TooFewEdgesForCycle)
    } else if s.node_count == 0 && random_edge_budget(s) > 0 {
        Some(ConfigError::EdgesWithoutNodes)
    } else {
        None
    }
}

/// How many edges are drawn at random once the cycle (if any) is laid.
pub open spec fn random_edge_budget(s: GraphSpec) -> int {
    if s.ensure_strongly_connected {
        s.edge_count - s.node_count
    } else {
        s.edge_count as int
    }
}

pub open spec fn is_nucleotide(b: u8) -> bool {
    b == 65u8 || b == 67u8 || b == 71u8 || b == 84u8
}

/// A sequence over {A, C, G, T} whose length lies in the allowed range.
pub open spec fn is_dna_sequence(s: Seq<u8>) -> bool {
    &&& MIN_SEQUENCE_LEN <= s.len() <= MAX_SEQUENCE_LEN
    &&& forall|i: int| 0 <= i < s.len() ==> is_nucleotide(#[trigger] s[i])
}

/// The `i`-th edge (0-based) of the cycle 1 -> 2 -> ... -> n -> 1.
pub open spec fn cycle_edge(i: int, n: int) -> Edge {
    Edge {
        from: (i + 1) as usize,
        from_sign: Sign::Plus,
        to: if i + 1 == n { 1usize } else { (i + 2) as usize },
        to_sign: Sign::Plus,
    }
}

/// Both endpoints name one of the nodes 1..=n.
pub open spec fn edge_in_range(e: Edge, n: int) -> bool {
    1 <= e.from <= n && 1 <= e.to <= n
}

/// The nodes are exactly 1..=n in ascending order, each with a valid sequence.
pub open spec fn nodes_ok(nodes: Seq<Node>, n: int) -> bool {
    &&& nodes.len() == n
    &&& forall|i: int| 0 <= i < n ==> (#[trigger] nodes[i]).id == i + 1
    &&& forall|i: int| 0 <= i < n ==> is_dna_sequence((#[trigger] nodes[i]).sequence@)
}

/// The edges are `s.edge_count` links between existing nodes, led by the full
/// cycle when strong connectivity is asked for.
pub open spec fn edges_ok(edges: Seq<Edge>, s: GraphSpec) -> bool {
    &&& edges.len() == s.edge_count
    &&& s.ensure_strongly_connected ==> s.node_count <= s.edge_count
    &&& forall|i: int| 0 <= i < edges.len() ==> edge_in_range(#[trigger] edges[i], s.node_count as int)
    &&& s.ensure_strongly_connected ==> forall|i: int|
        0 <= i < s.node_count ==> #[trigger] edges[i] == cycle_edge(i, s.node_count as int)
}

impl Graph {
    /// `self` is a graph that the generator may produce for `s`.
    pub open spec fn generated_for(&self, s: GraphSpec) -> bool {
        &&& nodes_ok(self.nodes@, s.node_count as int)
        &&& edges_ok(self.edges@, s)
    }
}

/// Checks the inputs before anything is generated.
pub fn validate(s: &GraphSpec) -> (r: Result<(), ConfigError>)
    ensures
        r is Ok <==> config_error(*s) is None,
        r matches Err(e) ==> config_error(*s) == Some(e),
{
    if s.ensure_strongly_connected && s.edge_count < s.node_count {
        Err(ConfigError::TooFewEdgesForCycle)
    } else if s.node_count == 0 && s.edge_count > 0 {
        Err(ConfigError::EdgesWithoutNodes)
    } else {
        Ok(())
    }
}

/// The `i`-th edge of the cycle through nodes 1..=n.
pub fn cycle_edge_at(i: usize, n: usize) -> (r: Edge)
    requires
        i < n,
    ensures
        r == cycle_edge(i as int, n as int),
{
    let to = if i + 1 == n { 1 } else { i + 2 };
    Edge { from: i + 1, from_sign: Sign::Plus, to, to_sign: Sign::Plus }
}

} // verus!
