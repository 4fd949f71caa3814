//! The text form of a graph: tab-separated lines, each ended by a newline.
//!
//! ```text
//! H	VN:Z:1.0
//! S	<id>	<sequence>
//! L	<from>	<sign>	<to>	<sign>	0M
//! ```

use crate::model::{Edge, Graph, Node, Sign};
use vstd::prelude::*;

verus! {

/// Decimal digits of `n`, most significant first, without leading zeros.
pub open spec fn decimal(n: nat) -> Seq<u8>
    decreases n,
{
    if n < 10 {
        seq![(48 + n) as u8]
    } else {
        decimal(n / 10).push((48 + n % 10) as u8)
    }
}

/// `+` or `-`.
pub open spec fn sign_byte(s: Sign) -> u8 {
    match s {
        Sign::Plus => 43u8,
        Sign::Minus => 45u8,
    }
}

/// `H\tVN:Z:1.0\n`
pub open spec fn header_line() -> Seq<u8> {
    seq![72u8, 9u8, 86u8, 78u8, 58u8, 90u8, 58u8, 49u8, 46u8, 48u8, 10u8]
}

/// `S\t<id>\t<sequence>\n`
pub open spec fn node_line(id: nat, sequence: Seq<u8>) -> Seq<u8> {
    seq![83u8, 9u8] + decimal(id) + seq![9u8] + sequence + seq![10u8]
}

/// `L\t<from>\t<sign>\t<to>\t<sign>\t0M\n`
pub open spec fn edge_line(e: Edge) -> Seq<u8> {
    seq![76u8, 9u8] + decimal(e.from as nat) + seq![9u8, sign_byte(e.from_sign), 9u8]
        + decimal(e.to as nat) + seq![9u8, sign_byte(e.to_sign), 9u8, 48u8, 77u8, 10u8]
}

/// The lines of `nodes`, in order.
pub open spec fn node_lines(nodes: Seq<Node>) -> Seq<u8>
    decreases nodes.len(),
{
    if nodes.len() == 0 {
        seq![]
    } else {
        node_lines(nodes.drop_last()) + node_line(
            nodes.last().id as nat,
            nodes.last().sequence@,
        )
    }
}

/// The lines of `edges`, in order.
pub open spec fn edge_lines(edges: Seq<Edge>) -> Seq<u8>
    decreases edges.len(),
{
    if edges.len() == 0 {
        seq![]
    } else {
        edge_lines(edges.drop_last()) + edge_line(edges.last())
    }
}

/// The whole text of a graph: header, then nodes, then edges.
pub open spec fn graph_text(g: Graph) -> Seq<u8> {
    header_line() + node_lines(g.nodes@) + edge_lines(g.edges@)
}

/// Appends the decimal digits of `n`.
pub fn push_decimal(out: &mut Vec<u8>, n: usize)
    ensures
        final(out)@ == old(out)@ + decimal(n as nat),
    decreases n,
{
    if n >= 10 {
        push_decimal(out, n / 10);
    }
    out.push(48u8 + (n % 10) as u8);
    proof {
        if n >= 10 {
            assert(old(out)@ + decimal(n as nat) =~= old(out)@ + decimal((n / 10) as nat) + seq![
                (48 + n % 10) as u8,
            ]);
        }
    }
    assert(final(out)@ =~= old(out)@ + decimal(n as nat));
}

/// The byte that stands for `s`.
pub fn sign_to_byte(s: Sign) -> (r: u8)
    ensures
        r == sign_byte(s),
{
    match s {
        Sign::Plus => 43u8,
        Sign::Minus => 45u8,
    }
}

/// Appends the header line.
pub fn push_header(out: &mut Vec<u8>)
    ensures
        final(out)@ == old(out)@ + header_line(),
{
    let ghost start = out@;
    out.push(72u8);
    out.push(9u8);
    out.push(86u8);
    out.push(78u8);
    out.push(58u8);
    out.push(90u8);
    out.push(58u8);
    out.push(49u8);
    out.push(46u8);
    out.push(48u8);
    out.push(10u8);
    assert(out@ =~= start + header_line());
}

/// Appends the line of one node.
pub fn push_node_line(out: &mut Vec<u8>, node: &Node)
    ensures
        final(out)@ == old(out)@ + node_line(node.id as nat, node.sequence@),
{
    let ghost start = out@;
    out.push(83u8);
    out.push(9u8);
    push_decimal(out, node.id);
    out.push(9u8);
    let mut i: usize = 0;
    let ghost mid = out@;
    while i < node.sequence.len()
        invariant
            0 <= i <= node.sequence@.len(),
            out@ == mid + node.sequence@.subrange(0, i as int),
        decreases node.sequence@.len() - i,
    {
        out.push(node.sequence[i]);
        assert(node.sequence@.subrange(0, i + 1) =~= node.sequence@.subrange(0, i as int).push(
            node.sequence@[i as int],
        ));
        i += 1;
    }
    out.push(10u8);
    assert(node.sequence@.subrange(0, i as int) =~= node.sequence@);
    assert(out@ =~= start + node_line(node.id as nat, node.sequence@));
}

/// Appends the line of one edge.
pub fn push_edge_line(out: &mut Vec<u8>, e: &Edge)
    ensures
        final(out)@ == old(out)@ + edge_line(*e),
{
    let ghost start = out@;
    out.push(76u8);
    out.push(9u8);
    push_decimal(out, e.from);
    out.push(9u8);
    out.push(sign_to_byte(e.from_sign));
    out.push(9u8);
    push_decimal(out, e.to);
    out.push(9u8);
    out.push(sign_to_byte(e.to_sign));
    out.push(9u8);
    out.push(48u8);
    out.push(77u8);
    out.push(10u8);
    assert(out@ =~= start + edge_line(*e));
}

/// The text of `g`.
pub fn render(g: &Graph) -> (r: Vec<u8>)
    ensures
        r@ == graph_text(*g),
{
    let mut out: Vec<u8> = Vec::new();
    push_header(&mut out);
    let mut i: usize = 0;
    while i < g.nodes.len()
        invariant
            0 <= i <= g.nodes@.len(),
            out@ == header_line() + node_lines(g.nodes@.subrange(0, i as int)),
        decreases g.nodes@.len() - i,
    {
        push_node_line(&mut out, &g.nodes[i]);
        assert(g.nodes@.subrange(0, i + 1).drop_last() =~= g.nodes@.subrange(0, i as int));
        i += 1;
    }
    assert(g.nodes@.subrange(0, i as int) =~= g.nodes@);
    let mut j: usize = 0;
    while j < g.edges.len()
        invariant
            0 <= j <= g.edges@.len(),
            i == g.nodes@.len(),
            out@ == header_line() + node_lines(g.nodes@) + edge_lines(g.edges@.subrange(0, j as int)),
        decreases g.edges@.len() - j,
    {
        push_edge_line(&mut out, &g.edges[j]);
        assert(g.edges@.subrange(0, j + 1).drop_last() =~= g.edges@.subrange(0, j as int));
        j += 1;
    }
    assert(g.edges@.subrange(0, j as int) =~= g.edges@);
    out
}

} // verus!
