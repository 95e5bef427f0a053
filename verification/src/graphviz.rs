use vstd::prelude::*;
use vstd::string::*;
use crate::node::{Node, NodeId};
use crate::{deps_view, TFGraph};

verus! {

/// The digit character for a value below ten.
pub open spec fn dec_digit(d: int) -> char {
    if d == 0 {
        '0'
    } else if d == 1 {
        '1'
    } else if d == 2 {
        '2'
    } else if d == 3 {
        '3'
    } else if d == 4 {
        '4'
    } else if d == 5 {
        '5'
    } else if d == 6 {
        '6'
    } else if d == 7 {
        '7'
    } else if d == 8 {
        '8'
    } else {
        '9'
    }
}

/// The decimal rendering of a non-negative number, most significant digit
/// first, without leading zeros.
pub open spec fn dec_spec(n: int) -> Seq<char>
    decreases n,
    when n >= 0
{
    if n < 10 {
        seq![dec_digit(n)]
    } else {
        dec_spec(n / 10).push(dec_digit(n % 10))
    }
}

fn digit_str(d: u8) -> (r: &'static str)
    requires
        d < 10,
    ensures
        r@ == seq![dec_digit(d as int)],
{
    if d == 0 {
        proof {
            reveal_strlit("0");
            assert("0"@ =~= seq![dec_digit(0)]);
        }
        "0"
    } else if d == 1 {
        proof {
            reveal_strlit("1");
            assert("1"@ =~= seq![dec_digit(1)]);
        }
        "1"
    } else if d == 2 {
        proof {
            reveal_strlit("2");
            assert("2"@ =~= seq![dec_digit(2)]);
        }
        "2"
    } else if d == 3 {
        proof {
            reveal_strlit("3");
            assert("3"@ =~= seq![dec_digit(3)]);
        }
        "3"
    } else if d == 4 {
        proof {
            reveal_strlit("4");
            assert("4"@ =~= seq![dec_digit(4)]);
        }
        "4"
    } else if d == 5 {
        proof {
            reveal_strlit("5");
            assert("5"@ =~= seq![dec_digit(5)]);
        }
        "5"
    } else if d == 6 {
        proof {
            reveal_strlit("6");
            assert("6"@ =~= seq![dec_digit(6)]);
        }
        "6"
    } else if d == 7 {
        proof {
            reveal_strlit("7");
            assert("7"@ =~= seq![dec_digit(7)]);
        }
        "7"
    } else if d == 8 {
        proof {
            reveal_strlit("8");
            assert("8"@ =~= seq![dec_digit(8)]);
        }
        "8"
    } else {
        proof {
            reveal_strlit("9");
            assert("9"@ =~= seq![dec_digit(9)]);
        }
        "9"
    }
}

/// Renders a node id in decimal.
fn u8_to_string(n: u8) -> (r: String)
    ensures
        r@ == dec_spec(n as int),
    decreases n,
{
    if n < 10 {
        String::from_str(digit_str(n))
    } else {
        let mut s = u8_to_string(n / 10);
        s.append(digit_str(n % 10));
        s
    }
}

/// One node declaration line, labelled with the node's display name.
pub open spec fn spec_node_line(node: Node) -> Seq<char> {
    "  "@ + dec_spec(node.spec_id() as int) + " [label=\""@ + node.spec_name() + "\"];\n"@
}

/// The node declarations of the first `i` roots.
pub open spec fn spec_node_lines(roots: Seq<Node>, i: int) -> Seq<char>
    decreases i,
    when 0 <= i <= roots.len()
{
    if i == 0 {
        Seq::<char>::empty()
    } else {
        spec_node_lines(roots, i - 1) + spec_node_line(roots[i - 1])
    }
}

/// One edge declaration line from node `src` to node `dep`.
pub open spec fn spec_edge_line(src: int, dep: NodeId) -> Seq<char> {
    "  "@ + dec_spec(src) + " -> "@ + dec_spec(dep as int) + ";\n"@
}

/// The first `j` edges of node `src`'s dependency row.
pub open spec fn spec_edge_row(src: int, deps: Seq<NodeId>, j: int) -> Seq<char>
    decreases j,
    when 0 <= j <= deps.len()
{
    if j == 0 {
        Seq::<char>::empty()
    } else {
        spec_edge_row(src, deps, j - 1) + spec_edge_line(src, deps[j - 1])
    }
}

/// The edge declarations of the first `i` dependency rows.
pub open spec fn spec_edge_rows(deps: Seq<Seq<NodeId>>, i: int) -> Seq<char>
    decreases i,
    when 0 <= i <= deps.len()
{
    if i == 0 {
        Seq::<char>::empty()
    } else {
        spec_edge_rows(deps, i - 1) + spec_edge_row(i - 1, deps[i - 1], deps[i - 1].len() as int)
    }
}

/// The rendered graph: a directed-graph header, one node line per root in
/// id order, one edge line per resolved dependency in row order, and the
/// closing brace.
pub open spec fn spec_graphviz(roots: Seq<Node>, deps: Seq<Seq<NodeId>>) -> Seq<char> {
    "digraph G {\n"@ + spec_node_lines(roots, roots.len() as int) + spec_edge_rows(
        deps,
        deps.len() as int,
    ) + "}\n"@
}

/// Renders a built graph as directed-graph text: every root as a node
/// labelled with its display name, every resolved dependency as an edge.
pub fn output_graphviz(graph: &TFGraph) -> (r: String)
    requires
        graph.built(),
    ensures
        r@ == spec_graphviz(graph.roots@, deps_view(graph.dependency_list@)),
{
    let mut output = String::from_str("digraph G {\n");
    let n = graph.roots.len();

    let mut i: usize = 0;
    while i < n
        invariant
            i <= n,
            n == graph.roots@.len(),
            graph.built(),
            output@ == "digraph G {\n"@ + spec_node_lines(graph.roots@, i as int),
        decreases n - i,
    {
        let node = &graph.roots[i];
        output.append("  ");
        let id_s = u8_to_string(node.id());
        output.append(id_s.as_str());
        output.append(" [label=\"");
        let name = node.name();
        output.append(name.as_str());
        output.append("\"];\n");
        proof {
            assert(output@ =~= "digraph G {\n"@ + spec_node_lines(graph.roots@, i + 1));
        }
        i = i + 1;
    }

    let ghost deps = deps_view(graph.dependency_list@);
    let ghost nodes_done = "digraph G {\n"@ + spec_node_lines(graph.roots@, n as int);
    let mut s: usize = 0;
    while s < n
        invariant
            s <= n,
            n == graph.roots@.len(),
            n <= 256,
            graph.built(),
            deps == deps_view(graph.dependency_list@),
            deps.len() == n,
            nodes_done == "digraph G {\n"@ + spec_node_lines(graph.roots@, n as int),
            output@ == nodes_done + spec_edge_rows(deps, s as int),
        decreases n - s,
    {
        let row = &graph.dependency_list[s];
        let m = row.len();
        let mut j: usize = 0;
        while j < m
            invariant
                j <= m,
                m == row@.len(),
                s < n,
                n <= 256,
                row@ == deps[s as int],
                output@ == nodes_done + spec_edge_rows(deps, s as int) + spec_edge_row(
                    s as int,
                    deps[s as int],
                    j as int,
                ),
            decreases m - j,
        {
            output.append("  ");
            let src_s = u8_to_string(s as u8);
            output.append(src_s.as_str());
            output.append(" -> ");
            let dep_s = u8_to_string(row[j]);
            output.append(dep_s.as_str());
            output.append(";\n");
            proof {
                assert(output@ =~= nodes_done + spec_edge_rows(deps, s as int) + spec_edge_row(
                    s as int,
                    deps[s as int],
                    j + 1,
                ));
            }
            j = j + 1;
        }
        proof {
            assert(spec_edge_rows(deps, s + 1) == spec_edge_rows(deps, s as int) + spec_edge_row(
                s as int,
                deps[s as int],
                deps[s as int].len() as int,
            ));
            assert(output@ =~= nodes_done + spec_edge_rows(deps, s + 1));
        }
        s = s + 1;
    }
    output.append("}\n");
    proof {
        assert(output@ =~= spec_graphviz(graph.roots@, deps));
    }
    output
}

} // verus!
