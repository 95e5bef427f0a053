pub mod graphviz;
pub mod json;
pub mod node;
pub mod show_output;
pub mod tfstate;

use vstd::prelude::*;
use vstd::string::*;
use crate::node::{Node, NodeHeader, NodeId, path_named};

verus! {

/// Errors that can arise while resolving state backends and assembling the
/// dependency graph.
#[derive(Debug, Clone)]
pub enum GraphError {
    /// The external state-materialization command could not be run, or its
    /// output could not be read.
    TerraformCommand(String),
    /// Neither a remote nor a local state descriptor was found for the root
    /// at the given path.
    NoStateFile(String),
    /// A state descriptor or snapshot did not match the expected schema.
    UnableToParse,
    /// The external command's output was not valid UTF-8.
    InvalidUTF8,
    /// A root references a backend identity that no discovered root owns.
    UnresolvedReference(String),
    /// Two discovered roots report the same backend identity.
    DuplicateIdentity(String),
}

impl GraphError {
    /// The human-readable report for this error.
    pub open spec fn message_view(&self) -> Seq<char> {
        match self {
            GraphError::TerraformCommand(m) => {
                "An error occurred while running the terraform command: "@ + m@
            },
            GraphError::NoStateFile(p) => "Unable to find a terraform state file for "@ + p@,
            GraphError::UnableToParse => "Unable to parse the terraform json"@,
            GraphError::InvalidUTF8 => "Unable to convert the output to a string"@,
            GraphError::UnresolvedReference(s) => "Unable to resolve the referenced backend "@
                + s@,
            GraphError::DuplicateIdentity(s) => "Two roots share the backend identity "@ + s@,
        }
    }

    pub fn message(&self) -> (r: String)
        ensures
            r@ == self.message_view(),
    {
        match self {
            GraphError::TerraformCommand(m) => {
                let mut s = String::from_str(
                    "An error occurred while running the terraform command: ",
                );
                s.append(m.as_str());
                s
            },
            GraphError::NoStateFile(p) => {
                let mut s = String::from_str("Unable to find a terraform state file for ");
                s.append(p.as_str());
                s
            },
            GraphError::UnableToParse => String::from_str("Unable to parse the terraform json"),
            GraphError::InvalidUTF8 => String::from_str(
                "Unable to convert the output to a string",
            ),
            GraphError::UnresolvedReference(identity) => {
                let mut s = String::from_str("Unable to resolve the referenced backend ");
                s.append(identity.as_str());
                s
            },
            GraphError::DuplicateIdentity(identity) => {
                let mut s = String::from_str("Two roots share the backend identity ");
                s.append(identity.as_str());
                s
            },
        }
    }
}

/// The identity strings of an indexed backend list.
pub open spec fn firsts(backends: Seq<(String, NodeId)>) -> Seq<String> {
    backends.map_values(|p: (String, NodeId)| p.0)
}

/// The dependency lists as sequences.
pub open spec fn deps_view(d: Seq<Vec<NodeId>>) -> Seq<Seq<NodeId>> {
    d.map_values(|v: Vec<NodeId>| v@)
}

/// The reference lists as sequences.
pub open spec fn refs_view(r: Seq<Vec<String>>) -> Seq<Seq<String>> {
    r.map_values(|v: Vec<String>| v@)
}

/// The index of the first identity in `ids` whose text is `t`.
pub open spec fn spec_find_identity(ids: Seq<String>, t: Seq<char>) -> Option<int>
    decreases ids.len(),
{
    if ids.len() == 0 {
        None
    } else if ids[0]@ == t {
        Some(0int)
    } else {
        match spec_find_identity(ids.drop_first(), t) {
            None => None,
            Some(k) => Some(k + 1),
        }
    }
}

pub proof fn lemma_find_identity_spec(ids: Seq<String>, t: Seq<char>)
    ensures
        match spec_find_identity(ids, t) {
            Some(k) => 0 <= k < ids.len() && ids[k]@ == t && (forall|j: int|
                0 <= j < k ==> ids[j]@ != t),
            None => forall|j: int| 0 <= j < ids.len() ==> ids[j]@ != t,
        },
    decreases ids.len(),
{
    if ids.len() > 0 {
        let rest = ids.drop_first();
        lemma_find_identity_spec(rest, t);
        assert(forall|j: int| 0 <= j < rest.len() ==> #[trigger] rest[j] == ids[j + 1]);
        if ids[0]@ != t {
            match spec_find_identity(rest, t) {
                None => {
                    assert forall|j: int| 0 <= j < ids.len() implies ids[j]@ != t by {
                        if j > 0 {
                            assert(rest[j - 1] == ids[j]);
                        }
                    }
                },
                Some(k0) => {
                    assert(rest[k0] == ids[k0 + 1]);
                    assert forall|j: int| 0 <= j < k0 + 1 implies ids[j]@ != t by {
                        if j > 0 {
                            assert(rest[j - 1] == ids[j]);
                        }
                    }
                },
            }
        }
    }
}

/// The first position at or after `j` whose identity already occurs
/// earlier in `ids`.
pub open spec fn spec_first_dup_from(ids: Seq<String>, j: int) -> Option<int>
    decreases ids.len() - j,
    when 0 <= j <= ids.len()
{
    if j >= ids.len() {
        None
    } else if spec_find_identity(ids.take(j), ids[j]@) is Some {
        Some(j)
    } else {
        spec_first_dup_from(ids, j + 1)
    }
}

/// The first position whose identity already occurs earlier in `ids`:
/// `None` exactly when all identities are distinct.
pub open spec fn spec_first_dup(ids: Seq<String>) -> Option<int> {
    spec_first_dup_from(ids, 0)
}

/// The node ids that one root's reference list resolves to, in reference
/// order; the first identity absent from the index fails the list.
pub open spec fn spec_resolve_refs(ids: Seq<String>, refs: Seq<String>) -> Result<
    Seq<NodeId>,
    GraphError,
>
    decreases refs.len(),
{
    if refs.len() == 0 {
        Ok(Seq::<NodeId>::empty())
    } else {
        match spec_resolve_refs(ids, refs.drop_last()) {
            Err(e) => Err(e),
            Ok(pre) => match spec_find_identity(ids, refs.last()@) {
                Some(k) => Ok(pre.push(k as NodeId)),
                None => Err(GraphError::UnresolvedReference(refs.last())),
            },
        }
    }
}

/// Resolves every root's reference list, in root order.
pub open spec fn spec_resolve_all(ids: Seq<String>, refss: Seq<Seq<String>>) -> Result<
    Seq<Seq<NodeId>>,
    GraphError,
>
    decreases refss.len(),
{
    if refss.len() == 0 {
        Ok(Seq::<Seq<NodeId>>::empty())
    } else {
        match spec_resolve_all(ids, refss.drop_last()) {
            Err(e) => Err(e),
            Ok(pre) => match spec_resolve_refs(ids, refss.last()) {
                Err(e) => Err(e),
                Ok(l) => Ok(pre.push(l)),
            },
        }
    }
}

/// What a build yields from each root's identity and reference list: a
/// duplicate identity is a configuration error, then every reference must
/// resolve through the index.
pub open spec fn spec_build_deps(ids: Seq<String>, refss: Seq<Seq<String>>) -> Result<
    Seq<Seq<NodeId>>,
    GraphError,
> {
    match spec_first_dup(ids) {
        Some(j) => Err(GraphError::DuplicateIdentity(ids[j])),
        None => spec_resolve_all(ids, refss),
    }
}

/// The dependency graph of a set of infrastructure roots: the roots in
/// discovery order, the identity index built in phase one, and each root's
/// resolved dependency ids from phase two.
#[derive(Debug)]
pub struct TFGraph {
    pub roots: Vec<Node>,
    pub backends: Vec<(String, NodeId)>,
    pub dependency_list: Vec<Vec<NodeId>>,
}

impl Default for TFGraph {
    fn default() -> (g: TFGraph)
        ensures
            g.roots@ == Seq::<Node>::empty(),
            g.backends@ == Seq::<(String, NodeId)>::empty(),
            g.dependency_list@ == Seq::<Vec<NodeId>>::empty(),
    {
        TFGraph { roots: Vec::new(), backends: Vec::new(), dependency_list: Vec::new() }
    }
}

impl TFGraph {
    /// Every root's node carries its own index as id and a path a display
    /// name can be derived from.
    pub open spec fn wf(&self) -> bool {
        &&& self.roots@.len() <= 256
        &&& forall|i: int|
            0 <= i < self.roots@.len() ==> (#[trigger] self.roots@[i]).spec_id() == i as NodeId
        &&& forall|i: int| 0 <= i < self.roots@.len() ==> (#[trigger] self.roots@[i]).name_ok()
    }

    /// A graph that came out of a successful build: one dependency list per
    /// node, every listed id a known node.
    pub open spec fn built(&self) -> bool {
        &&& self.wf()
        &&& self.dependency_list@.len() == self.roots@.len()
        &&& forall|i: int, j: int|
            0 <= i < self.dependency_list@.len() && 0 <= j < self.dependency_list@[i]@.len()
                ==> (#[trigger] self.dependency_list@[i]@[j]) < self.roots@.len()
    }

    fn next_id(&self) -> (r: NodeId)
        requires
            self.roots@.len() < 256,
        ensures
            r == self.roots@.len() as NodeId,
    {
        self.roots.len() as NodeId
    }

    /// Appends one discovered root, assigning it the next id.
    pub fn with_root(self, path: String) -> (r: Self)
        requires
            self.wf(),
            self.roots@.len() < 256,
            path_named(path@),
        ensures
            r.roots@ == self.roots@.push(
                Node::Unprocessed(NodeHeader { id: self.roots@.len() as NodeId, path }),
            ),
            r.backends == self.backends,
            r.dependency_list == self.dependency_list,
            r.wf(),
    {
        let next_id = self.next_id();
        let mut graph = self;
        let node = Node::new(next_id, path);
        graph.roots.push(node);
        graph
    }

    /// Resolves the node id owning the backend identity `t`, searching the
    /// index in insertion order.
    fn find_backend(backends: &Vec<(String, NodeId)>, t: &String) -> (r: Option<NodeId>)
        ensures
            r == match spec_find_identity(firsts(backends@), t@) {
                None => None::<NodeId>,
                Some(k) => Some(backends@[k].1),
            },
    {
        let n = backends.len();
        let mut i: usize = 0;
        while i < n
            invariant
                i <= n,
                n == backends@.len(),
                forall|k: int| 0 <= k < i ==> (#[trigger] backends@[k]).0@ != t@,
            decreases n - i,
        {
            if backends[i].0.as_str().eq(t.as_str()) {
                proof {
                    lemma_find_identity_spec(firsts(backends@), t@);
                    assert(forall|k: int|
                        0 <= k < n ==> firsts(backends@)[k] == (#[trigger] backends@[k]).0);
                    assert(spec_find_identity(firsts(backends@), t@) == Some(i as int));
                }
                return Some(backends[i].1);
            }
            i = i + 1;
        }
        proof {
            lemma_find_identity_spec(firsts(backends@), t@);
            assert(forall|k: int|
                0 <= k < n ==> firsts(backends@)[k] == (#[trigger] backends@[k]).0);
        }
        None
    }

    /// Assembles the graph from each root's backend identity and the
    /// backend identities its snapshot references, both in root order.
    /// Phase one indexes the identities, reporting a duplicate rather than
    /// overwriting it; phase two resolves every reference through the
    /// index.
    pub fn build(self, identities: Vec<String>, references: Vec<Vec<String>>) -> (r: Result<
        TFGraph,
        GraphError,
    >)
        requires
            self.wf(),
            self.backends@.len() == 0,
            self.dependency_list@.len() == 0,
            identities@.len() == self.roots@.len(),
            references@.len() == self.roots@.len(),
        ensures
            match r {
                Ok(g) => {
                    &&& spec_build_deps(identities@, refs_view(references@)) matches Ok(deps)
                        && deps_view(g.dependency_list@) == deps
                    &&& g.roots == self.roots
                    &&& g.backends@.len() == identities@.len()
                    &&& forall|k: int|
                        0 <= k < identities@.len() ==> (#[trigger] g.backends@[k]).0
                            == identities@[k] && g.backends@[k].1 == k as NodeId
                    &&& g.built()
                },
                Err(e) => spec_build_deps(identities@, refs_view(references@)) == Err::<
                    Seq<Seq<NodeId>>,
                    _,
                >(e),
            },
    {
        let n = self.roots.len();
        let mut graph = self;
        let ghost ids = identities@;

        let mut j: usize = 0;
        while j < n
            invariant
                j <= n,
                n <= 256,
                n == ids.len(),
                ids == identities@,
                graph.backends@.len() == j,
                forall|k: int|
                    0 <= k < j ==> (#[trigger] graph.backends@[k]).0 == ids[k]
                        && graph.backends@[k].1 == k as NodeId,
                spec_first_dup(ids) == spec_first_dup_from(ids, j as int),
                graph.roots == self.roots,
                graph.dependency_list@.len() == 0,
            decreases n - j,
        {
            proof {
                assert(firsts(graph.backends@) =~= ids.take(j as int));
            }
            match Self::find_backend(&graph.backends, &identities[j]) {
                Some(_) => {
                    proof {
                        assert(spec_first_dup_from(ids, j as int) == Some(j as int));
                    }
                    return Err(GraphError::DuplicateIdentity(identities[j].clone()));
                },
                None => {
                    proof {
                        assert(spec_first_dup_from(ids, j as int) == spec_first_dup_from(
                            ids,
                            j + 1,
                        ));
                    }
                    let id_j = identities[j].clone();
                    graph.backends.push((id_j, j as u8));
                },
            }
            j = j + 1;
        }
        proof {
            assert(spec_first_dup(ids) is None);
        }

        let ghost refss = refs_view(references@);
        proof {
            assert(refss.take(0) =~= Seq::<Seq<String>>::empty());
            assert(deps_view(graph.dependency_list@) =~= Seq::<Seq<NodeId>>::empty());
        }
        let mut i: usize = 0;
        while i < n
            invariant
                i <= n,
                n <= 256,
                n == ids.len(),
                ids == identities@,
                n == references@.len(),
                refss == refs_view(references@),
                refss.len() == n,
                spec_first_dup(ids) is None,
                graph.backends@.len() == n,
                forall|k: int|
                    0 <= k < n ==> (#[trigger] graph.backends@[k]).0 == ids[k]
                        && graph.backends@[k].1 == k as NodeId,
                graph.dependency_list@.len() == i,
                spec_resolve_all(ids, refss.take(i as int)) == Ok::<_, GraphError>(
                    deps_view(graph.dependency_list@),
                ),
                forall|a: int, b: int|
                    0 <= a < i && 0 <= b < graph.dependency_list@[a]@.len() ==> (
                    #[trigger] graph.dependency_list@[a]@[b]) < n,
                graph.roots == self.roots,
            decreases n - i,
        {
            let refs = &references[i];
            let m = refs.len();
            let mut current: Vec<NodeId> = Vec::new();
            let mut b: usize = 0;
            while b < m
                invariant
                    b <= m,
                    m == refs@.len(),
                    refs@ == refss[i as int],
                    0 <= i < refss.len(),
                    n == ids.len(),
                    n <= 256,
                    refss.len() == n,
                    ids == identities@,
                    refss == refs_view(references@),
                    spec_first_dup(ids) is None,
                    graph.dependency_list@.len() == i,
                    spec_resolve_all(ids, refss.take(i as int)) == Ok::<_, GraphError>(
                        deps_view(graph.dependency_list@),
                    ),
                    graph.backends@.len() == n,
                    forall|k: int|
                        0 <= k < n ==> (#[trigger] graph.backends@[k]).0 == ids[k]
                            && graph.backends@[k].1 == k as NodeId,
                    spec_resolve_refs(ids, refs@.take(b as int)) == Ok::<_, GraphError>(current@),
                    forall|c: int| 0 <= c < current@.len() ==> (#[trigger] current@[c]) < n,
                decreases m - b,
            {
                proof {
                    assert(firsts(graph.backends@) =~= ids);
                    assert(refs@.take(b + 1).drop_last() =~= refs@.take(b as int));
                    assert(refs@.take(b + 1).last() == refs@[b as int]);
                }
                match Self::find_backend(&graph.backends, &refs[b]) {
                    Some(id) => {
                        proof {
                            lemma_find_identity_spec(ids, refs@[b as int]@);
                        }
                        current.push(id);
                        proof {
                            assert(spec_resolve_refs(ids, refs@.take(b + 1)) == Ok::<
                                _,
                                GraphError,
                            >(current@));
                        }
                    },
                    None => {
                        proof {
                            let e = GraphError::UnresolvedReference(refs@[b as int]);
                            assert(spec_resolve_refs(ids, refs@.take(b + 1)) == Err::<
                                Seq<NodeId>,
                                _,
                            >(e));
                            lemma_resolve_refs_err_persists(ids, refs@, b + 1, e);
                            assert(refss.take(i + 1).drop_last() =~= refss.take(i as int));
                            assert(refss.take(i + 1).last() == refss[i as int]);
                            assert(spec_resolve_all(ids, refss.take(i + 1)) == Err::<
                                Seq<Seq<NodeId>>,
                                _,
                            >(e));
                            lemma_resolve_all_err_persists(ids, refss, i + 1, e);
                        }
                        return Err(GraphError::UnresolvedReference(refs[b].clone()));
                    },
                }
                b = b + 1;
            }
            proof {
                assert(refs@.take(m as int) =~= refs@);
                assert(refss.take(i + 1).drop_last() =~= refss.take(i as int));
                assert(refss.take(i + 1).last() == refss[i as int]);
                assert(deps_view(graph.dependency_list@.push(current)) =~= deps_view(
                    graph.dependency_list@,
                ).push(current@));
            }
            graph.dependency_list.push(current);
            i = i + 1;
        }
        proof {
            assert(refss.take(n as int) =~= refss);
        }
        Ok(graph)
    }
}

proof fn lemma_resolve_refs_err_persists(ids: Seq<String>, refs: Seq<String>, i: int, e: GraphError)
    requires
        0 <= i <= refs.len(),
        spec_resolve_refs(ids, refs.take(i)) == Err::<Seq<NodeId>, _>(e),
    ensures
        spec_resolve_refs(ids, refs) == Err::<Seq<NodeId>, _>(e),
    decreases refs.len() - i,
{
    if i == refs.len() {
        assert(refs.take(i) =~= refs);
    } else {
        assert(refs.take(i + 1).drop_last() =~= refs.take(i));
        lemma_resolve_refs_err_persists(ids, refs, i + 1, e);
    }
}

proof fn lemma_resolve_all_err_persists(
    ids: Seq<String>,
    refss: Seq<Seq<String>>,
    i: int,
    e: GraphError,
)
    requires
        0 <= i <= refss.len(),
        spec_resolve_all(ids, refss.take(i)) == Err::<Seq<Seq<NodeId>>, _>(e),
    ensures
        spec_resolve_all(ids, refss) == Err::<Seq<Seq<NodeId>>, _>(e),
    decreases refss.len() - i,
{
    if i == refss.len() {
        assert(refss.take(i) =~= refss);
    } else {
        assert(refss.take(i + 1).drop_last() =~= refss.take(i));
        lemma_resolve_all_err_persists(ids, refss, i + 1, e);
    }
}

/// When every root's reference list resolves, the build resolves them all,
/// in root order.
pub proof fn lemma_resolve_all_ok(ids: Seq<String>, refss: Seq<Seq<String>>)
    requires
        forall|i: int| 0 <= i < refss.len() ==> spec_resolve_refs(ids, #[trigger] refss[i]) is Ok,
    ensures
        spec_resolve_all(ids, refss) matches Ok(deps) && deps.len() == refss.len() && (forall|
            i: int,
        |
            0 <= i < refss.len() ==> Ok::<_, GraphError>(#[trigger] deps[i]) == spec_resolve_refs(
                ids,
                refss[i],
            )),
    decreases refss.len(),
{
    if refss.len() > 0 {
        assert(forall|i: int|
            0 <= i < refss.drop_last().len() ==> #[trigger] refss.drop_last()[i] == refss[i]);
        lemma_resolve_all_ok(ids, refss.drop_last());
    }
}

/// Roots with no cross-references build into a graph whose dependency
/// lists are all empty, one per root.
pub proof fn lemma_no_references_no_edges(ids: Seq<String>, refss: Seq<Seq<String>>)
    requires
        spec_first_dup(ids) is None,
        forall|i: int| 0 <= i < refss.len() ==> (#[trigger] refss[i]).len() == 0,
    ensures
        spec_build_deps(ids, refss) matches Ok(deps) && deps.len() == refss.len() && (forall|
            i: int,
        | 0 <= i < refss.len() ==> (#[trigger] deps[i]).len() == 0),
{
    lemma_resolve_all_ok(ids, refss);
}

/// A single remote-state reference to another known root's identity
/// produces exactly one edge, to that root's id, and no other edges.
pub proof fn lemma_single_reference_single_edge(
    ids: Seq<String>,
    refss: Seq<Seq<String>>,
    from: int,
    to: int,
)
    requires
        spec_first_dup(ids) is None,
        ids.len() <= 256,
        0 <= from < refss.len(),
        refss[from].len() == 1,
        spec_find_identity(ids, refss[from][0]@) == Some(to),
        forall|i: int| 0 <= i < refss.len() && i != from ==> (#[trigger] refss[i]).len() == 0,
    ensures
        spec_build_deps(ids, refss) matches Ok(deps) && deps.len() == refss.len() && deps[from]
            == seq![to as NodeId] && (forall|i: int|
            0 <= i < refss.len() && i != from ==> (#[trigger] deps[i]).len() == 0),
{
    lemma_find_identity_spec(ids, refss[from][0]@);
    assert(0 <= to < 256);
    assert(refss[from].drop_last() =~= Seq::<String>::empty());
    assert(refss[from].last() == refss[from][0]);
    assert(spec_resolve_refs(ids, Seq::<String>::empty()) == Ok::<_, GraphError>(
        Seq::<NodeId>::empty(),
    ));
    assert(spec_resolve_refs(ids, refss[from]) == Ok::<_, GraphError>(
        Seq::<NodeId>::empty().push(to as NodeId),
    ));
    assert(Seq::<NodeId>::empty().push(to as NodeId) =~= seq![to as NodeId]);
    lemma_resolve_all_ok(ids, refss);
}

/// A reference list errs exactly when some reference resolves to no known
/// identity, and then the error is an unresolved-reference report naming
/// one such reference — never any other failure.
pub proof fn lemma_unresolved_reference(ids: Seq<String>, refs: Seq<String>)
    ensures
        spec_resolve_refs(ids, refs) is Err <==> exists|j: int|
            0 <= j < refs.len() && spec_find_identity(ids, (#[trigger] refs[j])@) is None,
        spec_resolve_refs(ids, refs) matches Err(e) ==> e matches GraphError::UnresolvedReference(
            s,
        ) && exists|j: int|
            0 <= j < refs.len() && #[trigger] refs[j] == s && spec_find_identity(ids, s@) is None,
    decreases refs.len(),
{
    if refs.len() > 0 {
        let pre = refs.drop_last();
        lemma_unresolved_reference(ids, pre);
        assert(forall|j: int| 0 <= j < refs.len() - 1 ==> #[trigger] pre[j] == refs[j]);
        assert(refs.last() == refs[refs.len() - 1]);
        if spec_resolve_refs(ids, refs) is Err {
            if spec_resolve_refs(ids, pre) is Err {
                let j = choose|j: int|
                    0 <= j < pre.len() && spec_find_identity(ids, (#[trigger] pre[j])@) is None;
                assert(0 <= j < refs.len() && spec_find_identity(ids, refs[j]@) is None);
            } else {
                let j = refs.len() - 1;
                assert(0 <= j < refs.len() && spec_find_identity(ids, refs[j]@) is None);
            }
        }
        if exists|j: int|
            0 <= j < refs.len() && spec_find_identity(ids, (#[trigger] refs[j])@) is None {
            let j = choose|j: int|
                0 <= j < refs.len() && spec_find_identity(ids, (#[trigger] refs[j])@) is None;
            if j < refs.len() - 1 {
                assert(pre[j] == refs[j]);
                assert(spec_resolve_refs(ids, pre) is Err);
            }
            assert(spec_resolve_refs(ids, refs) is Err);
        }
        if spec_resolve_refs(ids, refs) is Err {
            let e = spec_resolve_refs(ids, refs)->Err_0;
            if spec_resolve_refs(ids, pre) is Err {
                let e2 = spec_resolve_refs(ids, pre)->Err_0;
                assert(e == e2);
                let j = choose|j: int|
                    0 <= j < pre.len() && #[trigger] pre[j] == e2->UnresolvedReference_0
                        && spec_find_identity(ids, pre[j]@) is None;
                assert(refs[j] == e->UnresolvedReference_0);
            } else {
                assert(e == GraphError::UnresolvedReference(refs.last()));
                assert(refs[refs.len() - 1] == e->UnresolvedReference_0);
            }
        }
    }
}

proof fn lemma_find_respects_views(ids1: Seq<String>, ids2: Seq<String>, t: Seq<char>)
    requires
        ids1.len() == ids2.len(),
        forall|k: int| 0 <= k < ids1.len() ==> (#[trigger] ids1[k])@ == ids2[k]@,
    ensures
        spec_find_identity(ids1, t) == spec_find_identity(ids2, t),
    decreases ids1.len(),
{
    if ids1.len() > 0 {
        lemma_find_respects_views(ids1.drop_first(), ids2.drop_first(), t);
    }
}

proof fn lemma_first_dup_respects_views(ids1: Seq<String>, ids2: Seq<String>, j: int)
    requires
        ids1.len() == ids2.len(),
        forall|k: int| 0 <= k < ids1.len() ==> (#[trigger] ids1[k])@ == ids2[k]@,
        0 <= j <= ids1.len(),
    ensures
        spec_first_dup_from(ids1, j) == spec_first_dup_from(ids2, j),
    decreases ids1.len() - j,
{
    if j < ids1.len() {
        assert(forall|k: int| 0 <= k < j ==> (#[trigger] ids1.take(j)[k])@ == ids2.take(j)[k]@);
        lemma_find_respects_views(ids1.take(j), ids2.take(j), ids1[j]@);
        lemma_first_dup_respects_views(ids1, ids2, j + 1);
    }
}

proof fn lemma_resolve_refs_respects_views(
    ids1: Seq<String>,
    ids2: Seq<String>,
    refs1: Seq<String>,
    refs2: Seq<String>,
)
    requires
        ids1.len() == ids2.len(),
        forall|k: int| 0 <= k < ids1.len() ==> (#[trigger] ids1[k])@ == ids2[k]@,
        refs1.len() == refs2.len(),
        forall|k: int| 0 <= k < refs1.len() ==> (#[trigger] refs1[k])@ == refs2[k]@,
    ensures
        spec_resolve_refs(ids1, refs1) is Ok <==> spec_resolve_refs(ids2, refs2) is Ok,
        spec_resolve_refs(ids1, refs1) is Ok ==> spec_resolve_refs(ids1, refs1)->Ok_0
            == spec_resolve_refs(ids2, refs2)->Ok_0,
    decreases refs1.len(),
{
    if refs1.len() > 0 {
        assert(forall|k: int|
            0 <= k < refs1.len() - 1 ==> (#[trigger] refs1.drop_last()[k])@
                == refs2.drop_last()[k]@);
        lemma_resolve_refs_respects_views(ids1, ids2, refs1.drop_last(), refs2.drop_last());
        lemma_find_respects_views(ids1, ids2, refs1.last()@);
        assert(refs1.last()@ == refs2.last()@);
    }
}

proof fn lemma_resolve_all_respects_views(
    ids1: Seq<String>,
    ids2: Seq<String>,
    refss1: Seq<Seq<String>>,
    refss2: Seq<Seq<String>>,
)
    requires
        ids1.len() == ids2.len(),
        forall|k: int| 0 <= k < ids1.len() ==> (#[trigger] ids1[k])@ == ids2[k]@,
        refss1.len() == refss2.len(),
        forall|i: int|
            0 <= i < refss1.len() ==> (#[trigger] refss1[i]).len() == refss2[i].len() && (forall|
                k: int,
            | 0 <= k < refss1[i].len() ==> (#[trigger] refss1[i][k])@ == refss2[i][k]@),
    ensures
        spec_resolve_all(ids1, refss1) is Ok <==> spec_resolve_all(ids2, refss2) is Ok,
        spec_resolve_all(ids1, refss1) is Ok ==> spec_resolve_all(ids1, refss1)->Ok_0
            == spec_resolve_all(ids2, refss2)->Ok_0,
    decreases refss1.len(),
{
    if refss1.len() > 0 {
        assert(forall|i: int|
            0 <= i < refss1.len() - 1 ==> #[trigger] refss1.drop_last()[i] == refss1[i]
                && refss2.drop_last()[i] == refss2[i]);
        lemma_resolve_all_respects_views(ids1, ids2, refss1.drop_last(), refss2.drop_last());
        lemma_resolve_refs_respects_views(ids1, ids2, refss1.last(), refss2.last());
    }
}

/// Rebuilding the graph from unchanged roots is idempotent: when the
/// identities and the referenced identities read the same, a successful
/// build yields the very same dependency lists (the node set is fixed by
/// the roots alone).
pub proof fn lemma_build_idempotent(
    ids1: Seq<String>,
    ids2: Seq<String>,
    refss1: Seq<Seq<String>>,
    refss2: Seq<Seq<String>>,
)
    requires
        ids1.len() == ids2.len(),
        forall|k: int| 0 <= k < ids1.len() ==> (#[trigger] ids1[k])@ == ids2[k]@,
        refss1.len() == refss2.len(),
        forall|i: int|
            0 <= i < refss1.len() ==> (#[trigger] refss1[i]).len() == refss2[i].len() && (forall|
                k: int,
            | 0 <= k < refss1[i].len() ==> (#[trigger] refss1[i][k])@ == refss2[i][k]@),
    ensures
        spec_build_deps(ids1, refss1) is Ok <==> spec_build_deps(ids2, refss2) is Ok,
        spec_build_deps(ids1, refss1) is Ok ==> spec_build_deps(ids1, refss1)->Ok_0
            == spec_build_deps(ids2, refss2)->Ok_0,
{
    lemma_first_dup_respects_views(ids1, ids2, 0);
    lemma_resolve_all_respects_views(ids1, ids2, refss1, refss2);
}

} // verus!
