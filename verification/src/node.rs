use vstd::prelude::*;
use vstd::string::*;

verus! {

/// Identifier of a root node; assigned in discovery order, stable only
/// within a single run.
pub type NodeId = u8;

/// The suffix of `s` after its last `'/'`; the whole of `s` when it holds
/// none. Empty exactly when `s` is empty or ends with `'/'`.
pub open spec fn name_spec(s: Seq<char>) -> Seq<char>
    decreases s.len(),
{
    if s.len() == 0 {
        s
    } else if s.last() == '/' {
        Seq::<char>::empty()
    } else {
        name_spec(s.drop_last()).push(s.last())
    }
}

/// A path from which a non-empty display name can be derived.
pub open spec fn path_named(s: Seq<char>) -> bool {
    s.len() > 0 && s.last() != '/'
}

proof fn lemma_name_spec_subrange(s: Seq<char>, i: int)
    requires
        0 <= i <= s.len(),
        forall|j: int| i <= j < s.len() ==> s[j] != '/',
        i > 0 ==> s[i - 1] == '/',
    ensures
        name_spec(s) == s.subrange(i, s.len() as int),
    decreases s.len(),
{
    if i == s.len() {
        assert(s.subrange(i, s.len() as int) =~= Seq::<char>::empty());
        if s.len() > 0 {
            assert(s.last() == '/');
        }
    } else {
        assert(s.last() != '/');
        lemma_name_spec_subrange(s.drop_last(), i);
        assert(s.drop_last().subrange(i, s.len() - 1) =~= s.subrange(i, s.len() - 1));
        assert(s.subrange(i, s.len() - 1).push(s.last()) =~= s.subrange(i, s.len() as int));
    }
}

/// A nameable path always yields a non-empty display name.
pub proof fn lemma_name_spec_nonempty(s: Seq<char>)
    requires
        path_named(s),
    ensures
        name_spec(s).len() > 0,
{
}

/// Returns the last `'/'`-separated segment of `path`.
fn last_segment(path: &str) -> (r: String)
    ensures
        r@ == name_spec(path@),
{
    let n: usize = path.unicode_len();
    let mut i: usize = n;
    while i > 0 && path.get_char(i - 1) != '/'
        invariant
            i <= n,
            n == path@.len(),
            forall|j: int| i <= j < n ==> path@[j] != '/',
        decreases i,
    {
        i = i - 1;
    }
    proof {
        lemma_name_spec_subrange(path@, i as int);
    }
    String::from_str(path.substring_char(i, n))
}

/// One discovered infrastructure root, before or after its display name has
/// been resolved.
#[derive(Debug, Clone)]
pub enum Node {
    Unprocessed(NodeHeader),
    Processed(NodeFull),
}

/// A root known only by its id and path; the display name is derived from
/// the path on demand.
#[derive(Debug, Clone)]
pub struct NodeHeader {
    pub id: NodeId,
    pub path: String,
}

/// A root together with its resolved display name.
#[derive(Debug, Clone)]
pub struct NodeFull {
    pub id: NodeId,
    pub path: String,
    pub node: String,
}

impl Node {
    pub open spec fn spec_id(&self) -> NodeId {
        match self {
            Node::Unprocessed(header) => header.id,
            Node::Processed(full) => full.id,
        }
    }

    pub open spec fn spec_path(&self) -> Seq<char> {
        match self {
            Node::Unprocessed(header) => header.path@,
            Node::Processed(full) => full.path@,
        }
    }

    /// The display name: the last path segment for an unprocessed root, the
    /// stored name for a processed one.
    pub open spec fn spec_name(&self) -> Seq<char> {
        match self {
            Node::Unprocessed(header) => name_spec(header.path@),
            Node::Processed(full) => full.node@,
        }
    }

    /// Whether a display name can be derived from this node.
    pub open spec fn name_ok(&self) -> bool {
        self is Unprocessed ==> path_named(self.spec_path())
    }

    pub fn new(id: NodeId, path: String) -> (r: Node)
        ensures
            r == Node::Unprocessed(NodeHeader { id, path }),
    {
        Node::Unprocessed(NodeHeader { id, path })
    }

    pub fn id(&self) -> (r: NodeId)
        ensures
            r == self.spec_id(),
    {
        match self {
            Node::Unprocessed(header) => header.id,
            Node::Processed(full) => full.id,
        }
    }

    pub fn path(&self) -> (r: &String)
        ensures
            r@ == self.spec_path(),
    {
        match self {
            Node::Unprocessed(header) => &header.path,
            Node::Processed(full) => &full.path,
        }
    }

    pub fn name(&self) -> (r: String)
        requires
            self.name_ok(),
        ensures
            r@ == self.spec_name(),
    {
        match self {
            Node::Unprocessed(header) => last_segment(header.path.as_str()),
            Node::Processed(full) => full.node.clone(),
        }
    }
}

impl NodeHeader {
    pub fn with_name(self, name: &str) -> (r: NodeFull)
        ensures
            r.id == self.id,
            r.path == self.path,
            r.node@ == name@,
    {
        NodeFull { id: self.id, path: self.path, node: String::from_str(name) }
    }
}

} // verus!
