use vstd::prelude::*;

verus! {

/// What the forest keeps of one element: the id of its parent, which is its
/// own id for the representative of a subset, and the rank used to decide
/// which of two representatives becomes the parent of the other.
#[derive(Debug, Clone, Copy)]
pub struct Data {
    pub parent: usize,
    pub rank: u32,
}

impl Data {
    /// The data of an element that is alone in its subset.
    pub fn new(id: usize) -> (r: Data)
        ensures
            r.parent == id,
            r.rank == 0,
    {
        Data { parent: id, rank: 0 }
    }
}

/// The parent links form a forest: every link stays within the forest and
/// leads to a node of a higher level, and no level lies above `top`.
pub open spec fn ranked(data: Seq<Data>, level: Seq<nat>, top: nat) -> bool {
    &&& level.len() == data.len()
    &&& forall|i: int| 0 <= i < data.len() ==> 0 <= (#[trigger] data[i]).parent < data.len()
    &&& forall|i: int| 0 <= i < data.len() ==> (#[trigger] level[i]) <= top
    &&& forall|i: int|
        0 <= i < data.len() && (#[trigger] data[i]).parent != i ==> level[data[i].parent as int]
            > level[i]
}

/// The representative of the subset of node `i`: the node that the parent
/// links lead to from `i`.
pub open spec fn root(data: Seq<Data>, level: Seq<nat>, top: nat, i: int) -> int
    decreases top - level[i],
{
    if !(ranked(data, level, top) && 0 <= i < data.len()) {
        i
    } else if data[i].parent == i {
        i
    } else {
        root(data, level, top, data[i].parent as int)
    }
}

/// The representative of a node is a node of the forest that is its own
/// parent, and the parent of a node has the same representative.
pub proof fn lemma_root_is_root(data: Seq<Data>, level: Seq<nat>, top: nat, i: int)
    requires
        ranked(data, level, top),
        0 <= i < data.len(),
    ensures
        0 <= root(data, level, top, i) < data.len(),
        data[root(data, level, top, i)].parent == root(data, level, top, i),
        level[root(data, level, top, i)] >= level[i],
        root(data, level, top, i) != i ==> level[root(data, level, top, i)] > level[i],
        root(data, level, top, data[i].parent as int) == root(data, level, top, i),
        root(data, level, top, root(data, level, top, i)) == root(data, level, top, i),
    decreases top - level[i],
{
    if data[i].parent != i {
        lemma_root_is_root(data, level, top, data[i].parent as int);
    }
}

/// Path compression: to hang a node directly under its representative
/// changes no representative.
pub proof fn lemma_compress(
    data: Seq<Data>,
    level: Seq<nat>,
    top: nat,
    i: int,
    after: Seq<Data>,
    j: int,
)
    requires
        ranked(data, level, top),
        0 <= i < data.len(),
        0 <= j < data.len(),
        after.len() == data.len(),
        after[i].parent == root(data, level, top, i),
        forall|k: int| 0 <= k < data.len() && k != i ==> after[k].parent == data[k].parent,
    ensures
        ranked(after, level, top),
        root(after, level, top, j) == root(data, level, top, j),
    decreases top - level[j],
{
    lemma_root_is_root(data, level, top, i);
    assert(ranked(after, level, top)) by {
        assert forall|k: int| 0 <= k < after.len() implies 0 <= (#[trigger] after[k]).parent
            < after.len() by {
            assert(0 <= data[k].parent < data.len());
        }
        assert forall|k: int|
            0 <= k < after.len() && (#[trigger] after[k]).parent != k implies level[after[k].parent as int]
            > level[k] by {
            if k != i {
                assert(data[k].parent != k);
            }
        }
    }
    lemma_root_is_root(data, level, top, j);
    if after[j].parent != j {
        lemma_compress(data, level, top, i, after, after[j].parent as int);
        if j == i {
        } else {
            assert(data[j].parent == after[j].parent);
        }
    } else {
        if j != i {
            assert(data[j].parent == j);
        }
    }
}

/// Linking: to hang the representative `b` under another representative
/// `a`, whose level is raised above that of `b`, gives the nodes of `b` the
/// representative `a` and changes no other representative.
pub proof fn lemma_link(
    data: Seq<Data>,
    level: Seq<nat>,
    top: nat,
    a: int,
    b: int,
    after: Seq<Data>,
    j: int,
)
    requires
        ranked(data, level, top),
        0 <= a < data.len(),
        0 <= b < data.len(),
        0 <= j < data.len(),
        a != b,
        data[a].parent == a,
        data[b].parent == b,
        after.len() == data.len(),
        after[b].parent == a,
        forall|k: int| 0 <= k < data.len() && k != b ==> after[k].parent == data[k].parent,
    ensures
        ranked(after, level.update(a, top + 1), top + 1),
        root(after, level.update(a, top + 1), top + 1, j) == (if root(data, level, top, j) == b {
            a
        } else {
            root(data, level, top, j)
        }),
    decreases top - level[j],
{
    let raised = level.update(a, top + 1);
    assert(ranked(after, raised, top + 1)) by {
        assert forall|k: int| 0 <= k < after.len() implies 0 <= (#[trigger] after[k]).parent
            < after.len() by {
            assert(0 <= data[k].parent < data.len());
        }
        assert forall|k: int| 0 <= k < after.len() implies (#[trigger] raised[k]) <= top + 1 by {
            assert(level[k] <= top);
        }
        assert forall|k: int|
            0 <= k < after.len() && (#[trigger] after[k]).parent != k implies raised[after[k].parent as int]
            > raised[k] by {
            if k != b {
                assert(data[k].parent != k);
                assert(k != a);
            }
        }
    }
    lemma_root_is_root(data, level, top, j);
    if j == a {
        assert(after[a].parent == a);
    } else if j == b {
        assert(after[a].parent == a);
        assert(root(after, raised, top + 1, a) == a);
    } else if data[j].parent == j {
        assert(after[j].parent == j);
    } else {
        lemma_link(data, level, top, a, b, after, data[j].parent as int);
    }
}

/// A new node that is its own parent is its own representative, and changes
/// no other representative.
pub proof fn lemma_push(data: Seq<Data>, level: Seq<nat>, top: nat, node: Data, j: int)
    requires
        ranked(data, level, top),
        node.parent == data.len(),
        0 <= j <= data.len(),
    ensures
        ranked(data.push(node), level.push(0), top),
        root(data.push(node), level.push(0), top, j) == (if j == data.len() {
            j
        } else {
            root(data, level, top, j)
        }),
    decreases top - level.push(0)[j],
{
    let after = data.push(node);
    let levels = level.push(0);
    assert(ranked(after, levels, top)) by {
        assert forall|k: int| 0 <= k < after.len() implies 0 <= (#[trigger] after[k]).parent
            < after.len() by {
            if k < data.len() {
                assert(after[k] == data[k]);
                assert(0 <= data[k].parent < data.len());
            }
        }
        assert forall|k: int| 0 <= k < after.len() implies (#[trigger] levels[k]) <= top by {
            if k < data.len() {
                assert(level[k] <= top);
            }
        }
        assert forall|k: int|
            0 <= k < after.len() && (#[trigger] after[k]).parent != k implies levels[after[k].parent as int]
            > levels[k] by {
            assert(k < data.len());
            assert(after[k] == data[k]);
            assert(0 <= data[k].parent < data.len());
        }
    }
    if j < data.len() {
        assert(after[j] == data[j]);
        if data[j].parent != j {
            assert(0 <= data[j].parent < data.len());
            lemma_push(data, level, top, node, data[j].parent as int);
        }
    }
}

} // verus!
