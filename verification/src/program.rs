//! The logical program a job runs: a DAG of nodes, each with an ordered
//! operator chain and a parallelism count. The controller only reads the
//! structure, so the model keeps the derived views it needs as plain data.

use vstd::prelude::*;

verus! {

broadcast use vstd::std_specs::hash::group_hash_axioms;

/// One operator of a node's chain.
#[derive(Clone, Debug, PartialEq, Eq)]
pub struct OperatorInfo {
    pub operator_id: String,
}

impl DeepView for OperatorInfo {
    type V = Seq<char>;

    open spec fn deep_view(&self) -> Seq<char> {
        self.operator_id@
    }
}

/// A node of the dataflow graph.
#[derive(Clone, Debug, PartialEq, Eq)]
pub struct LogicalNode {
    pub node_id: u32,
    pub description: String,
    pub parallelism: u32,
    pub operator_chain: Vec<OperatorInfo>,
    pub is_source: bool,
}

/// The operator graph of one job.
#[derive(Clone, Debug, PartialEq, Eq)]
pub struct LogicalProgram {
    pub nodes: Vec<LogicalNode>,
}

/// Ghost shape of one node.
pub struct LogicalNodeView {
    pub node_id: u32,
    pub description: Seq<char>,
    pub parallelism: u32,
    pub operator_chain: Seq<Seq<char>>,
    pub is_source: bool,
}

impl View for LogicalNode {
    type V = LogicalNodeView;

    open spec fn view(&self) -> LogicalNodeView {
        LogicalNodeView {
            node_id: self.node_id,
            description: self.description@,
            parallelism: self.parallelism,
            operator_chain: self.operator_chain.deep_view(),
            is_source: self.is_source,
        }
    }
}

impl DeepView for LogicalNode {
    type V = LogicalNodeView;

    open spec fn deep_view(&self) -> LogicalNodeView {
        self.view()
    }
}

impl View for LogicalProgram {
    type V = Seq<LogicalNodeView>;

    open spec fn view(&self) -> Seq<LogicalNodeView> {
        self.nodes.deep_view()
    }
}

impl LogicalProgram {
    /// Node ids are unique across the graph.
    pub open spec fn wf(&self) -> bool {
        forall|i: int, j: int|
            0 <= i < j < self@.len() ==> self@[i].node_id != self@[j].node_id
    }

    /// Whether some node of the program has the given node id.
    pub open spec fn spec_has_node(&self, node_id: u32) -> bool {
        exists|i: int| 0 <= i < self@.len() && self@[i].node_id == node_id
    }

    /// Whether `node_id` names a source node.
    pub open spec fn spec_is_source(&self, node_id: u32) -> bool {
        exists|i: int| 0 <= i < self@.len() && self@[i].node_id == node_id && self@[i].is_source
    }

    /// The node ids of the program's source nodes.
    pub fn sources(&self) -> (r: Vec<u32>)
        ensures
            r@ == self@.filter(|n: LogicalNodeView| n.is_source).map_values(
                |n: LogicalNodeView| n.node_id,
            ),
    {
        let mut r: Vec<u32> = Vec::new();
        let n = self.nodes.len();
        for i in 0..n
            invariant
                n == self.nodes.len(),
                r@ == self@.take(i as int).filter(|nd: LogicalNodeView| nd.is_source).map_values(
                    |nd: LogicalNodeView| nd.node_id,
                ),
        {
            proof {
                assert(self@.take(i + 1).drop_last() == self@.take(i as int));
                reveal(Seq::filter);
            }
            if self.nodes[i].is_source {
                r.push(self.nodes[i].node_id);
            }
            proof {
                assert(self@.take(i + 1).last() == self@[i as int]);
            }
        }
        proof {
            assert(self@.take(n as int) == self@);
        }
        r
    }

    /// The parallelism of the node named `node_id`, if it exists.
    pub fn node_parallelism(&self, node_id: u32) -> (r: Option<u32>)
        ensures
            match r {
                Some(p) => exists|i: int|
                    0 <= i < self@.len() && self@[i].node_id == node_id && self@[i].parallelism
                        == p,
                None => !self.spec_has_node(node_id),
            },
    {
        let n = self.nodes.len();
        for i in 0..n
            invariant
                n == self.nodes.len(),
                forall|j: int| 0 <= j < i ==> self@[j].node_id != node_id,
        {
            if self.nodes[i].node_id == node_id {
                let p = self.nodes[i].parallelism;
                assert(self@[i as int].node_id == node_id && self@[i as int].parallelism == p);
                return Some(p);
            }
        }
        None
    }

    /// Map from node id to that node's parallelism, as stored in the model.
    pub fn tasks_per_node(&self) -> (r: std::collections::HashMap<u32, usize>)
        ensures
            forall|i: int| 0 <= i < self@.len() ==> r@.contains_key(#[trigger] self@[i].node_id),
            forall|k: u32|
                r@.contains_key(k) ==> exists|i: int|
                    0 <= i < self@.len() && #[trigger] self@[i].node_id == k && r@[k]
                        == self@[i].parallelism as usize,
    {
        let mut r: std::collections::HashMap<u32, usize> = std::collections::HashMap::new();
        let n = self.nodes.len();
        for i in 0..n
            invariant
                n == self.nodes.len(),
                forall|j: int| 0 <= j < i ==> r@.contains_key(#[trigger] self@[j].node_id),
                forall|k: u32|
                    r@.contains_key(k) ==> exists|j: int|
                        0 <= j < self@.len() && #[trigger] self@[j].node_id == k && r@[k]
                            == self@[j].parallelism as usize,
        {
            let node = &self.nodes[i];
            let ghost prev = r@;
            r.insert(node.node_id, node.parallelism as usize);
            proof {
                assert(self@[i as int].node_id == node.node_id);
                assert(self@[i as int].parallelism == node.parallelism);
                assert forall|k: u32| r@.contains_key(k) implies exists|j: int|
                    0 <= j < self@.len() && #[trigger] self@[j].node_id == k && r@[k]
                        == self@[j].parallelism as usize by {
                    if k == node.node_id {
                        let ii = i as int;
                        assert(self@[ii].node_id == k && r@[k] == self@[ii].parallelism as usize);
                    } else {
                        assert(prev.contains_key(k) && r@[k] == prev[k]);
                    }
                }
            }
        }
        r
    }
}

} // verus!
