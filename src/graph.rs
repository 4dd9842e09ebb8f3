use vstd::prelude::*;
use crate::tensor::TensorType;

verus! {

/// The kind of an operation edge, with its static parameters.
#[derive(Clone, Debug, PartialEq)]
pub enum Op {
    /// A learned parameter, identified by its name.
    Parameter(String),
    /// A constant broadcast to the output type, whose every entry is the
    /// square root of the given integer.
    ConstSqrt(usize),
    MatMul,
    Reshape,
    Transpose(usize, usize),
    Divide,
    Add,
    Softmax,
    /// Explicit duplication of one value into several.
    Copy,
}

/// One end of an edge: edge `edge` reads (or, as a result, produces) node `node`.
#[derive(Clone, Copy, Debug, PartialEq, Eq, Structural)]
pub struct Arg {
    pub edge: usize,
    pub node: usize,
}

/// A directed hypergraph whose nodes carry tensor types and whose edges carry
/// operations.
///
/// The inputs of edge `e` are the entries of `args` whose `edge` is `e`, in
/// order; its outputs are the entries of `results` whose `edge` is `e`.
/// `inputs` and `outputs` are the boundary ports, in order.
#[derive(Debug)]
pub struct Graph {
    pub nodes: Vec<TensorType>,
    pub ops: Vec<Op>,
    pub args: Vec<Arg>,
    pub results: Vec<Arg>,
    pub inputs: Vec<usize>,
    pub outputs: Vec<usize>,
}

pub open spec fn arg_ok(a: Arg, n_ops: nat, n_nodes: nat) -> bool {
    a.edge < n_ops && a.node < n_nodes
}

/// The tensor types of the given nodes, in order.
pub open spec fn types_of(nodes: Seq<TensorType>, ids: Seq<usize>) -> Seq<(Seq<usize>, crate::tensor::Dtype)> {
    ids.map_values(|i: usize| nodes[i as int]@)
}

/// Whether every entry of `s` is below `n`.
pub fn all_below(s: &Vec<usize>, n: usize) -> (r: bool)
    ensures
        r == forall|i: int| 0 <= i < s@.len() ==> #[trigger] s@[i] < n,
{
    let mut i: usize = 0;
    while i < s.len()
        invariant
            i <= s@.len(),
            forall|j: int| 0 <= j < i ==> #[trigger] s@[j] < n,
        decreases s@.len() - i,
    {
        if s[i] >= n {
            return false;
        }
        i = i + 1;
    }
    true
}

impl Graph {
    /// Every reference to an edge or a node is in range.
    pub open spec fn wf(&self) -> bool {
        &&& forall|i: int| 0 <= i < self.args@.len() ==>
            arg_ok(#[trigger] self.args@[i], self.ops@.len(), self.nodes@.len())
        &&& forall|i: int| 0 <= i < self.results@.len() ==>
            arg_ok(#[trigger] self.results@[i], self.ops@.len(), self.nodes@.len())
        &&& forall|i: int| 0 <= i < self.inputs@.len() ==> #[trigger] self.inputs@[i] < self.nodes@.len()
        &&& forall|i: int| 0 <= i < self.outputs@.len() ==> #[trigger] self.outputs@[i] < self.nodes@.len()
    }

    /// The types of the boundary inputs, in order.
    pub open spec fn input_types(&self) -> Seq<(Seq<usize>, crate::tensor::Dtype)> {
        types_of(self.nodes@, self.inputs@)
    }

    /// The types of the boundary outputs, in order.
    pub open spec fn output_types(&self) -> Seq<(Seq<usize>, crate::tensor::Dtype)> {
        types_of(self.nodes@, self.outputs@)
    }

    /// Whether every reference to an edge or a node is in range.
    pub fn is_wf(&self) -> (r: bool)
        ensures
            r == self.wf(),
    {
        let n_ops = self.ops.len();
        let n_nodes = self.nodes.len();
        let mut i: usize = 0;
        while i < self.args.len()
            invariant
                n_ops == self.ops@.len(),
                n_nodes == self.nodes@.len(),
                i <= self.args@.len(),
                forall|j: int| 0 <= j < i ==> arg_ok(#[trigger] self.args@[j], self.ops@.len(), self.nodes@.len()),
            decreases self.args@.len() - i,
        {
            if self.args[i].edge >= n_ops || self.args[i].node >= n_nodes {
                return false;
            }
            i = i + 1;
        }
        let mut i: usize = 0;
        while i < self.results.len()
            invariant
                n_ops == self.ops@.len(),
                n_nodes == self.nodes@.len(),
                i <= self.results@.len(),
                forall|j: int| 0 <= j < self.args@.len() ==> arg_ok(#[trigger] self.args@[j], self.ops@.len(), self.nodes@.len()),
                forall|j: int| 0 <= j < i ==> arg_ok(#[trigger] self.results@[j], self.ops@.len(), self.nodes@.len()),
            decreases self.results@.len() - i,
        {
            if self.results[i].edge >= n_ops || self.results[i].node >= n_nodes {
                return false;
            }
            i = i + 1;
        }
        all_below(&self.inputs, n_nodes) && all_below(&self.outputs, n_nodes)
    }

    pub fn empty() -> (r: Graph)
        ensures
            r.wf(),
            r.nodes@.len() == 0,
            r.ops@.len() == 0,
            r.args@.len() == 0,
            r.results@.len() == 0,
            r.inputs@.len() == 0,
            r.outputs@.len() == 0,
    {
        Graph {
            nodes: Vec::new(),
            ops: Vec::new(),
            args: Vec::new(),
            results: Vec::new(),
            inputs: Vec::new(),
            outputs: Vec::new(),
        }
    }
}

/// The nodes read by the boundary outputs, then by the edge inputs: each
/// entry is one place where a value is consumed.
pub open spec fn slot_nodes(g: Graph) -> Seq<usize> {
    g.outputs@ + g.args@.map_values(|a: Arg| a.node)
}

/// Node `m` is consumed in two places or more.
pub open spec fn shared(s: Seq<usize>, m: usize) -> bool {
    exists|i: int, j: int| 0 <= i < j < s.len() && s[i] == m && s[j] == m
}

/// No value is consumed twice.
pub open spec fn distinct(s: Seq<usize>) -> bool {
    forall|i: int, j: int| 0 <= i < s.len() && 0 <= j < s.len() && i != j ==> s[i] != s[j]
}

/// The two graphs hold the same nodes, edges and ports.
pub open spec fn same_graph(a: Graph, b: Graph) -> bool {
    &&& a.nodes@.len() == b.nodes@.len()
    &&& forall|i: int| 0 <= i < a.nodes@.len() ==> #[trigger] a.nodes@[i]@ == b.nodes@[i]@
    &&& a.ops@ == b.ops@
    &&& a.args@ == b.args@
    &&& a.results@ == b.results@
    &&& a.inputs@ == b.inputs@
    &&& a.outputs@ == b.outputs@
}

/// Result `x` of `r`, beyond those of `g`, is fresh node number
/// `x - g.results.len()` past `g`'s nodes, produced by a `Copy` edge whose one
/// input has the same type.
pub open spec fn copy_result(g: Graph, r: Graph, x: int) -> bool {
    let a = r.results@[x];
    &&& a.node == g.nodes@.len() + (x - g.results@.len())
    &&& g.ops@.len() <= a.edge < r.ops@.len()
    &&& r.args@[g.args@.len() + (a.edge - g.ops@.len())].edge == a.edge
    &&& r.nodes@[a.node as int]@ == r.nodes@[r.args@[g.args@.len() + (a.edge - g.ops@.len())].node as int]@
}

/// What the simplification pass guarantees of `r`, computed from `g`.
pub open spec fn simplified(g: Graph, r: Graph) -> bool {
    &&& r.wf()
    &&& distinct(slot_nodes(r))
    &&& distinct(slot_nodes(g)) ==> same_graph(g, r)
    &&& r.input_types() == g.input_types()
    &&& r.output_types() == g.output_types()
    &&& r.inputs@ == g.inputs@
    &&& g.nodes@.len() <= r.nodes@.len()
    &&& forall|i: int| 0 <= i < g.nodes@.len() ==> #[trigger] r.nodes@[i] == g.nodes@[i]
    &&& g.ops@.len() <= r.ops@.len()
    &&& r.ops@.subrange(0, g.ops@.len() as int) == g.ops@
    &&& forall|i: int| g.ops@.len() <= i < r.ops@.len() ==> #[trigger] r.ops@[i] == Op::Copy
    &&& g.args@.len() <= r.args@.len()
    &&& forall|i: int| 0 <= i < g.args@.len() ==> (#[trigger] r.args@[i]).edge == g.args@[i].edge
        && r.nodes@[r.args@[i].node as int]@ == g.nodes@[g.args@[i].node as int]@
    &&& r.args@.len() - g.args@.len() == r.ops@.len() - g.ops@.len()
    &&& forall|y: int| 0 <= y < r.ops@.len() - g.ops@.len()
        ==> (#[trigger] r.args@[g.args@.len() + y]).edge == g.ops@.len() + y
    &&& g.results@.len() <= r.results@.len()
    &&& r.results@.subrange(0, g.results@.len() as int) == g.results@
    &&& r.results@.len() - g.results@.len() == r.nodes@.len() - g.nodes@.len()
    &&& forall|x: int| g.results@.len() <= x < r.results@.len() ==> #[trigger] copy_result(g, r, x)
}

/// Runs of the pass after the first change nothing.
pub proof fn lemma_simplify_idempotent(g: Graph, once: Graph, twice: Graph)
    requires
        simplified(g, once),
        simplified(once, twice),
    ensures
        same_graph(once, twice),
{
}

/// The pass keeps the types of the boundary ports, in order.
pub proof fn lemma_simplify_keeps_ports(g: Graph, r: Graph)
    requires
        simplified(g, r),
    ensures
        r.input_types() == g.input_types(),
        r.output_types() == g.output_types(),
{
}

/// Whether `m` occurs twice or more in `s`.
pub fn is_shared(s: &Vec<usize>, m: usize) -> (r: bool)
    ensures
        r == shared(s@, m),
{
    let mut first: Option<usize> = None;
    let mut i: usize = 0;
    while i < s.len()
        invariant
            i <= s@.len(),
            first is None ==> forall|j: int| 0 <= j < i ==> s@[j] != m,
            first matches Some(f) ==> f < i && s@[f as int] == m && forall|j: int| 0 <= j < i && j != f ==> s@[j] != m,
        decreases s@.len() - i,
    {
        if s[i] == m {
            if first.is_some() {
                return true;
            }
            first = Some(i);
        }
        i = i + 1;
    }
    proof {
        if shared(s@, m) {
            let (a, b) = choose|a: int, b: int| 0 <= a < b < s@.len() && s@[a] == m && s@[b] == m;
            assert(false);
        }
    }
    false
}

/// Makes sharing explicit: every node consumed in two places or more gets one
/// `Copy` edge that reads it and produces one fresh node of its type for each
/// of those places, which then read their own fresh node instead.
#[verifier::rlimit(60)]
pub fn simplify(g: Graph) -> (r: Graph)
    requires
        g.wf(),
        g.nodes@.len() + g.outputs@.len() + g.args@.len() <= usize::MAX,
        g.ops@.len() + g.outputs@.len() + g.args@.len() <= usize::MAX,
    ensures
        simplified(g, r),
{
    let ghost g0 = g;
    let Graph { mut nodes, mut ops, args, mut results, inputs, outputs } = g;
    let n0 = nodes.len();
    let ops0 = ops.len();

    let mut slots: Vec<usize> = Vec::new();
    let mut i: usize = 0;
    while i < outputs.len()
        invariant
            i <= outputs@.len(),
            slots@ == outputs@.subrange(0, i as int),
        decreases outputs@.len() - i,
    {
        slots.push(outputs[i]);
        i = i + 1;
        assert(slots@ =~= outputs@.subrange(0, i as int));
    }
    let ghost arg_nodes = args@.map_values(|a: Arg| a.node);
    let mut i: usize = 0;
    while i < args.len()
        invariant
            i <= args@.len(),
            arg_nodes == args@.map_values(|a: Arg| a.node),
            slots@ == outputs@ + arg_nodes.subrange(0, i as int),
        decreases args@.len() - i,
    {
        slots.push(args[i].node);
        i = i + 1;
        assert(slots@ =~= outputs@ + arg_nodes.subrange(0, i as int));
    }
    assert(arg_nodes.subrange(0, args@.len() as int) =~= arg_nodes);
    assert(slots@ == slot_nodes(g0));
    assert forall|j: int| 0 <= j < slots@.len() implies #[trigger] slots@[j] < n0 by {
        if j >= outputs@.len() {
            let a = j - outputs@.len();
            assert(slots@[j] == args@[a].node);
            assert(arg_ok(g0.args@[a], g0.ops@.len(), g0.nodes@.len()));
        }
    }

    let mut copy_edge: Vec<Option<usize>> = Vec::new();
    let mut i: usize = 0;
    while i < n0
        invariant
            i <= n0,
            copy_edge@.len() == i,
            forall|m: int| 0 <= m < i ==> copy_edge@[m] is None,
        decreases n0 - i,
    {
        copy_edge.push(None);
        i = i + 1;
    }

    let mut new_slots: Vec<usize> = Vec::new();
    let mut extra: Vec<Arg> = Vec::new();
    let mut k: usize = 0;
    while k < slots.len()
        invariant
            slots@ == slot_nodes(g0),
            forall|j: int| 0 <= j < slots@.len() ==> #[trigger] slots@[j] < n0,
            n0 == g0.nodes@.len(),
            ops0 == g0.ops@.len(),
            g0.wf(),
            g0.nodes@.len() + slots@.len() <= usize::MAX,
            g0.ops@.len() + slots@.len() <= usize::MAX,
            k <= slots@.len(),
            new_slots@.len() == k,
            extra@.len() <= k,
            n0 <= nodes@.len(),
            nodes@.len() <= n0 + k,
            forall|m: int| 0 <= m < n0 ==> #[trigger] nodes@[m] == g0.nodes@[m],
            copy_edge@.len() == n0,
            ops@.len() == ops0 + extra@.len(),
            ops@.subrange(0, ops0 as int) == g0.ops@,
            forall|e: int| ops0 <= e < ops@.len() ==> #[trigger] ops@[e] == Op::Copy,
            forall|x: int| 0 <= x < extra@.len() ==> (#[trigger] extra@[x]).edge == ops0 + x
                && extra@[x].node < n0 && shared(slots@, extra@[x].node)
                && copy_edge@[extra@[x].node as int] == Some((ops0 + x) as usize),
            forall|m: int| 0 <= m < n0 ==> (#[trigger] copy_edge@[m] matches Some(e)
                ==> ops0 <= e < ops@.len() && extra@[e - ops0].node == m),
            results@.len() - g0.results@.len() == nodes@.len() - n0,
            forall|x: int| g0.results@.len() <= x < results@.len() ==> (#[trigger] results@[x]).node == n0 + (x - g0.results@.len())
                && ops0 <= results@[x].edge < ops@.len()
                && nodes@[results@[x].node as int]@ == g0.nodes@[extra@[results@[x].edge - ops0].node as int]@,
            forall|j: int| 0 <= j < k ==> #[trigger] new_slots@[j] < nodes@.len()
                && nodes@[new_slots@[j] as int]@ == g0.nodes@[slots@[j] as int]@
                && (shared(slots@, slots@[j]) ==> n0 <= new_slots@[j])
                && (!shared(slots@, slots@[j]) ==> new_slots@[j] == slots@[j]),
            forall|j1: int, j2: int| 0 <= j1 < j2 < k && n0 <= new_slots@[j1] && n0 <= new_slots@[j2]
                ==> #[trigger] new_slots@[j1] < #[trigger] new_slots@[j2],
            g0.results@.len() <= results@.len(),
            results@.subrange(0, g0.results@.len() as int) == g0.results@,
            forall|x: int| 0 <= x < results@.len() ==> arg_ok(#[trigger] results@[x], ops@.len(), nodes@.len()),
            (forall|j: int| 0 <= j < k ==> !shared(slots@, #[trigger] slots@[j])) ==> nodes@.len() == n0
                && results@ == g0.results@ && extra@.len() == 0,
        decreases slots@.len() - k,
    {
        let m = slots[k];
        if is_shared(&slots, m) {
            let e = match copy_edge[m] {
                Some(e) => e,
                None => {
                    let e = ops.len();
                    ops.push(Op::Copy);
                    extra.push(Arg { edge: e, node: m });
                    copy_edge.set(m, Some(e));
                    assert(ops@.subrange(0, ops0 as int) =~= g0.ops@.push(Op::Copy).subrange(0, ops0 as int));
                    e
                },
            };
            let f = nodes.len();
            let t = nodes[m].copied();
            nodes.push(t);
            results.push(Arg { edge: e, node: f });
            new_slots.push(f);
            assert(results@.subrange(0, g0.results@.len() as int) =~= g0.results@);
        } else {
            new_slots.push(m);
        }
        k = k + 1;
    }

    let n_out = outputs.len();
    let mut new_outputs: Vec<usize> = Vec::new();
    let mut i: usize = 0;
    while i < n_out
        invariant
            n_out == outputs@.len(),
            n_out <= new_slots@.len(),
            i <= n_out,
            new_outputs@ == new_slots@.subrange(0, i as int),
        decreases n_out - i,
    {
        new_outputs.push(new_slots[i]);
        i = i + 1;
        assert(new_outputs@ =~= new_slots@.subrange(0, i as int));
    }
    let mut new_args: Vec<Arg> = Vec::new();
    let total = new_slots.len();
    let mut i: usize = 0;
    while i < args.len()
        invariant
            total == new_slots@.len(),
            n_out == outputs@.len(),
            new_slots@.len() == n_out + args@.len(),
            i <= args@.len(),
            new_args@.len() == i,
            forall|x: int| 0 <= x < i ==> (#[trigger] new_args@[x]).edge == args@[x].edge
                && new_args@[x].node == new_slots@[n_out + x],
        decreases args@.len() - i,
    {
        new_args.push(Arg { edge: args[i].edge, node: new_slots[n_out + i] });
        i = i + 1;
    }
    let mut i: usize = 0;
    while i < extra.len()
        invariant
            i <= extra@.len(),
            args@ == g0.args@,
            new_args@.len() == args@.len() + i,
            forall|x: int| 0 <= x < args@.len() ==> (#[trigger] new_args@[x]).edge == args@[x].edge
                && new_args@[x].node == new_slots@[n_out + x],
            forall|x: int| 0 <= x < i ==> #[trigger] new_args@[args@.len() + x] == extra@[x],
        decreases extra@.len() - i,
    {
        new_args.push(extra[i]);
        i = i + 1;
    }
    let r = Graph { nodes, ops, args: new_args, results, inputs, outputs: new_outputs };
    proof {
        let sn = new_slots@;
        let en = extra@.map_values(|a: Arg| a.node);
        let all = sn + en;
        assert(r.outputs@ =~= sn.subrange(0, n_out as int));
        assert(slot_nodes(r) =~= all) by {
            assert forall|x: int| 0 <= x < all.len() implies #[trigger] slot_nodes(r)[x] == all[x] by {
                if x >= n_out && x < sn.len() {
                    assert(r.args@[x - n_out].node == sn[x]);
                } else if x >= sn.len() {
                    assert(r.args@[args@.len() + (x - sn.len())] == extra@[x - sn.len()]);
                }
            }
        }
        assert forall|i: int, j: int| 0 <= i < all.len() && 0 <= j < all.len() && i != j
            implies all[i] != all[j] by {
            if i < sn.len() && j < sn.len() {
                if !shared(slots@, slots@[i]) && !shared(slots@, slots@[j]) {
                    if slots@[i] == slots@[j] {
                        if i < j {
                            assert(shared(slots@, slots@[i]));
                        } else {
                            assert(shared(slots@, slots@[j]));
                        }
                    }
                } else if shared(slots@, slots@[i]) && shared(slots@, slots@[j]) {
                    if i < j {
                        assert(sn[i] < sn[j]);
                    } else {
                        assert(sn[j] < sn[i]);
                    }
                }
            } else if i >= sn.len() && j >= sn.len() {
                let xi = i - sn.len();
                let xj = j - sn.len();
                assert(extra@[xi].edge == ops0 + xi);
                assert(extra@[xj].edge == ops0 + xj);
            } else if i < sn.len() {
                let xj = j - sn.len();
                assert(extra@[xj].node < n0 && shared(slots@, extra@[xj].node));
                if !shared(slots@, slots@[i]) {
                    assert(sn[i] == slots@[i]);
                }
            } else {
                let xi = i - sn.len();
                assert(extra@[xi].node < n0 && shared(slots@, extra@[xi].node));
                if !shared(slots@, slots@[j]) {
                    assert(sn[j] == slots@[j]);
                }
            }
        }
        assert(distinct(slot_nodes(r)));
        assert forall|x: int| 0 <= x < r.args@.len() implies arg_ok(#[trigger] r.args@[x], r.ops@.len(), r.nodes@.len()) by {
            if x < args@.len() {
                assert(arg_ok(g0.args@[x], g0.ops@.len(), g0.nodes@.len()));
                assert(sn[n_out + x] < r.nodes@.len());
            } else {
                assert(r.args@[args@.len() + (x - args@.len())] == extra@[x - args@.len()]);
            }
        }
        assert forall|x: int| 0 <= x < r.inputs@.len() implies #[trigger] r.inputs@[x] < r.nodes@.len() by {
            assert(g0.inputs@[x] < g0.nodes@.len());
        }
        assert forall|x: int| 0 <= x < r.outputs@.len() implies #[trigger] r.outputs@[x] < r.nodes@.len() by {
            assert(r.outputs@[x] == sn[x]);
        }
        assert(r.wf());
        assert(r.input_types() =~= g0.input_types()) by {
            assert forall|x: int| 0 <= x < g0.inputs@.len() implies r.nodes@[#[trigger] g0.inputs@[x] as int] == g0.nodes@[g0.inputs@[x] as int] by {
                assert(g0.inputs@[x] < g0.nodes@.len());
            }
        }
        assert(r.output_types() =~= g0.output_types()) by {
            assert forall|x: int| 0 <= x < g0.outputs@.len() implies r.nodes@[#[trigger] r.outputs@[x] as int]@ == g0.nodes@[g0.outputs@[x] as int]@ by {
                assert(r.outputs@[x] == sn[x]);
                assert(slots@[x] == g0.outputs@[x]);
            }
        }
        assert forall|x: int| 0 <= x < g0.args@.len() implies (#[trigger] r.args@[x]).edge == g0.args@[x].edge
            && r.nodes@[r.args@[x].node as int]@ == g0.nodes@[g0.args@[x].node as int]@ by {
            assert(slots@[n_out + x] == g0.args@[x].node);
            assert(r.args@[x].node == sn[n_out + x]);
        }
        assert(r.results@.subrange(0, g0.results@.len() as int) == g0.results@);
        assert forall|y: int| 0 <= y < r.ops@.len() - g0.ops@.len()
            implies (#[trigger] r.args@[g0.args@.len() + y]).edge == g0.ops@.len() + y by {
            assert(r.args@[args@.len() + y] == extra@[y]);
        }
        assert forall|x: int| g0.results@.len() <= x < r.results@.len() implies #[trigger] copy_result(g0, r, x) by {
            let e = r.results@[x].edge;
            assert(r.args@[args@.len() + (e - ops0)] == extra@[e - ops0]);
            assert(extra@[e - ops0].node < n0);
        }
        if distinct(slot_nodes(g0)) {
            assert forall|j: int| 0 <= j < slots@.len() implies !shared(slots@, #[trigger] slots@[j]) by {
                if shared(slots@, slots@[j]) {
                    let (a, b) = choose|a: int, b: int| 0 <= a < b < slots@.len() && slots@[a] == slots@[j] && slots@[b] == slots@[j];
                    assert(slots@[a] != slots@[b]);
                }
            }
            assert(r.ops@ =~= g0.ops@);
            assert(r.args@ =~= g0.args@) by {
                assert forall|x: int| 0 <= x < g0.args@.len() implies r.args@[x] == g0.args@[x] by {
                    assert(slots@[n_out + x] == g0.args@[x].node);
                    assert(!shared(slots@, slots@[n_out + x]));
                }
            }
            assert(r.outputs@ =~= g0.outputs@) by {
                assert forall|x: int| 0 <= x < g0.outputs@.len() implies r.outputs@[x] == g0.outputs@[x] by {
                    assert(r.outputs@[x] == sn[x]);
                    assert(slots@[x] == g0.outputs@[x]);
                    assert(!shared(slots@, slots@[x]));
                }
            }
            assert(same_graph(g0, r));
        }
    }
    r
}

} // verus!
