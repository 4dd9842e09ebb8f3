use vstd::prelude::*;
use crate::graph::{Arg, Graph, Op};
use crate::tensor::{Dtype, TensorType, copy_shape, element_count, numel, swapped, valid_shape};

verus! {

/// Why an operation could not be recorded.
#[derive(Clone, Copy, Debug, PartialEq, Eq, Structural)]
pub enum BuildError {
    /// A variable of another builder context was handed to this one.
    ContextMismatch,
    /// The output type cannot be derived from the input types.
    ShapeInconsistency,
}

/// A typed reference to a node of one builder context's graph.
#[derive(Clone, Debug)]
pub struct Variable {
    pub ty: TensorType,
    pub context: u64,
    pub node: usize,
}

/// The mutable context that allocates nodes and edges of one graph.
///
/// `id` tells this context apart from others: a variable belongs to the
/// context whose `id` it carries, so contexts whose variables may meet are
/// given distinct ids.
#[derive(Debug)]
pub struct Builder {
    pub id: u64,
    pub graph: Graph,
}

/// `g1` is `g0` with one edge appended: operation `op` reading the nodes
/// `args` and producing one fresh node of type `out`.
pub open spec fn appended(g0: Graph, g1: Graph, op: Op, args: Seq<usize>, out: (Seq<usize>, Dtype)) -> bool {
    &&& g1.nodes@.len() == g0.nodes@.len() + 1
    &&& forall|i: int| 0 <= i < g0.nodes@.len() ==> #[trigger] g1.nodes@[i] == g0.nodes@[i]
    &&& g1.nodes@.last()@ == out
    &&& g1.ops@ == g0.ops@.push(op)
    &&& g1.args@ == g0.args@ + args.map_values(|n: usize| Arg { edge: g0.ops@.len() as usize, node: n })
    &&& g1.results@ == g0.results@.push(Arg { edge: g0.ops@.len() as usize, node: g0.nodes@.len() as usize })
    &&& g1.inputs@ == g0.inputs@
    &&& g1.outputs@ == g0.outputs@
}

/// `g1` holds everything `g0` holds, in place, with the same boundary ports.
pub open spec fn extends(g0: Graph, g1: Graph) -> bool {
    &&& g0.nodes@.len() <= g1.nodes@.len()
    &&& forall|i: int| 0 <= i < g0.nodes@.len() ==> #[trigger] g1.nodes@[i] == g0.nodes@[i]
    &&& g0.ops@.len() <= g1.ops@.len()
    &&& forall|i: int| 0 <= i < g0.ops@.len() ==> #[trigger] g1.ops@[i] == g0.ops@[i]
    &&& g0.args@.len() <= g1.args@.len()
    &&& forall|i: int| 0 <= i < g0.args@.len() ==> #[trigger] g1.args@[i] == g0.args@[i]
    &&& g0.results@.len() <= g1.results@.len()
    &&& forall|i: int| 0 <= i < g0.results@.len() ==> #[trigger] g1.results@[i] == g0.results@[i]
    &&& g1.inputs@ == g0.inputs@
    &&& g1.outputs@ == g0.outputs@
}

/// The leading (batch) dimensions of a shape of rank two or more.
pub open spec fn batch(s: Seq<usize>) -> Seq<usize> {
    s.subrange(0, s.len() - 2)
}

/// Dimension `i` of `s` aligned to the right in `l` places; missing places are 1.
pub open spec fn dim_at(s: Seq<usize>, l: int, i: int) -> usize {
    if i - (l - s.len()) >= 0 {
        s[i - (l - s.len())]
    } else {
        1
    }
}

pub open spec fn max_len(a: Seq<usize>, b: Seq<usize>) -> int {
    if a.len() >= b.len() {
        a.len() as int
    } else {
        b.len() as int
    }
}

/// Two dimensions can be broadcast together.
pub open spec fn dims_fit(x: usize, y: usize) -> bool {
    x == y || x == 1 || y == 1
}

pub open spec fn join_dim(x: usize, y: usize) -> usize {
    if x == 1 {
        y
    } else {
        x
    }
}

/// Batch shapes `a` and `b` broadcast together, aligned to the right.
pub open spec fn broadcast_ok(a: Seq<usize>, b: Seq<usize>) -> bool {
    forall|i: int| 0 <= i < max_len(a, b) ==> dims_fit(#[trigger] dim_at(a, max_len(a, b), i), dim_at(b, max_len(a, b), i))
}

pub open spec fn broadcast(a: Seq<usize>, b: Seq<usize>) -> Seq<usize> {
    Seq::new(max_len(a, b) as nat, |i: int| join_dim(dim_at(a, max_len(a, b), i), dim_at(b, max_len(a, b), i)))
}

/// A batched matrix product applies: both operands are at least matrices, the
/// contracted dimensions agree, and the batch dimensions broadcast.
pub open spec fn matmul_ok(a: Seq<usize>, b: Seq<usize>) -> bool {
    &&& a.len() >= 2
    &&& b.len() >= 2
    &&& a.last() == b[b.len() - 2]
    &&& broadcast_ok(batch(a), batch(b))
}

/// The broadcast batch dimensions, then the rows of `a` and the columns of `b`.
pub open spec fn matmul_shape(a: Seq<usize>, b: Seq<usize>) -> Seq<usize> {
    broadcast(batch(a), batch(b)) + seq![a[a.len() - 2], b.last()]
}

/// Broadcasting an empty batch shape leaves the other unchanged.
pub proof fn lemma_broadcast_empty(b: Seq<usize>)
    ensures
        broadcast_ok(Seq::<usize>::empty(), b),
        broadcast(Seq::<usize>::empty(), b) == b,
{
    assert(broadcast(Seq::<usize>::empty(), b) =~= b);
}

/// Broadcasting a batch shape with itself leaves it unchanged.
pub proof fn lemma_broadcast_same(a: Seq<usize>)
    ensures
        broadcast_ok(a, a),
        broadcast(a, a) == a,
{
    assert(broadcast(a, a) =~= a);
}

/// The broadcast of the first `la` dimensions of `a` with the first `lb` of `b`,
/// or `None` when they do not broadcast.
pub fn broadcast_dims(a: &Vec<usize>, la: usize, b: &Vec<usize>, lb: usize) -> (r: Option<Vec<usize>>)
    requires
        la <= a@.len(),
        lb <= b@.len(),
    ensures
        r is Some <==> broadcast_ok(a@.subrange(0, la as int), b@.subrange(0, lb as int)),
        r matches Some(v) ==> v@ == broadcast(a@.subrange(0, la as int), b@.subrange(0, lb as int)),
{
    let ghost sa = a@.subrange(0, la as int);
    let ghost sb = b@.subrange(0, lb as int);
    let l = if la >= lb { la } else { lb };
    let mut out: Vec<usize> = Vec::new();
    let mut i: usize = 0;
    while i < l
        invariant
            la <= a@.len(),
            lb <= b@.len(),
            sa == a@.subrange(0, la as int),
            sb == b@.subrange(0, lb as int),
            l == max_len(sa, sb),
            i <= l,
            out@ =~= broadcast(sa, sb).subrange(0, i as int),
            forall|j: int| 0 <= j < i ==> dims_fit(#[trigger] dim_at(sa, l as int, j), dim_at(sb, l as int, j)),
        decreases l - i,
    {
        let x = if i >= l - la { a[i - (l - la)] } else { 1 };
        let y = if i >= l - lb { b[i - (l - lb)] } else { 1 };
        assert(x == dim_at(sa, l as int, i as int));
        assert(y == dim_at(sb, l as int, i as int));
        if !(x == y || x == 1 || y == 1) {
            return None;
        }
        out.push(if x == 1 { y } else { x });
        i = i + 1;
    }
    assert(broadcast(sa, sb).subrange(0, l as int) =~= broadcast(sa, sb));
    Some(out)
}

/// What an operation method promises: success exactly when every input
/// belongs to this context and the shape rule holds; on success one edge is
/// appended and the new variable names its output; on failure nothing changes,
/// and a foreign variable is reported before a shape problem.
pub open spec fn recorded(
    b0: Builder,
    b1: Builder,
    r: Result<Variable, BuildError>,
    owned: bool,
    shape_ok: bool,
    op: Op,
    args: Seq<usize>,
    out: (Seq<usize>, Dtype),
) -> bool {
    &&& b1.id == b0.id
    &&& b1.wf()
    &&& r is Ok <==> (owned && shape_ok)
    &&& !owned ==> r == Err::<Variable, BuildError>(BuildError::ContextMismatch)
    &&& (owned && !shape_ok) ==> r == Err::<Variable, BuildError>(BuildError::ShapeInconsistency)
    &&& r is Err ==> b1 == b0
    &&& r matches Ok(v) ==> appended(b0.graph, b1.graph, op, args, out) && extends(b0.graph, b1.graph)
        && grew_by(b0.graph, b1.graph, 1, args_of(b0.graph.ops@.len() as int, args))
        && b1.fresh(v, out) && b1.owns(v)
}

pub proof fn lemma_appended_extends(g0: Graph, g1: Graph, op: Op, args: Seq<usize>, out: (Seq<usize>, Dtype))
    requires
        appended(g0, g1, op, args, out),
    ensures
        extends(g0, g1),
{
    assert forall|i: int| 0 <= i < g0.args@.len() implies #[trigger] g1.args@[i] == g0.args@[i] by {
        assert(g1.args@[i] == (g0.args@ + args.map_values(|n: usize| Arg { edge: g0.ops@.len() as usize, node: n }))[i]);
    }
    assert forall|i: int| 0 <= i < g0.ops@.len() implies #[trigger] g1.ops@[i] == g0.ops@[i] by {
        assert(g1.ops@[i] == g0.ops@.push(op)[i]);
    }
    assert forall|i: int| 0 <= i < g0.results@.len() implies #[trigger] g1.results@[i] == g0.results@[i] by {
        assert(g1.results@[i] == g0.results@.push(Arg { edge: g0.ops@.len() as usize, node: g0.nodes@.len() as usize })[i]);
    }
}

/// `Arg { edge: e, node: m }`.
pub open spec fn ag(e: int, m: int) -> Arg {
    Arg { edge: e as usize, node: m as usize }
}

/// The results of `k` edges numbered from `o`, edge `o + i` producing node `n + i`.
pub open spec fn one_result_each(o: int, n: int, k: int) -> Seq<Arg> {
    Seq::new(k as nat, |i: int| ag(o + i, n + i))
}

/// The inputs `ms` of edge `e`, in order.
pub open spec fn args_of(e: int, ms: Seq<usize>) -> Seq<Arg> {
    ms.map_values(|m: usize| ag(e, m as int))
}

/// `g1` is `g0` with `k` edges appended, each producing one fresh node, whose
/// inputs are `args`.
pub open spec fn grew_by(g0: Graph, g1: Graph, k: int, args: Seq<Arg>) -> bool {
    &&& extends(g0, g1)
    &&& g1.nodes@.len() == g0.nodes@.len() + k
    &&& g1.ops@.len() == g0.ops@.len() + k
    &&& g1.args@ == g0.args@ + args
    &&& g1.results@ == g0.results@ + one_result_each(g0.ops@.len() as int, g0.nodes@.len() as int, k)
}

pub proof fn lemma_appended_grew(g0: Graph, g1: Graph, op: Op, args: Seq<usize>, out: (Seq<usize>, Dtype))
    requires
        appended(g0, g1, op, args, out),
    ensures
        grew_by(g0, g1, 1, args_of(g0.ops@.len() as int, args)),
{
    lemma_appended_extends(g0, g1, op, args, out);
    assert(args_of(g0.ops@.len() as int, args)
        =~= args.map_values(|n: usize| Arg { edge: g0.ops@.len() as usize, node: n }));
    assert(g1.results@ =~= g0.results@ + one_result_each(g0.ops@.len() as int, g0.nodes@.len() as int, 1));
}

pub proof fn lemma_grew_trans(g0: Graph, g1: Graph, g2: Graph, k1: int, a1: Seq<Arg>, k2: int, a2: Seq<Arg>)
    requires
        grew_by(g0, g1, k1, a1),
        grew_by(g1, g2, k2, a2),
        k1 >= 0,
        k2 >= 0,
    ensures
        grew_by(g0, g2, k1 + k2, a1 + a2),
{
    assert(g2.args@ =~= g0.args@ + (a1 + a2));
    assert(g2.results@ =~= g0.results@ + one_result_each(g0.ops@.len() as int, g0.nodes@.len() as int, k1 + k2));
}

impl Builder {
    pub open spec fn wf(&self) -> bool {
        self.graph.wf()
    }

    /// `v` refers to a node of this context's graph, with that node's type.
    pub open spec fn owns(&self, v: Variable) -> bool {
        &&& v.context == self.id
        &&& v.node < self.graph.nodes@.len()
        &&& self.graph.nodes@[v.node as int]@ == v.ty@
    }

    /// `v` is the variable of the node that the last edge produced.
    pub open spec fn fresh(&self, v: Variable, ty: (Seq<usize>, Dtype)) -> bool {
        &&& v.context == self.id
        &&& v.node + 1 == self.graph.nodes@.len()
        &&& v.ty@ == ty
    }

    /// A context with an empty graph.
    pub fn new(id: u64) -> (r: Builder)
        ensures
            r.wf(),
            r.id == id,
            r.graph.nodes@.len() == 0,
            r.graph.ops@.len() == 0,
            r.graph.args@.len() == 0,
            r.graph.results@.len() == 0,
            r.graph.inputs@.len() == 0,
            r.graph.outputs@.len() == 0,
    {
        Builder { id, graph: Graph::empty() }
    }

    /// Whether `v` belongs to this context.
    pub fn owns_var(&self, v: &Variable) -> (r: bool)
        ensures
            r == self.owns(*v),
    {
        v.context == self.id && v.node < self.graph.nodes.len() && self.graph.nodes[v.node].same(&v.ty)
    }

    /// Hands over the finished graph.
    pub fn finish(self) -> (g: Graph)
        requires
            self.wf(),
        ensures
            g == self.graph,
            g.wf(),
    {
        self.graph
    }

    /// Room for `n` more nodes and edges.
    pub open spec fn room(&self, n: nat) -> bool {
        &&& self.graph.nodes@.len() + n <= usize::MAX
        &&& self.graph.ops@.len() + n <= usize::MAX
    }

    /// Registers a new boundary input of type `ty`.
    pub fn declare_input(&mut self, ty: TensorType) -> (v: Variable)
        requires
            old(self).wf(),
            ty.wf(),
            old(self).room(1),
        ensures
            final(self).wf(),
            final(self).id == old(self).id,
            final(self).graph.nodes@ == old(self).graph.nodes@.push(ty),
            final(self).graph.inputs@ == old(self).graph.inputs@.push(old(self).graph.nodes@.len() as usize),
            final(self).graph.ops == old(self).graph.ops,
            final(self).graph.args == old(self).graph.args,
            final(self).graph.results == old(self).graph.results,
            final(self).graph.outputs == old(self).graph.outputs,
            final(self).fresh(v, ty@),
            final(self).owns(v),
    {
        let node = self.graph.nodes.len();
        let t = ty.copied();
        self.graph.nodes.push(ty);
        self.graph.inputs.push(node);
        let ghost g = self.graph;
        assert forall|j: int| 0 <= j < g.args@.len() implies crate::graph::arg_ok(
            #[trigger] g.args@[j], g.ops@.len(), g.nodes@.len()) by {
            assert(g.args@[j] == old(self).graph.args@[j]);
        }
        assert forall|j: int| 0 <= j < g.results@.len() implies crate::graph::arg_ok(
            #[trigger] g.results@[j], g.ops@.len(), g.nodes@.len()) by {
            assert(g.results@[j] == old(self).graph.results@[j]);
        }
        assert forall|j: int| 0 <= j < g.inputs@.len() implies #[trigger] g.inputs@[j] < g.nodes@.len() by {
            if j < old(self).graph.inputs@.len() {
                assert(g.inputs@[j] == old(self).graph.inputs@[j]);
            }
        }
        assert forall|j: int| 0 <= j < g.outputs@.len() implies #[trigger] g.outputs@[j] < g.nodes@.len() by {
            assert(g.outputs@[j] == old(self).graph.outputs@[j]);
        }
        Variable { ty: t, context: self.id, node }
    }

    /// Marks the node of `v` as the next boundary output.
    pub fn declare_output(&mut self, v: &Variable) -> (r: Result<(), BuildError>)
        requires
            old(self).wf(),
        ensures
            final(self).wf(),
            final(self).id == old(self).id,
            r is Ok <==> old(self).owns(*v),
            r is Err ==> r == Err::<(), BuildError>(BuildError::ContextMismatch) && *final(self) == *old(self),
            r is Ok ==> final(self).graph.outputs@ == old(self).graph.outputs@.push(v.node)
                && final(self).graph.nodes == old(self).graph.nodes
                && final(self).graph.ops == old(self).graph.ops
                && final(self).graph.args == old(self).graph.args
                && final(self).graph.results == old(self).graph.results
                && final(self).graph.inputs == old(self).graph.inputs,
    {
        if !self.owns_var(v) {
            return Err(BuildError::ContextMismatch);
        }
        self.graph.outputs.push(v.node);
        let ghost g = self.graph;
        assert forall|j: int| 0 <= j < g.outputs@.len() implies #[trigger] g.outputs@[j] < g.nodes@.len() by {
            if j < old(self).graph.outputs@.len() {
                assert(g.outputs@[j] == old(self).graph.outputs@[j]);
            }
        }
        Ok(())
    }

    /// Records operation `op` reading `inputs`, with output type `out`.
    pub fn emit(&mut self, op: Op, inputs: &Vec<Variable>, out: TensorType) -> (r: Result<Variable, BuildError>)
        requires
            old(self).wf(),
            old(self).room(1),
        ensures
            recorded(
                *old(self),
                *final(self),
                r,
                forall|i: int| 0 <= i < inputs@.len() ==> old(self).owns(#[trigger] inputs@[i]),
                true,
                op,
                inputs@.map_values(|v: Variable| v.node),
                out@,
            ),
    {
        let mut ids: Vec<usize> = Vec::new();
        let mut i: usize = 0;
        while i < inputs.len()
            invariant
                *self == *old(self),
                old(self).wf(),
                old(self).room(1),
                i <= inputs@.len(),
                ids@ == inputs@.subrange(0, i as int).map_values(|v: Variable| v.node),
                forall|j: int| 0 <= j < i ==> self.owns(#[trigger] inputs@[j]),
            decreases inputs@.len() - i,
        {
            if !self.owns_var(&inputs[i]) {
                assert(!old(self).owns(inputs@[i as int]));
                return Err(BuildError::ContextMismatch);
            }
            ids.push(inputs[i].node);
            i = i + 1;
            assert(ids@ =~= inputs@.subrange(0, i as int).map_values(|v: Variable| v.node));
        }
        assert(inputs@.subrange(0, i as int) =~= inputs@);
        Ok(self.push_edge(op, ids, out))
    }

    /// A learned parameter of type `ty` named `name`. Every call makes a new
    /// node, also for a name used before.
    pub fn parameter(&mut self, ty: TensorType, name: String) -> (v: Variable)
        requires
            old(self).wf(),
            ty.wf(),
            old(self).room(1),
        ensures
            final(self).wf(),
            final(self).id == old(self).id,
            appended(old(self).graph, final(self).graph, Op::Parameter(name), seq![], ty@),
            extends(old(self).graph, final(self).graph),
            grew_by(old(self).graph, final(self).graph, 1, Seq::<Arg>::empty()),
            final(self).fresh(v, ty@),
            final(self).owns(v),
    {
        let v = self.push_edge(Op::Parameter(name), Vec::new(), ty);
        assert(Seq::<usize>::empty().map_values(|n: usize| Arg { edge: old(self).graph.ops@.len() as usize, node: n }) =~= seq![]);
        v
    }

    /// A constant of type `ty` whose entries are the square root of `k`.
    pub fn constant(&mut self, ty: TensorType, k: usize) -> (v: Variable)
        requires
            old(self).wf(),
            ty.wf(),
            old(self).room(1),
        ensures
            final(self).wf(),
            final(self).id == old(self).id,
            appended(old(self).graph, final(self).graph, Op::ConstSqrt(k), seq![], ty@),
            extends(old(self).graph, final(self).graph),
            grew_by(old(self).graph, final(self).graph, 1, Seq::<Arg>::empty()),
            final(self).fresh(v, ty@),
            final(self).owns(v),
    {
        let v = self.push_edge(Op::ConstSqrt(k), Vec::new(), ty);
        assert(Seq::<usize>::empty().map_values(|n: usize| Arg { edge: old(self).graph.ops@.len() as usize, node: n }) =~= seq![]);
        v
    }

    fn push1(&mut self, op: Op, x: &Variable, out: TensorType) -> (v: Variable)
        requires
            old(self).wf(),
            old(self).room(1),
            old(self).owns(*x),
        ensures
            final(self).wf(),
            final(self).id == old(self).id,
            appended(old(self).graph, final(self).graph, op, seq![x.node], out@),
            extends(old(self).graph, final(self).graph),
            grew_by(old(self).graph, final(self).graph, 1, args_of(old(self).graph.ops@.len() as int, seq![x.node])),
            final(self).fresh(v, out@),
            final(self).owns(v),
    {
        let ids = vec![x.node];
        let v = self.push_edge(op, ids, out);
        assert(ids@ =~= seq![x.node]);
        v
    }

    fn push2(&mut self, op: Op, a: &Variable, b: &Variable, out: TensorType) -> (v: Variable)
        requires
            old(self).wf(),
            old(self).room(1),
            old(self).owns(*a),
            old(self).owns(*b),
        ensures
            final(self).wf(),
            final(self).id == old(self).id,
            appended(old(self).graph, final(self).graph, op, seq![a.node, b.node], out@),
            extends(old(self).graph, final(self).graph),
            grew_by(old(self).graph, final(self).graph, 1, args_of(old(self).graph.ops@.len() as int, seq![a.node, b.node])),
            final(self).fresh(v, out@),
            final(self).owns(v),
    {
        let ids = vec![a.node, b.node];
        let v = self.push_edge(op, ids, out);
        assert(ids@ =~= seq![a.node, b.node]);
        v
    }

    /// Batched matrix product of operands of one element kind: the batch
    /// dimensions broadcast, then the rows of `a` and the columns of `b`.
    pub fn matmul(&mut self, a: &Variable, b: &Variable) -> (r: Result<Variable, BuildError>)
        requires
            old(self).wf(),
            old(self).room(1),
        ensures
            recorded(
                *old(self),
                *final(self),
                r,
                old(self).owns(*a) && old(self).owns(*b),
                matmul_ok(a.ty.shape@, b.ty.shape@) && a.ty.dtype == b.ty.dtype,
                Op::MatMul,
                seq![a.node, b.node],
                (matmul_shape(a.ty.shape@, b.ty.shape@), a.ty.dtype),
            ),
    {
        if !self.owns_var(a) || !self.owns_var(b) {
            return Err(BuildError::ContextMismatch);
        }
        let n = a.ty.shape.len();
        let m = b.ty.shape.len();
        if n < 2 || m < 2 || a.ty.shape[n - 1] != b.ty.shape[m - 2] || a.ty.dtype != b.ty.dtype {
            return Err(BuildError::ShapeInconsistency);
        }
        let mut shape = match broadcast_dims(&a.ty.shape, n - 2, &b.ty.shape, m - 2) {
            Some(v) => v,
            None => {
                return Err(BuildError::ShapeInconsistency);
            },
        };
        shape.push(a.ty.shape[n - 2]);
        shape.push(b.ty.shape[m - 1]);
        assert(shape@ =~= matmul_shape(a.ty.shape@, b.ty.shape@));
        Ok(self.push2(Op::MatMul, a, b, TensorType::new(shape, a.ty.dtype)))
    }

    /// `x` with dimensions `d0` and `d1` exchanged.
    pub fn transpose(&mut self, d0: usize, d1: usize, x: &Variable) -> (r: Result<Variable, BuildError>)
        requires
            old(self).wf(),
            old(self).room(1),
        ensures
            recorded(
                *old(self),
                *final(self),
                r,
                old(self).owns(*x),
                d0 < x.ty.shape@.len() && d1 < x.ty.shape@.len(),
                Op::Transpose(d0, d1),
                seq![x.node],
                (swapped(x.ty.shape@, d0 as int, d1 as int), x.ty.dtype),
            ),
    {
        if !self.owns_var(x) {
            return Err(BuildError::ContextMismatch);
        }
        if d0 >= x.ty.shape.len() || d1 >= x.ty.shape.len() {
            return Err(BuildError::ShapeInconsistency);
        }
        let mut shape = copy_shape(&x.ty.shape);
        shape.set(d0, x.ty.shape[d1]);
        shape.set(d1, x.ty.shape[d0]);
        Ok(self.push1(Op::Transpose(d0, d1), x, TensorType::new(shape, x.ty.dtype)))
    }

    /// `x` with shape `shape`, which must be valid and hold as many elements.
    pub fn reshape(&mut self, shape: Vec<usize>, x: &Variable) -> (r: Result<Variable, BuildError>)
        requires
            old(self).wf(),
            old(self).room(1),
        ensures
            recorded(
                *old(self),
                *final(self),
                r,
                old(self).owns(*x),
                valid_shape(shape@) && numel(x.ty.shape@) <= usize::MAX && numel(shape@) == numel(x.ty.shape@),
                Op::Reshape,
                seq![x.node],
                (shape@, x.ty.dtype),
            ),
    {
        if !self.owns_var(x) {
            return Err(BuildError::ContextMismatch);
        }
        let out = TensorType::new(shape, x.ty.dtype);
        if !out.is_valid() {
            return Err(BuildError::ShapeInconsistency);
        }
        let before = element_count(&x.ty.shape);
        let after = element_count(&out.shape);
        match (before, after) {
            (Some(p), Some(q)) => {
                if p != q {
                    return Err(BuildError::ShapeInconsistency);
                }
            },
            _ => {
                return Err(BuildError::ShapeInconsistency);
            },
        }
        Ok(self.push1(Op::Reshape, x, out))
    }

    fn elementwise(&mut self, op: Op, a: &Variable, b: &Variable) -> (r: Result<Variable, BuildError>)
        requires
            old(self).wf(),
            old(self).room(1),
        ensures
            recorded(
                *old(self),
                *final(self),
                r,
                old(self).owns(*a) && old(self).owns(*b),
                a.ty@ == b.ty@,
                op,
                seq![a.node, b.node],
                a.ty@,
            ),
    {
        if !self.owns_var(a) || !self.owns_var(b) {
            return Err(BuildError::ContextMismatch);
        }
        if !a.ty.same(&b.ty) {
            return Err(BuildError::ShapeInconsistency);
        }
        Ok(self.push2(op, a, b, a.ty.copied()))
    }

    /// Elementwise quotient; `a` and `b` must have the same type.
    pub fn divide(&mut self, a: &Variable, b: &Variable) -> (r: Result<Variable, BuildError>)
        requires
            old(self).wf(),
            old(self).room(1),
        ensures
            recorded(
                *old(self),
                *final(self),
                r,
                old(self).owns(*a) && old(self).owns(*b),
                a.ty@ == b.ty@,
                Op::Divide,
                seq![a.node, b.node],
                a.ty@,
            ),
    {
        self.elementwise(Op::Divide, a, b)
    }

    /// Elementwise sum; `a` and `b` must have the same type.
    pub fn add(&mut self, a: &Variable, b: &Variable) -> (r: Result<Variable, BuildError>)
        requires
            old(self).wf(),
            old(self).room(1),
        ensures
            recorded(
                *old(self),
                *final(self),
                r,
                old(self).owns(*a) && old(self).owns(*b),
                a.ty@ == b.ty@,
                Op::Add,
                seq![a.node, b.node],
                a.ty@,
            ),
    {
        self.elementwise(Op::Add, a, b)
    }

    /// Softmax along the last axis; the type is kept.
    pub fn softmax(&mut self, x: &Variable) -> (r: Result<Variable, BuildError>)
        requires
            old(self).wf(),
            old(self).room(1),
        ensures
            recorded(*old(self), *final(self), r, old(self).owns(*x), true, Op::Softmax, seq![x.node], x.ty@),
    {
        if !self.owns_var(x) {
            return Err(BuildError::ContextMismatch);
        }
        Ok(self.push1(Op::Softmax, x, x.ty.copied()))
    }

    fn push_edge(&mut self, op: Op, args: Vec<usize>, out: TensorType) -> (v: Variable)
        requires
            old(self).wf(),
            forall|i: int| 0 <= i < args@.len() ==> args@[i] < old(self).graph.nodes@.len(),
            old(self).room(1),
        ensures
            final(self).wf(),
            final(self).id == old(self).id,
            appended(old(self).graph, final(self).graph, op, args@, out@),
            extends(old(self).graph, final(self).graph),
            grew_by(old(self).graph, final(self).graph, 1, args_of(old(self).graph.ops@.len() as int, args@)),
            final(self).fresh(v, out@),
            final(self).owns(v),
    {
        let edge = self.graph.ops.len();
        let node = self.graph.nodes.len();
        let ghost g0 = self.graph;
        let ghost added = args@.map_values(|n: usize| Arg { edge: edge, node: n });
        let mut i: usize = 0;
        while i < args.len()
            invariant
                self.id == old(self).id,
                self.graph.nodes == g0.nodes,
                self.graph.ops == g0.ops,
                self.graph.results == g0.results,
                self.graph.inputs == g0.inputs,
                self.graph.outputs == g0.outputs,
                g0 == old(self).graph,
                g0.wf(),
                edge == g0.ops@.len(),
                node == g0.nodes@.len(),
                i <= args@.len(),
                forall|j: int| 0 <= j < args@.len() ==> args@[j] < g0.nodes@.len(),
                added == args@.map_values(|n: usize| Arg { edge: edge, node: n }),
                self.graph.args@ == g0.args@ + added.subrange(0, i as int),
            decreases args@.len() - i,
        {
            self.graph.args.push(Arg { edge, node: args[i] });
            i = i + 1;
            assert(self.graph.args@ =~= g0.args@ + added.subrange(0, i as int));
        }
        assert(added.subrange(0, args@.len() as int) =~= added);
        let ty = out.copied();
        self.graph.nodes.push(out);
        self.graph.ops.push(op);
        self.graph.results.push(Arg { edge, node });
        let v = Variable { ty, context: self.id, node };
        assert forall|j: int| 0 <= j < self.graph.args@.len() implies crate::graph::arg_ok(
            #[trigger] self.graph.args@[j], self.graph.ops@.len(), self.graph.nodes@.len()) by {
            if j >= g0.args@.len() {
                assert(self.graph.args@[j] == added[j - g0.args@.len()]);
            }
        }
        assert forall|j: int| 0 <= j < self.graph.results@.len() implies crate::graph::arg_ok(
            #[trigger] self.graph.results@[j], self.graph.ops@.len(), self.graph.nodes@.len()) by {
            if j < g0.results@.len() {
                assert(self.graph.results@[j] == g0.results@[j]);
            }
        }
        assert forall|j: int| 0 <= j < self.graph.inputs@.len() implies #[trigger] self.graph.inputs@[j] < self.graph.nodes@.len() by {
            assert(self.graph.inputs@[j] == g0.inputs@[j]);
        }
        proof {
            lemma_appended_grew(g0, self.graph, op, args@, out@);
        }
        assert forall|j: int| 0 <= j < self.graph.outputs@.len() implies #[trigger] self.graph.outputs@[j] < self.graph.nodes@.len() by {
            assert(self.graph.outputs@[j] == g0.outputs@[j]);
        }
        v
    }
}

} // verus!
