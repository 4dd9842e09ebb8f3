use vstd::prelude::*;
use vstd::string::*;
use crate::builder::{
    BuildError, Builder, Variable, ag, batch, broadcast, extends, grew_by, lemma_broadcast_empty,
    lemma_broadcast_same, lemma_grew_trans, matmul_shape,
};
use crate::graph::{Arg, Graph, Op};
use crate::tensor::{Dtype, TensorType, numel};

verus! {

/// Number of attention heads.
pub const NUM_HEADS: usize = 4;

/// Output shape of a linear projection to `out_dim` features.
pub open spec fn linear_shape(x: Seq<usize>, out_dim: usize) -> Seq<usize> {
    x.drop_last().push(out_dim)
}

/// `op` is a parameter named `name`.
pub open spec fn param_named(op: Op, name: Seq<char>) -> bool {
    op matches Op::Parameter(s) && s@ == name
}

/// Success of a layer: `y` is the newest variable of `b1`, of type `ty`, and
/// `b1` only added to `b0`'s graph.
pub open spec fn grown(b0: Builder, b1: Builder, y: Variable, ty: (Seq<usize>, Dtype)) -> bool {
    &&& b1.id == b0.id
    &&& b1.wf()
    &&& extends(b0.graph, b1.graph)
    &&& b1.fresh(y, ty)
    &&& b1.owns(y)
}

proof fn lemma_broadcast_empty_right(a: Seq<usize>)
    ensures
        crate::builder::broadcast_ok(a, Seq::<usize>::empty()),
        broadcast(a, Seq::<usize>::empty()) == a,
{
    assert(broadcast(a, Seq::<usize>::empty()) =~= a);
}

/// Projection of the last dimension of `x` from `in_dim` to `out_dim`
/// features: a fresh parameter of type `[in_dim, out_dim]` named `name`, then
/// the product of `x` with it.
pub fn linear(b: &mut Builder, in_dim: usize, out_dim: usize, name: &str, x: &Variable) -> (r: Result<Variable, BuildError>)
    requires
        old(b).wf(),
        old(b).room(2),
    ensures
        r is Ok <==> (old(b).owns(*x) && x.ty.shape@.len() >= 2 && x.ty.shape@.last() == in_dim
            && in_dim >= 1 && out_dim >= 1),
        !old(b).owns(*x) ==> r == Err::<Variable, BuildError>(BuildError::ContextMismatch),
        old(b).owns(*x) && r is Err ==> r == Err::<Variable, BuildError>(BuildError::ShapeInconsistency),
        r is Err ==> *final(b) == *old(b),
        r matches Ok(y) ==> grown(*old(b), *final(b), y, (linear_shape(x.ty.shape@, out_dim), x.ty.dtype))
            && linear_edges(old(b).graph, final(b).graph, name@, x.node as int, seq![in_dim, out_dim], x.ty.dtype,
                linear_shape(x.ty.shape@, out_dim)),
{
    if !b.owns_var(x) {
        return Err(BuildError::ContextMismatch);
    }
    let n = x.ty.shape.len();
    if n < 2 || x.ty.shape[n - 1] != in_dim || in_dim == 0 || out_dim == 0 {
        return Err(BuildError::ShapeInconsistency);
    }
    let ghost g0 = b.graph;
    let w_ty = TensorType::new(vec![in_dim, out_dim], x.ty.dtype);
    assert(w_ty.shape@ =~= seq![in_dim, out_dim]);
    let w = b.parameter(w_ty, name.to_owned());
    let ghost g1 = b.graph;
    proof {
        lemma_broadcast_empty_right(batch(x.ty.shape@));
        assert(batch(w.ty.shape@) =~= Seq::<usize>::empty());
    }
    let r = b.matmul(x, &w);
    assert(matmul_shape(x.ty.shape@, w.ty.shape@) =~= linear_shape(x.ty.shape@, out_dim));
    proof {
        let o = g0.ops@.len() as int;
        assert(crate::builder::args_of(o + 1, seq![x.node, w.node]) =~= seq![ag(o + 1, x.node as int), ag(o + 1, g0.nodes@.len() as int)]);
        lemma_grew_trans(g0, g1, b.graph, 1, Seq::<Arg>::empty(), 1, seq![ag(o + 1, x.node as int), ag(o + 1, g0.nodes@.len() as int)]);
        assert(Seq::<Arg>::empty() + seq![ag(o + 1, x.node as int), ag(o + 1, g0.nodes@.len() as int)]
            =~= seq![ag(o + 1, x.node as int), ag(o + 1, g0.nodes@.len() as int)]);
    }
    r
}

/// The two edges of a projection appended to `g0`: a parameter named `name`
/// of type `(w, d)`, then the product reading node `x` and that parameter,
/// of type `(out, d)`.
pub open spec fn linear_edges(g0: Graph, g1: Graph, name: Seq<char>, x: int, w: Seq<usize>, d: Dtype, out: Seq<usize>) -> bool {
    let o = g0.ops@.len() as int;
    let n = g0.nodes@.len() as int;
    &&& grew_by(g0, g1, 2, seq![ag(o + 1, x), ag(o + 1, n)])
    &&& param_named(g1.ops@[o], name)
    &&& g1.ops@[o + 1] == Op::MatMul
    &&& g1.nodes@[n]@ == (w, d)
    &&& g1.nodes@[n + 1]@ == (out, d)
}

/// The two edges of the simplified linear layer appended to `g0`: a parameter
/// named `name` of type `([k, k], F32)`, then the product reading that
/// parameter and node `x`, of type `out`.
pub open spec fn square_edges(g0: Graph, g1: Graph, name: Seq<char>, x: int, k: usize, out: (Seq<usize>, Dtype)) -> bool {
    let o = g0.ops@.len() as int;
    let n = g0.nodes@.len() as int;
    &&& grew_by(g0, g1, 2, seq![ag(o + 1, n), ag(o + 1, x)])
    &&& param_named(g1.ops@[o], name)
    &&& g1.ops@[o + 1] == Op::MatMul
    &&& g1.nodes@[n]@ == (seq![k, k], Dtype::F32)
    &&& g1.nodes@[n + 1]@ == out
}

/// The input shapes on which the square layers below succeed: at least a
/// matrix, with its last two dimensions equal and not zero, of floats.
pub open spec fn square_input(x: Variable) -> bool {
    &&& x.ty.shape@.len() >= 2
    &&& x.ty.shape@[x.ty.shape@.len() - 2] == x.ty.shape@.last()
    &&& x.ty.shape@.last() >= 1
    &&& x.ty.dtype == Dtype::F32
}

/// A simplified linear layer: a fresh `[n, n]` float parameter named `name`,
/// where `n` is the last dimension of `x`, multiplied on the left of `x`
/// (broadcast over the batch dimensions). The result has the type of `x`.
pub fn linear_layer(b: &mut Builder, name: &str, x: &Variable) -> (r: Result<Variable, BuildError>)
    requires
        old(b).wf(),
        old(b).room(2),
    ensures
        r is Ok <==> (old(b).owns(*x) && square_input(*x)),
        !old(b).owns(*x) ==> r == Err::<Variable, BuildError>(BuildError::ContextMismatch),
        old(b).owns(*x) && r is Err ==> r == Err::<Variable, BuildError>(BuildError::ShapeInconsistency),
        r is Err ==> *final(b) == *old(b),
        r matches Ok(y) ==> grown(*old(b), *final(b), y, x.ty@)
            && square_edges(old(b).graph, final(b).graph, name@, x.node as int, x.ty.shape@.last(), x.ty@),
{
    if !b.owns_var(x) {
        return Err(BuildError::ContextMismatch);
    }
    let len = x.ty.shape.len();
    if len < 2 || x.ty.shape[len - 2] != x.ty.shape[len - 1] || x.ty.shape[len - 1] == 0 || x.ty.dtype != Dtype::F32 {
        return Err(BuildError::ShapeInconsistency);
    }
    let n = x.ty.shape[len - 1];
    let ghost g0 = b.graph;
    let p_ty = TensorType::new(vec![n, n], Dtype::F32);
    assert(p_ty.shape@ =~= seq![n, n]);
    let p = b.parameter(p_ty, name.to_owned());
    let ghost g1 = b.graph;
    proof {
        lemma_broadcast_empty(batch(x.ty.shape@));
        assert(batch(p.ty.shape@) =~= Seq::<usize>::empty());
    }
    let r = b.matmul(&p, x);
    assert(matmul_shape(p.ty.shape@, x.ty.shape@) =~= x.ty.shape@);
    proof {
        let o = g0.ops@.len() as int;
        let pieces = seq![ag(o + 1, g0.nodes@.len() as int), ag(o + 1, x.node as int)];
        assert(crate::builder::args_of(o + 1, seq![p.node, x.node]) =~= pieces);
        lemma_grew_trans(g0, g1, b.graph, 1, Seq::<Arg>::empty(), 1, pieces);
        assert(Seq::<Arg>::empty() + pieces =~= pieces);
    }
    r
}

/// A residual block: `linear_layer("linear", x)` added to `x`. It succeeds
/// exactly on float inputs `[..., n, n]` with `n >= 1`, and keeps their type.
pub fn residual(b: &mut Builder, x: &Variable) -> (r: Result<Variable, BuildError>)
    requires
        old(b).wf(),
        old(b).room(3),
    ensures
        r is Ok <==> (old(b).owns(*x) && square_input(*x)),
        !old(b).owns(*x) ==> r == Err::<Variable, BuildError>(BuildError::ContextMismatch),
        old(b).owns(*x) && r is Err ==> r == Err::<Variable, BuildError>(BuildError::ShapeInconsistency),
        r is Err ==> *final(b) == *old(b),
        r matches Ok(y) ==> grown(*old(b), *final(b), y, x.ty@)
            && residual_edges(old(b).graph, final(b).graph, x.node as int, x.ty.shape@.last(), x.ty@),
{
    if !b.owns_var(x) {
        return Err(BuildError::ContextMismatch);
    }
    let len = x.ty.shape.len();
    if len < 2 || x.ty.shape[len - 2] != x.ty.shape[len - 1] || x.ty.shape[len - 1] == 0 || x.ty.dtype != Dtype::F32 {
        return Err(BuildError::ShapeInconsistency);
    }
    let ghost g0 = b.graph;
    let l = match linear_layer(b, "linear", x) {
        Ok(v) => v,
        Err(e) => {
            return Err(e);
        },
    };
    let ghost g1 = b.graph;
    let r = b.add(&l, x);
    proof {
        reveal_strlit("linear");
        let o = g0.ops@.len() as int;
        let n = g0.nodes@.len() as int;
        let first = seq![ag(o + 1, n), ag(o + 1, x.node as int)];
        let second = seq![ag(o + 2, n + 1), ag(o + 2, x.node as int)];
        assert(crate::builder::args_of(o + 2, seq![l.node, x.node]) =~= second);
        lemma_grew_trans(g0, g1, b.graph, 2, first, 1, second);
    }
    r
}

/// The three edges of a residual block appended to `g0` over node `x` of type
/// `ty`, whose last dimension is `k`: the parameter "linear" of type
/// `([k, k], F32)`, the product reading it and `x`, and the sum reading that
/// product and `x`, which produces the last node.
pub open spec fn residual_edges(g0: Graph, g1: Graph, x: int, k: usize, ty: (Seq<usize>, Dtype)) -> bool {
    let o = g0.ops@.len() as int;
    let n = g0.nodes@.len() as int;
    &&& grew_by(g0, g1, 3, residual_args(o, n, x))
    &&& residual_at(g1, o, n, k, ty)
}

/// The inputs of the three edges of a residual block appended at edge `o`
/// and node `n` over the input node `x`, in order.
pub open spec fn residual_args(o: int, n: int, x: int) -> Seq<Arg> {
    seq![ag(o + 1, n), ag(o + 1, x)] + seq![ag(o + 2, n + 1), ag(o + 2, x)]
}

/// The operations and output types of the three edges of a residual block
/// that start at edge `o` and node `n` of `g1`.
pub open spec fn residual_at(g1: Graph, o: int, n: int, k: usize, ty: (Seq<usize>, Dtype)) -> bool {
    &&& param_named(g1.ops@[o], "linear"@)
    &&& g1.ops@[o + 1] == Op::MatMul
    &&& g1.ops@[o + 2] == Op::Add
    &&& g1.nodes@[n]@ == (seq![k, k], Dtype::F32)
    &&& g1.nodes@[n + 1]@ == ty
    &&& g1.nodes@[n + 2]@ == ty
}

pub(crate) proof fn lemma_numel3(a: usize, b: usize, c: usize)
    ensures
        numel(seq![a, b, c]) == a * b * c,
{
    assert(seq![a, b, c].drop_last() =~= seq![a, b]);
    assert(seq![a, b].drop_last() =~= seq![a]);
    assert(seq![a].drop_last() =~= Seq::<usize>::empty());
    assert(numel(Seq::<usize>::empty()) == 1);
    assert(numel(seq![a]) == 1 * (a as nat));
    assert(numel(seq![a, b]) == numel(seq![a]) * (b as nat));
    assert(numel(seq![a, b, c]) == numel(seq![a, b]) * (c as nat));
}

proof fn lemma_numel4(a: usize, b: usize, c: usize, d: usize)
    ensures
        numel(seq![a, b, c, d]) == a * b * c * d,
{
    assert(seq![a, b, c, d].drop_last() =~= seq![a, b, c]);
    lemma_numel3(a, b, c);
}

proof fn lemma_split_heads(a: usize, b: usize, dim: usize, h: usize)
    requires
        h > 0,
        dim % h == 0,
    ensures
        numel(seq![a, b, h, (dim / h) as usize]) == numel(seq![a, b, dim]),
{
    lemma_numel3(a, b, dim);
    lemma_numel4(a, b, h, (dim / h) as usize);
    let p = a * b;
    let q = dim / h;
    assert(h * q == dim) by (nonlinear_arith)
        requires
            h > 0,
            dim % h == 0,
            q == dim / h,
    ;
    assert(p * h * q == p * (h * q)) by (nonlinear_arith);
}

/// The inputs of the 22 edges of an attention block appended at edge `o`
/// and node `n` over the input node `xn`, in order.
pub open spec fn attention_args(o: int, n: int, xn: int) -> Seq<Arg> {
    Seq::<Arg>::empty()
        + seq![ag(o + 1, xn), ag(o + 1, n + 0)]
        + seq![ag(o + 3, xn), ag(o + 3, n + 2)]
        + seq![ag(o + 5, xn), ag(o + 5, n + 4)]
        + seq![ag(o + 6, n + 3)]
        + seq![ag(o + 7, n + 1)]
        + seq![ag(o + 8, n + 5)]
        + seq![ag(o + 9, n + 6)]
        + seq![ag(o + 10, n + 7)]
        + seq![ag(o + 11, n + 8)]
        + seq![ag(o + 12, n + 10)]
        + seq![ag(o + 13, n + 9), ag(o + 13, n + 12)]
        + seq![ag(o + 15, n + 13), ag(o + 15, n + 14)]
        + seq![ag(o + 16, n + 15)]
        + seq![ag(o + 17, n + 16), ag(o + 17, n + 11)]
        + seq![ag(o + 18, n + 17)]
        + seq![ag(o + 19, n + 18)]
        + seq![ag(o + 21, n + 19), ag(o + 21, n + 20)]
}

/// The 22 edges of an attention block over node `xn` of shape
/// `[bs, s, dim]` and element kind `d`, appended to `g0`, with parameters
/// named after `name`. Edge `o + i` produces node `n + i`; the last one is
/// the output projection's product.
pub open spec fn attention_edges(g0: Graph, g1: Graph, name: Seq<char>, xn: int, bs: usize, s: usize, dim: usize, d: Dtype) -> bool {
    let o = g0.ops@.len() as int;
    let n = g0.nodes@.len() as int;
    &&& grew_by(g0, g1, 22, attention_args(o, n, xn))
    &&& attention_at(g1, o, n, name, bs, s, dim, d)
}

/// The operations and output types of the 22 edges of an attention block
/// that start at edge `o` and node `n` of `g1`.
pub open spec fn attention_at(g1: Graph, o: int, n: int, name: Seq<char>, bs: usize, s: usize, dim: usize, d: Dtype) -> bool {
    let head_dim = (dim / NUM_HEADS) as usize;
    &&& param_named(g1.ops@[o], name + ".key"@)
    &&& param_named(g1.ops@[o + 2], name + ".query"@)
    &&& param_named(g1.ops@[o + 4], name + ".value"@)
    &&& param_named(g1.ops@[o + 20], name + ".proj"@)
    &&& g1.ops@[o + 1] == Op::MatMul
    &&& g1.ops@[o + 3] == Op::MatMul
    &&& g1.ops@[o + 5] == Op::MatMul
    &&& g1.ops@[o + 6] == Op::Reshape
    &&& g1.ops@[o + 7] == Op::Reshape
    &&& g1.ops@[o + 8] == Op::Reshape
    &&& g1.ops@[o + 9] == Op::Transpose(1, 2)
    &&& g1.ops@[o + 10] == Op::Transpose(1, 2)
    &&& g1.ops@[o + 11] == Op::Transpose(1, 2)
    &&& g1.ops@[o + 12] == Op::Transpose(2, 3)
    &&& g1.ops@[o + 13] == Op::MatMul
    &&& g1.ops@[o + 14] == Op::ConstSqrt(head_dim)
    &&& g1.ops@[o + 15] == Op::Divide
    &&& g1.ops@[o + 16] == Op::Softmax
    &&& g1.ops@[o + 17] == Op::MatMul
    &&& g1.ops@[o + 18] == Op::Transpose(1, 2)
    &&& g1.ops@[o + 19] == Op::Reshape
    &&& g1.ops@[o + 21] == Op::MatMul
    &&& g1.nodes@[n + 0]@ == (seq![dim, dim], d)
    &&& g1.nodes@[n + 1]@ == (seq![bs, s, dim], d)
    &&& g1.nodes@[n + 2]@ == (seq![dim, dim], d)
    &&& g1.nodes@[n + 3]@ == (seq![bs, s, dim], d)
    &&& g1.nodes@[n + 4]@ == (seq![dim, dim], d)
    &&& g1.nodes@[n + 5]@ == (seq![bs, s, dim], d)
    &&& g1.nodes@[n + 6]@ == (seq![bs, s, NUM_HEADS, head_dim], d)
    &&& g1.nodes@[n + 7]@ == (seq![bs, s, NUM_HEADS, head_dim], d)
    &&& g1.nodes@[n + 8]@ == (seq![bs, s, NUM_HEADS, head_dim], d)
    &&& g1.nodes@[n + 9]@ == (seq![bs, NUM_HEADS, s, head_dim], d)
    &&& g1.nodes@[n + 10]@ == (seq![bs, NUM_HEADS, s, head_dim], d)
    &&& g1.nodes@[n + 11]@ == (seq![bs, NUM_HEADS, s, head_dim], d)
    &&& g1.nodes@[n + 12]@ == (seq![bs, NUM_HEADS, head_dim, s], d)
    &&& g1.nodes@[n + 13]@ == (seq![bs, NUM_HEADS, s, s], d)
    &&& g1.nodes@[n + 14]@ == (seq![bs, NUM_HEADS, s, s], d)
    &&& g1.nodes@[n + 15]@ == (seq![bs, NUM_HEADS, s, s], d)
    &&& g1.nodes@[n + 16]@ == (seq![bs, NUM_HEADS, s, s], d)
    &&& g1.nodes@[n + 17]@ == (seq![bs, NUM_HEADS, s, head_dim], d)
    &&& g1.nodes@[n + 18]@ == (seq![bs, s, NUM_HEADS, head_dim], d)
    &&& g1.nodes@[n + 19]@ == (seq![bs, s, dim], d)
    &&& g1.nodes@[n + 20]@ == (seq![dim, dim], d)
    &&& g1.nodes@[n + 21]@ == (seq![bs, s, dim], d)
}

/// Multi-head self-attention over `x` of shape `[batch, seq, dim]` with
/// `NUM_HEADS` heads of `dim / NUM_HEADS` features each. The parameters are
/// named `name.key`, `name.query`, `name.value` and `name.proj`. The result
/// has the type of `x`.
#[verifier::rlimit(100)]
pub fn attention(b: &mut Builder, dim: usize, name: &str, x: &Variable) -> (r: Result<Variable, BuildError>)
    requires
        old(b).wf(),
        old(b).room(22),
    ensures
        r is Ok <==> (old(b).owns(*x) && x.ty.wf() && x.ty.shape@.len() == 3 && x.ty.shape@[2] == dim
            && dim % NUM_HEADS == 0 && numel(x.ty.shape@) <= usize::MAX),
        !old(b).owns(*x) ==> r == Err::<Variable, BuildError>(BuildError::ContextMismatch),
        old(b).owns(*x) && r is Err ==> r == Err::<Variable, BuildError>(BuildError::ShapeInconsistency),
        r is Err ==> *final(b) == *old(b),
        r matches Ok(y) ==> grown(*old(b), *final(b), y, x.ty@)
            && attention_edges(old(b).graph, final(b).graph, name@, x.node as int, x.ty.shape@[0], x.ty.shape@[1], dim, x.ty.dtype),
{
    if !b.owns_var(x) {
        return Err(BuildError::ContextMismatch);
    }
    if !x.ty.is_valid() || x.ty.shape.len() != 3 || x.ty.shape[2] != dim || dim % NUM_HEADS != 0 {
        return Err(BuildError::ShapeInconsistency);
    }
    if crate::tensor::element_count(&x.ty.shape).is_none() {
        return Err(BuildError::ShapeInconsistency);
    }
    let head_dim = dim / NUM_HEADS;
    let bs = x.ty.shape[0];
    let s = x.ty.shape[1];
    let ghost xs = x.ty.shape@;
    let ghost xn = x.node as int;
    let ghost g0 = b.graph;
    let ghost o = g0.ops@.len() as int;
    let ghost n = g0.nodes@.len() as int;
    assert(xs =~= seq![bs, s, dim]);
    assert(xs[0] >= 1 && xs[1] >= 1 && xs[2] >= 1);
    assert(head_dim >= 1);
    proof {
        lemma_split_heads(bs, s, dim, NUM_HEADS);
        lemma_grew_trans(g0, g0, g0, 0, Seq::<Arg>::empty(), 0, Seq::<Arg>::empty());
        assert(g0.args@ =~= g0.args@ + Seq::<Arg>::empty());
        assert(g0.results@ =~= g0.results@ + crate::builder::one_result_each(o, n, 0));
        assert(extends(g0, g0));
    }
    let ghost mut acc = Seq::<Arg>::empty();

    let mut key_name = name.to_owned();
    key_name.append(".key");
    let mut query_name = name.to_owned();
    query_name.append(".query");
    let mut value_name = name.to_owned();
    value_name.append(".value");
    let mut proj_name = name.to_owned();
    proj_name.append(".proj");
    assert(linear_shape(xs, dim) =~= xs);

    let ghost prev = b.graph;
    let k = match linear(b, dim, dim, key_name.as_str(), x) {
        Ok(v) => v,
        Err(e) => {
            return Err(e);
        },
    };
    proof {
        lemma_grew_trans(g0, prev, b.graph, 0, acc, 2, seq![ag(o + 1, xn), ag(o + 1, n + 0)]);
        acc = acc + seq![ag(o + 1, xn), ag(o + 1, n + 0)];
    }
    assert(k.node == n + 1);
    let ghost prev = b.graph;
    let q = match linear(b, dim, dim, query_name.as_str(), x) {
        Ok(v) => v,
        Err(e) => {
            return Err(e);
        },
    };
    proof {
        lemma_grew_trans(g0, prev, b.graph, 2, acc, 2, seq![ag(o + 3, xn), ag(o + 3, n + 2)]);
        acc = acc + seq![ag(o + 3, xn), ag(o + 3, n + 2)];
    }
    assert(q.node == n + 3);
    let ghost prev = b.graph;
    let v = match linear(b, dim, dim, value_name.as_str(), x) {
        Ok(v) => v,
        Err(e) => {
            return Err(e);
        },
    };
    proof {
        lemma_grew_trans(g0, prev, b.graph, 4, acc, 2, seq![ag(o + 5, xn), ag(o + 5, n + 4)]);
        acc = acc + seq![ag(o + 5, xn), ag(o + 5, n + 4)];
    }
    assert(v.node == n + 5);
    let ghost prev = b.graph;
    let q = match b.reshape(vec![bs, s, NUM_HEADS, head_dim], &q) {
        Ok(v) => v,
        Err(e) => {
            return Err(e);
        },
    };
    proof {
        assert(crate::builder::args_of(o + 6, seq![(n + 3) as usize]) =~= seq![ag(o + 6, n + 3)]);
        lemma_grew_trans(g0, prev, b.graph, 6, acc, 1, seq![ag(o + 6, n + 3)]);
        acc = acc + seq![ag(o + 6, n + 3)];
    }
    assert(q.node == n + 6);
    let ghost prev = b.graph;
    let k = match b.reshape(vec![bs, s, NUM_HEADS, head_dim], &k) {
        Ok(v) => v,
        Err(e) => {
            return Err(e);
        },
    };
    proof {
        assert(crate::builder::args_of(o + 7, seq![(n + 1) as usize]) =~= seq![ag(o + 7, n + 1)]);
        lemma_grew_trans(g0, prev, b.graph, 7, acc, 1, seq![ag(o + 7, n + 1)]);
        acc = acc + seq![ag(o + 7, n + 1)];
    }
    assert(k.node == n + 7);
    let ghost prev = b.graph;
    let v = match b.reshape(vec![bs, s, NUM_HEADS, head_dim], &v) {
        Ok(v) => v,
        Err(e) => {
            return Err(e);
        },
    };
    proof {
        assert(crate::builder::args_of(o + 8, seq![(n + 5) as usize]) =~= seq![ag(o + 8, n + 5)]);
        lemma_grew_trans(g0, prev, b.graph, 8, acc, 1, seq![ag(o + 8, n + 5)]);
        acc = acc + seq![ag(o + 8, n + 5)];
    }
    assert(v.node == n + 8);
    let ghost prev = b.graph;
    let q = match b.transpose(1, 2, &q) {
        Ok(v) => v,
        Err(e) => {
            return Err(e);
        },
    };
    proof {
        assert(crate::builder::args_of(o + 9, seq![(n + 6) as usize]) =~= seq![ag(o + 9, n + 6)]);
        lemma_grew_trans(g0, prev, b.graph, 9, acc, 1, seq![ag(o + 9, n + 6)]);
        acc = acc + seq![ag(o + 9, n + 6)];
    }
    assert(q.node == n + 9);
    assert(q.ty.shape@ =~= seq![bs, NUM_HEADS, s, head_dim]);
    let ghost prev = b.graph;
    let k = match b.transpose(1, 2, &k) {
        Ok(v) => v,
        Err(e) => {
            return Err(e);
        },
    };
    proof {
        assert(crate::builder::args_of(o + 10, seq![(n + 7) as usize]) =~= seq![ag(o + 10, n + 7)]);
        lemma_grew_trans(g0, prev, b.graph, 10, acc, 1, seq![ag(o + 10, n + 7)]);
        acc = acc + seq![ag(o + 10, n + 7)];
    }
    assert(k.node == n + 10);
    assert(k.ty.shape@ =~= seq![bs, NUM_HEADS, s, head_dim]);
    let ghost prev = b.graph;
    let v = match b.transpose(1, 2, &v) {
        Ok(v) => v,
        Err(e) => {
            return Err(e);
        },
    };
    proof {
        assert(crate::builder::args_of(o + 11, seq![(n + 8) as usize]) =~= seq![ag(o + 11, n + 8)]);
        lemma_grew_trans(g0, prev, b.graph, 11, acc, 1, seq![ag(o + 11, n + 8)]);
        acc = acc + seq![ag(o + 11, n + 8)];
    }
    assert(v.node == n + 11);
    assert(v.ty.shape@ =~= seq![bs, NUM_HEADS, s, head_dim]);
    let ghost prev = b.graph;
    let tk = match b.transpose(2, 3, &k) {
        Ok(v) => v,
        Err(e) => {
            return Err(e);
        },
    };
    proof {
        assert(crate::builder::args_of(o + 12, seq![(n + 10) as usize]) =~= seq![ag(o + 12, n + 10)]);
        lemma_grew_trans(g0, prev, b.graph, 12, acc, 1, seq![ag(o + 12, n + 10)]);
        acc = acc + seq![ag(o + 12, n + 10)];
    }
    assert(tk.node == n + 12);
    assert(tk.ty.shape@ =~= seq![bs, NUM_HEADS, head_dim, s]);
    let ghost prev = b.graph;
    let attn = match b.matmul(&q, &tk) {
        Ok(v) => v,
        Err(e) => {
            return Err(e);
        },
    };
    proof {
        assert(crate::builder::args_of(o + 13, seq![(n + 9) as usize, (n + 12) as usize]) =~= seq![ag(o + 13, n + 9), ag(o + 13, n + 12)]);
        lemma_grew_trans(g0, prev, b.graph, 13, acc, 1, seq![ag(o + 13, n + 9), ag(o + 13, n + 12)]);
        acc = acc + seq![ag(o + 13, n + 9), ag(o + 13, n + 12)];
    }
    assert(attn.node == n + 13);
    assert(batch(q.ty.shape@) =~= seq![bs, NUM_HEADS]);
    assert(batch(tk.ty.shape@) =~= seq![bs, NUM_HEADS]);
    proof { lemma_broadcast_same(seq![bs, NUM_HEADS]); }
    assert(attn.ty.shape@ =~= seq![bs, NUM_HEADS, s, s]);
    let ghost prev = b.graph;
    let denom = b.constant(attn.ty.copied(), head_dim);
    proof {
        lemma_grew_trans(g0, prev, b.graph, 14, acc, 1, Seq::<Arg>::empty());
        assert(acc + Seq::<Arg>::empty() =~= acc);
    }
    assert(denom.node == n + 14);
    let ghost prev = b.graph;
    let attn = match b.divide(&attn, &denom) {
        Ok(v) => v,
        Err(e) => {
            return Err(e);
        },
    };
    proof {
        assert(crate::builder::args_of(o + 15, seq![(n + 13) as usize, (n + 14) as usize]) =~= seq![ag(o + 15, n + 13), ag(o + 15, n + 14)]);
        lemma_grew_trans(g0, prev, b.graph, 15, acc, 1, seq![ag(o + 15, n + 13), ag(o + 15, n + 14)]);
        acc = acc + seq![ag(o + 15, n + 13), ag(o + 15, n + 14)];
    }
    assert(attn.node == n + 15);
    let ghost prev = b.graph;
    let attn = match b.softmax(&attn) {
        Ok(v) => v,
        Err(e) => {
            return Err(e);
        },
    };
    proof {
        assert(crate::builder::args_of(o + 16, seq![(n + 15) as usize]) =~= seq![ag(o + 16, n + 15)]);
        lemma_grew_trans(g0, prev, b.graph, 16, acc, 1, seq![ag(o + 16, n + 15)]);
        acc = acc + seq![ag(o + 16, n + 15)];
    }
    assert(attn.node == n + 16);
    assert(batch(attn.ty.shape@) =~= seq![bs, NUM_HEADS]);
    let ghost prev = b.graph;
    let attn = match b.matmul(&attn, &v) {
        Ok(v) => v,
        Err(e) => {
            return Err(e);
        },
    };
    proof {
        assert(crate::builder::args_of(o + 17, seq![(n + 16) as usize, (n + 11) as usize]) =~= seq![ag(o + 17, n + 16), ag(o + 17, n + 11)]);
        lemma_grew_trans(g0, prev, b.graph, 17, acc, 1, seq![ag(o + 17, n + 16), ag(o + 17, n + 11)]);
        acc = acc + seq![ag(o + 17, n + 16), ag(o + 17, n + 11)];
    }
    assert(attn.node == n + 17);
    assert(batch(v.ty.shape@) =~= seq![bs, NUM_HEADS]);
    assert(attn.ty.shape@ =~= seq![bs, NUM_HEADS, s, head_dim]);
    let ghost prev = b.graph;
    let y = match b.transpose(1, 2, &attn) {
        Ok(v) => v,
        Err(e) => {
            return Err(e);
        },
    };
    proof {
        assert(crate::builder::args_of(o + 18, seq![(n + 17) as usize]) =~= seq![ag(o + 18, n + 17)]);
        lemma_grew_trans(g0, prev, b.graph, 18, acc, 1, seq![ag(o + 18, n + 17)]);
        acc = acc + seq![ag(o + 18, n + 17)];
    }
    assert(y.node == n + 18);
    assert(y.ty.shape@ =~= seq![bs, s, NUM_HEADS, head_dim]);
    let ghost prev = b.graph;
    let y = match b.reshape(vec![bs, s, dim], &y) {
        Ok(v) => v,
        Err(e) => {
            return Err(e);
        },
    };
    proof {
        assert(crate::builder::args_of(o + 19, seq![(n + 18) as usize]) =~= seq![ag(o + 19, n + 18)]);
        lemma_grew_trans(g0, prev, b.graph, 19, acc, 1, seq![ag(o + 19, n + 18)]);
        acc = acc + seq![ag(o + 19, n + 18)];
    }
    assert(y.node == n + 19);
    assert(y.ty.shape@ =~= xs);
    let ghost prev = b.graph;
    let y = match linear(b, dim, dim, proj_name.as_str(), &y) {
        Ok(v) => v,
        Err(e) => {
            return Err(e);
        },
    };
    proof {
        lemma_grew_trans(g0, prev, b.graph, 20, acc, 2, seq![ag(o + 21, n + 19), ag(o + 21, n + 20)]);
        acc = acc + seq![ag(o + 21, n + 19), ag(o + 21, n + 20)];
    }
    assert(y.node == n + 21);
    proof {
        reveal_strlit(".key");
        reveal_strlit(".query");
        reveal_strlit(".value");
        reveal_strlit(".proj");
    }
    assert(acc == attention_args(o, n, xn));
    Ok(y)
}

} // verus!
