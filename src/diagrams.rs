use vstd::prelude::*;
use crate::builder::{Builder, one_result_each};
use crate::graph::Graph;
use crate::layers::{attention, attention_args, attention_at, residual, residual_args, residual_at};
use crate::tensor::{Dtype, TensorType};

verus! {

/// The graph of one attention block named "attention" over a `[1, 1, 8]`
/// float input: node 0 is the only boundary input, edges 0 to 21 are the
/// block's, edge `i` producing node `i + 1`, and node 22, the block's result,
/// is the only boundary output.
pub fn attention_arrow() -> (g: Graph)
    ensures
        g.wf(),
        g.nodes@.len() == 23,
        g.ops@.len() == 22,
        g.inputs@ == seq![0usize],
        g.outputs@ == seq![22usize],
        g.nodes@[0]@ == (seq![1usize, 1usize, 8usize], Dtype::F32),
        g.args@ == attention_args(0, 1, 0),
        g.results@ == one_result_each(0, 1, 22),
        attention_at(g, 0, 1, "attention"@, 1, 1, 8, Dtype::F32),
{
    let dim: usize = 8;
    let mut b = Builder::new(1);
    let t = TensorType::new(vec![1, 1, 8], Dtype::F32);
    assert(t.shape@ =~= seq![1usize, 1usize, 8usize]);
    let x = b.declare_input(t);
    proof {
        crate::layers::lemma_numel3(1, 1, 8);
    }
    let ghost g0 = b.graph;
    let y = match attention(&mut b, dim, "attention", &x) {
        Ok(y) => y,
        Err(_) => {
            return Graph::empty();
        },
    };
    match b.declare_output(&y) {
        Ok(()) => {},
        Err(_) => {
            return Graph::empty();
        },
    }
    let g = b.finish();
    assert(g.inputs@ =~= seq![0usize]);
    assert(g.outputs@ =~= seq![22usize]);
    assert(g.args@ =~= attention_args(0, 1, 0));
    assert(g.results@ =~= one_result_each(0, 1, 22));
    g
}

/// The graph of one residual block over an `[8, 8]` float input: node 0 is
/// the only boundary input, edges 0 to 2 are the block's, edge `i` producing
/// node `i + 1`, and node 3, the block's result, is the only boundary output.
pub fn residual_arrow() -> (g: Graph)
    ensures
        g.wf(),
        g.nodes@.len() == 4,
        g.ops@.len() == 3,
        g.inputs@ == seq![0usize],
        g.outputs@ == seq![3usize],
        g.nodes@[0]@ == (seq![8usize, 8usize], Dtype::F32),
        g.args@ == residual_args(0, 1, 0),
        g.results@ == one_result_each(0, 1, 3),
        residual_at(g, 0, 1, 8, (seq![8usize, 8usize], Dtype::F32)),
{
    let mut b = Builder::new(2);
    let t = TensorType::new(vec![8, 8], Dtype::F32);
    assert(t.shape@ =~= seq![8usize, 8usize]);
    let x = b.declare_input(t);
    let y = match residual(&mut b, &x) {
        Ok(y) => y,
        Err(_) => {
            return Graph::empty();
        },
    };
    match b.declare_output(&y) {
        Ok(()) => {},
        Err(_) => {
            return Graph::empty();
        },
    }
    let g = b.finish();
    assert(g.inputs@ =~= seq![0usize]);
    assert(g.outputs@ =~= seq![3usize]);
    assert(g.args@ =~= residual_args(0, 1, 0));
    assert(g.results@ =~= one_result_each(0, 1, 3));
    g
}

} // verus!
