use catgrad_diagrams::builder::{BuildError, Builder};
use catgrad_diagrams::diagrams::{attention_arrow, residual_arrow};
use catgrad_diagrams::graph::{simplify, Graph, Op};
use catgrad_diagrams::layers::{attention, linear, residual};
use catgrad_diagrams::tensor::{element_count, Dtype, TensorType};

fn ty(shape: &[usize]) -> TensorType {
    TensorType::new(shape.to_vec(), Dtype::F32)
}

fn count(g: &Graph, pred: fn(&Op) -> bool) -> usize {
    g.ops.iter().filter(|o| pred(o)).count()
}

fn snapshot(g: &Graph) -> (Vec<TensorType>, Vec<String>, Vec<(usize, usize)>, Vec<(usize, usize)>, Vec<usize>, Vec<usize>) {
    (
        g.nodes.clone(),
        g.ops.iter().map(|o| format!("{:?}", o)).collect(),
        g.args.iter().map(|a| (a.edge, a.node)).collect(),
        g.results.iter().map(|a| (a.edge, a.node)).collect(),
        g.inputs.clone(),
        g.outputs.clone(),
    )
}

fn port_types(g: &Graph) -> (Vec<TensorType>, Vec<TensorType>) {
    (
        g.inputs.iter().map(|&i| g.nodes[i].clone()).collect(),
        g.outputs.iter().map(|&i| g.nodes[i].clone()).collect(),
    )
}

#[test]
fn tensor_type_equality() {
    assert!(ty(&[2, 3]) == ty(&[2, 3]));
    assert!(ty(&[2, 3]) != ty(&[3, 2]));
    assert!(ty(&[2, 3]) != ty(&[2, 3, 1]));
    assert!(ty(&[2, 3]) != TensorType::new(vec![2, 3], Dtype::I32));
    assert!(ty(&[4]).is_valid());
    assert!(!ty(&[4, 0]).is_valid());
    assert!(!ty(&[]).is_valid());
}

#[test]
fn element_count_values() {
    assert_eq!(element_count(&vec![2, 3, 4]), Some(24));
    assert_eq!(element_count(&vec![]), Some(1));
    assert_eq!(element_count(&vec![usize::MAX, 2]), None);
    assert_eq!(element_count(&vec![usize::MAX, 2, 0]), Some(0));
}

#[test]
fn attention_keeps_shape() {
    for shape in [[1usize, 1, 8], [2, 3, 8], [3, 5, 12]] {
        let mut b = Builder::new(7);
        let x = b.declare_input(ty(&shape));
        let y = attention(&mut b, shape[2], "attn", &x).unwrap();
        assert_eq!(y.ty.shape, shape.to_vec());
        assert_eq!(y.ty.dtype, Dtype::F32);
        assert_eq!(y.node + 1, b.graph.nodes.len());
    }
}

#[test]
fn attention_rejects_indivisible_dim() {
    let mut b = Builder::new(1);
    let x = b.declare_input(ty(&[1, 2, 6]));
    let before = b.graph.nodes.len();
    assert_eq!(attention(&mut b, 6, "attn", &x).unwrap_err(), BuildError::ShapeInconsistency);
    assert_eq!(b.graph.nodes.len(), before);
    assert!(b.graph.ops.is_empty());
}

#[test]
fn residual_keeps_shape() {
    let mut b = Builder::new(1);
    let x = b.declare_input(ty(&[8, 8]));
    let y = residual(&mut b, &x).unwrap();
    assert_eq!(y.ty, x.ty);
}

#[test]
fn residual_rejects_non_square_input() {
    let mut b = Builder::new(1);
    let x = b.declare_input(ty(&[2, 3]));
    assert_eq!(residual(&mut b, &x).unwrap_err(), BuildError::ShapeInconsistency);
    let z = b.declare_input(ty(&[3]));
    assert_eq!(residual(&mut b, &z).unwrap_err(), BuildError::ShapeInconsistency);
    let w = b.declare_input(TensorType::new(vec![3, 3], Dtype::I32));
    assert_eq!(residual(&mut b, &w).unwrap_err(), BuildError::ShapeInconsistency);
    assert!(b.graph.ops.is_empty());
}

#[test]
fn residual_keeps_batched_shape() {
    let mut b = Builder::new(1);
    let x = b.declare_input(ty(&[2, 3, 3]));
    let y = residual(&mut b, &x).unwrap();
    assert_eq!(y.ty, x.ty);
    assert_eq!(b.graph.nodes[1], ty(&[3, 3]));
    assert_eq!(b.graph.nodes[2], ty(&[2, 3, 3]));
    let args: Vec<(usize, usize)> = b.graph.args.iter().map(|a| (a.edge, a.node)).collect();
    assert_eq!(args, vec![(1, 1), (1, 0), (2, 2), (2, 0)]);
    assert_eq!(y.node, 3);
}

#[test]
fn linear_projects_last_dimension() {
    let mut b = Builder::new(1);
    let x = b.declare_input(ty(&[2, 5, 3]));
    let y = linear(&mut b, 3, 7, "lin", &x).unwrap();
    assert_eq!(y.ty.shape, vec![2, 5, 7]);
    assert!(matches!(&b.graph.ops[0], Op::Parameter(n) if n == "lin"));
    assert_eq!(b.graph.nodes[1].shape, vec![3, 7]);
    assert!(matches!(b.graph.ops[1], Op::MatMul));
    assert_eq!(linear(&mut b, 4, 7, "lin", &x).unwrap_err(), BuildError::ShapeInconsistency);
}

#[test]
fn foreign_variable_is_rejected() {
    let mut a = Builder::new(1);
    let mut b = Builder::new(2);
    let xa = a.declare_input(ty(&[4, 4]));
    let xb = b.declare_input(ty(&[4, 4]));
    let before = snapshot(&b.graph);
    let r = b.emit(Op::Add, &vec![xb.clone(), xa.clone()], ty(&[4, 4]));
    assert_eq!(r.unwrap_err(), BuildError::ContextMismatch);
    assert_eq!(snapshot(&b.graph), before);
    assert_eq!(b.add(&xb, &xa).unwrap_err(), BuildError::ContextMismatch);
    assert_eq!(b.softmax(&xa).unwrap_err(), BuildError::ContextMismatch);
    assert_eq!(b.declare_output(&xa).unwrap_err(), BuildError::ContextMismatch);
    assert_eq!(snapshot(&b.graph), before);
    let ok = b.emit(Op::Softmax, &vec![xb.clone()], ty(&[4, 4])).unwrap();
    assert_eq!(ok.node, 1);
    assert_eq!(b.graph.args.len(), 1);
}

#[test]
fn operation_shape_rules() {
    let mut b = Builder::new(3);
    let a = b.declare_input(ty(&[2, 3, 4]));
    let c = b.declare_input(ty(&[2, 4, 5]));
    assert_eq!(b.matmul(&a, &c).unwrap().ty.shape, vec![2, 3, 5]);
    assert_eq!(b.matmul(&c, &a).unwrap_err(), BuildError::ShapeInconsistency);
    let m = b.declare_input(ty(&[4, 6]));
    let batched = b.declare_input(ty(&[7, 1, 6, 2]));
    assert_eq!(b.matmul(&m, &batched).unwrap().ty.shape, vec![7, 1, 4, 2]);
    let wide = b.declare_input(ty(&[3, 2, 4]));
    assert_eq!(b.matmul(&a, &wide).unwrap_err(), BuildError::ShapeInconsistency);
    let ints = b.declare_input(TensorType::new(vec![2, 4, 5], Dtype::I32));
    assert_eq!(b.matmul(&a, &ints).unwrap_err(), BuildError::ShapeInconsistency);
    assert_eq!(b.reshape(vec![24, 0], &a).unwrap_err(), BuildError::ShapeInconsistency);
    assert_eq!(b.transpose(0, 2, &a).unwrap().ty.shape, vec![4, 3, 2]);
    assert_eq!(b.transpose(0, 3, &a).unwrap_err(), BuildError::ShapeInconsistency);
    assert_eq!(b.reshape(vec![6, 4], &a).unwrap().ty.shape, vec![6, 4]);
    assert_eq!(b.reshape(vec![5, 5], &a).unwrap_err(), BuildError::ShapeInconsistency);
    assert_eq!(b.divide(&a, &c).unwrap_err(), BuildError::ShapeInconsistency);
    let k = b.constant(ty(&[2, 3, 4]), 9);
    assert_eq!(b.divide(&a, &k).unwrap().ty, a.ty);
    assert!(matches!(b.graph.ops.last(), Some(Op::Divide)));
}

#[test]
fn attention_scenario() {
    let g = attention_arrow();
    assert_eq!(g.inputs.len(), 1);
    assert_eq!(g.outputs.len(), 1);
    assert_eq!(g.nodes[g.inputs[0]], ty(&[1, 1, 8]));
    assert_eq!(g.nodes[g.outputs[0]], ty(&[1, 1, 8]));
    assert_eq!(count(&g, |o| matches!(o, Op::Parameter(_))), 4);
    assert!(count(&g, |o| matches!(o, Op::MatMul)) >= 4);
    assert_eq!(count(&g, |o| matches!(o, Op::Softmax)), 1);
    let names: Vec<String> = g
        .ops
        .iter()
        .filter_map(|o| if let Op::Parameter(n) = o { Some(n.clone()) } else { None })
        .collect();
    assert_eq!(names, vec!["attention.key", "attention.query", "attention.value", "attention.proj"]);
    assert!(g.ops.iter().any(|o| matches!(o, Op::ConstSqrt(2))));
    assert!(matches!(g.ops[16], Op::Softmax));
    assert_eq!(g.nodes[17], ty(&[1, 4, 1, 1]));
    assert!(matches!(g.ops[21], Op::MatMul));
    assert_eq!(g.outputs, vec![22]);
    assert_eq!(g.nodes[1], ty(&[8, 8]));
}

#[test]
fn residual_scenario() {
    let g = residual_arrow();
    assert_eq!(g.inputs.len(), 1);
    assert_eq!(g.outputs.len(), 1);
    assert_eq!(g.nodes[g.outputs[0]], ty(&[8, 8]));
    assert_eq!(count(&g, |o| matches!(o, Op::MatMul)), 1);
    assert_eq!(count(&g, |o| matches!(o, Op::Add)), 1);
    assert_eq!(count(&g, |o| matches!(o, Op::Parameter(_))), 1);
    let p = g.results.iter().find(|r| matches!(g.ops[r.edge], Op::Parameter(_))).unwrap();
    assert_eq!(g.nodes[p.node], ty(&[8, 8]));
}

#[test]
fn simplify_makes_sharing_explicit() {
    let g = residual_arrow();
    let input = g.inputs[0];
    let s = simplify(g);
    // the input feeds both the product and the sum
    assert_eq!(count(&s, |o| matches!(o, Op::Copy)), 1);
    let copy = s.ops.iter().position(|o| matches!(o, Op::Copy)).unwrap();
    assert_eq!(s.results.iter().filter(|r| r.edge == copy).count(), 2);
    assert_eq!(s.args.iter().filter(|a| a.node == input).count(), 1);
    let mut used: Vec<usize> = s.outputs.clone();
    used.extend(s.args.iter().map(|a| a.node));
    let mut sorted = used.clone();
    sorted.sort();
    sorted.dedup();
    assert_eq!(sorted.len(), used.len());
}

#[test]
fn simplify_is_idempotent() {
    for g in [attention_arrow(), residual_arrow()] {
        let once = simplify(g);
        let first = snapshot(&once);
        let twice = simplify(once);
        assert_eq!(snapshot(&twice), first);
    }
}

#[test]
fn simplify_keeps_ports() {
    for g in [attention_arrow(), residual_arrow()] {
        let ports = port_types(&g);
        let s = simplify(g);
        assert_eq!(port_types(&s), ports);
    }
}

#[test]
fn simplify_fans_out_attention_input() {
    let g = attention_arrow();
    let s = simplify(g);
    let copy_sizes: Vec<usize> = (0..s.ops.len())
        .filter(|&e| matches!(s.ops[e], Op::Copy))
        .map(|e| s.results.iter().filter(|r| r.edge == e).count())
        .collect();
    assert!(copy_sizes.contains(&3));
}
