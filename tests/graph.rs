use noma_compiler::{
    BinaryOperator, ComputationalGraph, Expression, GraphError, NodeId, NodeType, ScalarBinary,
    ScalarUnary, Scope, UnaryOperator,
};

fn unary(k: ScalarUnary, x: f64) -> f64 {
    match k {
        ScalarUnary::Neg => -x,
        ScalarUnary::Not => {
            if x != 0.0 {
                0.0
            } else {
                1.0
            }
        }
        ScalarUnary::Sigmoid => 1.0 / (1.0 + (-x).exp()),
        ScalarUnary::Relu => {
            if x > 0.0 {
                x
            } else {
                0.0
            }
        }
    }
}

fn truth(b: bool) -> f64 {
    if b {
        1.0
    } else {
        0.0
    }
}

fn binary(k: ScalarBinary, l: f64, r: f64) -> f64 {
    match k {
        ScalarBinary::Add => l + r,
        ScalarBinary::Sub => l - r,
        ScalarBinary::Mul => l * r,
        ScalarBinary::Div => l / r,
        ScalarBinary::Pow => l.powf(r),
        ScalarBinary::Eq => truth(l == r),
        ScalarBinary::Ne => truth(l != r),
        ScalarBinary::Lt => truth(l < r),
        ScalarBinary::Gt => truth(l > r),
        ScalarBinary::Le => truth(l <= r),
        ScalarBinary::Ge => truth(l >= r),
    }
}

fn num(v: f64) -> Expression<f64> {
    Expression::Number(v)
}

fn ident(name: &str) -> Expression<f64> {
    Expression::Identifier(name.to_string())
}

fn bin(left: Expression<f64>, op: BinaryOperator, right: Expression<f64>) -> Expression<f64> {
    Expression::BinaryOp { left: Box::new(left), op, right: Box::new(right) }
}

fn call(name: &str, args: Vec<Expression<f64>>) -> Expression<f64> {
    Expression::Call { name: name.to_string(), args }
}

fn eval(expr: Expression<f64>) -> f64 {
    let mut graph = ComputationalGraph::new();
    let root = graph.build_from_expression(&expr, &Scope::new()).unwrap();
    graph.forward_pass(&unary, &binary).unwrap();
    graph.get_node(root).and_then(|n| n.value).unwrap()
}

#[test]
fn test_add_constant() {
    let mut graph = ComputationalGraph::new();
    let id = graph.add_constant(5.0);
    assert_eq!(graph.get_node(id).map(|n| &n.node_type), Some(&NodeType::Constant(5.0)));
}

#[test]
fn test_add_learnable() {
    let mut graph = ComputationalGraph::new();
    let id = graph.add_learnable("x".to_string(), 2.0);
    assert!(matches!(graph.get_node(id).map(|n| &n.node_type), Some(NodeType::Learnable(_))));
}

#[test]
fn test_binary_operation() {
    let mut graph = ComputationalGraph::new();
    let a = graph.add_constant(3.0);
    let b = graph.add_constant(2.0);
    let result = graph.add_binary_op("add", a, b);
    assert_eq!(graph.get_node(result).map(|n| n.inputs.len()), Some(2));
}

#[test]
fn test_forward_pass() {
    let mut graph = ComputationalGraph::new();
    let a = graph.add_constant(3.0);
    let b = graph.add_constant(2.0);
    let _sum = graph.add_binary_op("add", a, b);

    graph.forward_pass(&unary, &binary).unwrap();

    assert_eq!(graph.get_node(a).and_then(|n| n.value), Some(3.0));
    assert_eq!(graph.get_node(b).and_then(|n| n.value), Some(2.0));
}

#[test]
fn forward_pass_values_the_sum() {
    let mut graph = ComputationalGraph::new();
    let a = graph.add_constant(3.0);
    let b = graph.add_constant(2.0);
    let sum = graph.add_binary_op("add", a, b);
    assert_eq!(graph.get_node(sum).and_then(|n| n.value), None);
    graph.forward_pass(&unary, &binary).unwrap();
    assert_eq!(graph.get_node(sum).and_then(|n| n.value), Some(5.0));
}

#[test]
fn ids_follow_creation_order() {
    let mut graph = ComputationalGraph::new();
    let a = graph.add_constant(1.0);
    let b = graph.add_learnable("w".to_string(), 0.5);
    let c = graph.add_variable("v".to_string(), a);
    let d = graph.add_binary_op("mul", b, c);
    let e = graph.add_unary_op("neg", d);
    let f = graph.add_function_call("relu".to_string(), vec![e]);
    let ids: Vec<usize> = vec![a, b, c, d, e, f].iter().map(|i| i.index()).collect();
    assert_eq!(ids, vec![0, 1, 2, 3, 4, 5]);
    assert_eq!(NodeId::new(3), d);
    for (k, node) in graph.nodes().iter().enumerate() {
        assert_eq!(node.id.index(), k);
    }
}

#[test]
fn inputs_precede_their_node() {
    let mut graph = ComputationalGraph::new();
    let mut scope = Scope::new();
    let w = graph.add_learnable("w".to_string(), 1.5);
    scope.bind("w".to_string(), w);
    let expr = call(
        "sigmoid",
        vec![bin(bin(ident("w"), BinaryOperator::Mul, num(2.0)), BinaryOperator::Sub, ident("w"))],
    );
    graph.build_from_expression(&expr, &scope).unwrap();
    for node in graph.nodes() {
        for input in &node.inputs {
            assert!(input.index() < node.id.index());
        }
    }
}

#[test]
fn arithmetic_results() {
    assert_eq!(eval(bin(num(3.0), BinaryOperator::Add, num(2.0))), 5.0);
    assert_eq!(eval(bin(num(2.0), BinaryOperator::Pow, num(10.0))), 1024.0);
    let neg = Expression::UnaryOp { op: UnaryOperator::Neg, expr: Box::new(num(5.0)) };
    assert_eq!(eval(neg), -5.0);
    assert_eq!(eval(bin(num(7.0), BinaryOperator::Sub, num(2.0))), 5.0);
    assert_eq!(eval(bin(num(7.0), BinaryOperator::Mul, num(2.0))), 14.0);
    assert_eq!(eval(bin(num(7.0), BinaryOperator::Div, num(2.0))), 3.5);
}

#[test]
fn division_by_zero_is_infinite() {
    assert_eq!(eval(bin(num(1.0), BinaryOperator::Div, num(0.0))), f64::INFINITY);
}

#[test]
fn relational_results() {
    assert_eq!(eval(bin(num(3.0), BinaryOperator::Less, num(5.0))), 1.0);
    assert_eq!(eval(bin(num(5.0), BinaryOperator::Less, num(3.0))), 0.0);
    assert_eq!(eval(bin(num(4.0), BinaryOperator::NotEqual, num(4.0))), 0.0);
    assert_eq!(eval(bin(num(4.0), BinaryOperator::Equal, num(4.0))), 1.0);
    assert_eq!(eval(bin(num(4.0), BinaryOperator::GreaterEq, num(4.0))), 1.0);
    assert_eq!(eval(bin(num(4.0), BinaryOperator::Greater, num(4.0))), 0.0);
    assert_eq!(eval(bin(num(4.0), BinaryOperator::LessEq, num(3.0))), 0.0);
}

#[test]
fn logical_not() {
    let not = |v: f64| Expression::UnaryOp { op: UnaryOperator::Not, expr: Box::new(num(v)) };
    assert_eq!(eval(not(0.0)), 1.0);
    assert_eq!(eval(not(2.5)), 0.0);
}

#[test]
fn builtin_results() {
    assert_eq!(eval(call("sigmoid", vec![num(0.0)])), 0.5);
    assert_eq!(eval(call("relu", vec![num(-2.0)])), 0.0);
    assert_eq!(eval(call("relu", vec![num(3.0)])), 3.0);
}

#[test]
fn unknown_function_fails() {
    let mut graph = ComputationalGraph::new();
    let root = graph
        .build_from_expression(&call("softmax", vec![num(1.0)]), &Scope::new())
        .unwrap();
    let r = graph.forward_pass(&unary, &binary);
    assert_eq!(r, Err(GraphError::UnknownFunction("softmax".to_string())));
    assert_eq!(graph.get_node(root).and_then(|n| n.value), None);
}

#[test]
fn builtin_with_wrong_arity_fails() {
    let mut graph = ComputationalGraph::new();
    let a = graph.add_constant(1.0);
    let b = graph.add_constant(2.0);
    graph.add_function_call("relu".to_string(), vec![a, b]);
    let r = graph.forward_pass(&unary, &binary);
    assert_eq!(r, Err(GraphError::UnknownFunction("relu".to_string())));
}

#[test]
fn unknown_operator_fails() {
    let mut graph = ComputationalGraph::new();
    let a = graph.add_constant(1.0);
    let b = graph.add_constant(2.0);
    let m = graph.add_binary_op("mod", a, b);
    graph.add_unary_op("abs", m);
    let r = graph.forward_pass(&unary, &binary);
    assert_eq!(r, Err(GraphError::UnknownOperator("mod".to_string())));
    assert_eq!(graph.get_node(m).and_then(|n| n.value), None);
}

#[test]
fn unknown_unary_operator_fails() {
    let mut graph = ComputationalGraph::new();
    let a = graph.add_constant(1.0);
    graph.add_unary_op("abs", a);
    let r = graph.forward_pass(&unary, &binary);
    assert_eq!(r, Err(GraphError::UnknownOperator("abs".to_string())));
}

#[test]
fn undefined_variable_fails_before_building() {
    let mut graph = ComputationalGraph::new();
    let mut scope = Scope::new();
    let x = graph.add_constant(1.0);
    scope.bind("x".to_string(), x);
    let expr = bin(bin(ident("x"), BinaryOperator::Add, num(2.0)), BinaryOperator::Mul, ident("y"));
    let r = graph.build_from_expression(&expr, &scope);
    assert_eq!(r, Err(GraphError::UndefinedVariable("y".to_string())));
    assert_eq!(graph.nodes().len(), 1);
}

#[test]
fn first_undefined_variable_is_reported() {
    let mut graph: ComputationalGraph<f64> = ComputationalGraph::new();
    let expr = call("f", vec![ident("a"), ident("b")]);
    let r = graph.build_from_expression(&expr, &Scope::new());
    assert_eq!(r, Err(GraphError::UndefinedVariable("a".to_string())));
    assert!(graph.nodes().is_empty());
}

#[test]
fn build_then_evaluate_values_every_node() {
    let mut graph = ComputationalGraph::new();
    let mut scope = Scope::new();
    let w = graph.add_learnable("w".to_string(), 2.0);
    let b = graph.add_learnable("b".to_string(), -1.0);
    scope.bind("w".to_string(), w);
    scope.bind("b".to_string(), b);
    let expr = call(
        "relu",
        vec![bin(bin(ident("w"), BinaryOperator::Mul, num(3.0)), BinaryOperator::Add, ident("b"))],
    );
    let root = graph.build_from_expression(&expr, &scope).unwrap();
    graph.forward_pass(&unary, &binary).unwrap();
    assert!(graph.nodes().iter().all(|n| n.value.is_some()));
    assert_eq!(graph.get_node(root).and_then(|n| n.value), Some(5.0));
    assert_eq!(graph.learnables(), &["w".to_string(), "b".to_string()]);
}

#[test]
fn forward_pass_is_idempotent() {
    let mut graph = ComputationalGraph::new();
    let expr = call("sigmoid", vec![bin(num(1.5), BinaryOperator::Pow, num(2.0))]);
    graph.build_from_expression(&expr, &Scope::new()).unwrap();
    graph.forward_pass(&unary, &binary).unwrap();
    let first: Vec<Option<f64>> = graph.nodes().iter().map(|n| n.value).collect();
    graph.forward_pass(&unary, &binary).unwrap();
    let second: Vec<Option<f64>> = graph.nodes().iter().map(|n| n.value).collect();
    assert_eq!(first, second);
}

#[test]
fn building_twice_shares_no_nodes() {
    let mut graph = ComputationalGraph::new();
    let expr = bin(num(3.0), BinaryOperator::Add, num(2.0));
    let r1 = graph.build_from_expression(&expr, &Scope::new()).unwrap();
    let after_first = graph.nodes().len();
    let r2 = graph.build_from_expression(&expr, &Scope::new()).unwrap();
    assert_eq!(after_first, 3);
    assert_eq!(graph.nodes().len(), 6);
    assert_eq!(r1.index(), 2);
    assert_eq!(r2.index(), 5);
    assert_ne!(r1, r2);
}

#[test]
fn variable_aliases_its_input() {
    let mut graph = ComputationalGraph::new();
    let a = graph.add_constant(4.0);
    let v = graph.add_variable("v".to_string(), a);
    graph.forward_pass(&unary, &binary).unwrap();
    assert_eq!(graph.get_node(v).and_then(|n| n.value), Some(4.0));
}

#[test]
fn learnable_keeps_its_value_and_gradient() {
    let mut graph = ComputationalGraph::new();
    let w = graph.add_learnable("w".to_string(), 2.0);
    let c = graph.add_constant(1.0);
    assert_eq!(graph.get_node(w).and_then(|n| n.gradient), Some(0.0));
    assert_eq!(graph.get_node(c).and_then(|n| n.gradient), None);
    graph.forward_pass(&unary, &binary).unwrap();
    assert_eq!(graph.get_node(w).and_then(|n| n.value), Some(2.0));
    assert_eq!(graph.get_node(w).and_then(|n| n.gradient), Some(0.0));
}

#[test]
fn set_learnable_value_updates_only_learnables() {
    let mut graph = ComputationalGraph::new();
    let w = graph.add_learnable("w".to_string(), 2.0);
    let c = graph.add_constant(1.0);
    let s = graph.add_binary_op("add", w, c);
    assert!(graph.set_learnable_value(w, 10.0));
    assert!(!graph.set_learnable_value(c, 10.0));
    assert!(!graph.set_learnable_value(NodeId::new(9), 10.0));
    graph.forward_pass(&unary, &binary).unwrap();
    assert_eq!(graph.get_node(s).and_then(|n| n.value), Some(11.0));
}

#[test]
fn duplicate_learnable_names_are_kept() {
    let mut graph = ComputationalGraph::new();
    graph.add_learnable("w".to_string(), 1.0);
    graph.add_learnable("w".to_string(), 2.0);
    assert_eq!(graph.learnables().len(), 2);
}

#[test]
fn get_node_out_of_range() {
    let graph: ComputationalGraph<f64> = ComputationalGraph::new();
    assert!(graph.get_node(NodeId::new(0)).is_none());
}

#[test]
fn scope_later_binding_shadows() {
    let mut scope = Scope::new();
    scope.bind("x".to_string(), NodeId::new(1));
    scope.bind("y".to_string(), NodeId::new(2));
    scope.bind("x".to_string(), NodeId::new(3));
    assert_eq!(scope.lookup(&"x".to_string()), Some(NodeId::new(3)));
    assert_eq!(scope.lookup(&"y".to_string()), Some(NodeId::new(2)));
    assert_eq!(scope.lookup(&"z".to_string()), None);
}

#[test]
fn identifier_builds_no_node() {
    let mut graph = ComputationalGraph::new();
    let mut scope = Scope::new();
    let a = graph.add_constant(1.0);
    scope.bind("a".to_string(), a);
    let r = graph.build_from_expression(&ident("a"), &scope).unwrap();
    assert_eq!(r, a);
    assert_eq!(graph.nodes().len(), 1);
}
