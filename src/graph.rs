use crate::ast::{BinaryOperator, Expression, UnaryOperator};
use crate::scope::Scope;
use vstd::prelude::*;

verus! {

broadcast use vstd::std_specs::vec::group_vec_axioms;

/// Handle of a node: its position in the graph's node table.
#[derive(Debug, Clone, Copy, PartialEq, Eq, Hash, Structural)]
pub struct NodeId(pub usize);

impl NodeId {
    pub fn new(id: usize) -> (r: Self)
        ensures
            r.0 == id,
    {
        NodeId(id)
    }

    pub fn index(&self) -> (r: usize)
        ensures
            r == self.0,
    {
        self.0
    }
}

/// What a node computes; `V` is the scalar type.
#[derive(Debug, Clone, PartialEq)]
pub enum NodeType<V> {
    /// A literal scalar, no inputs.
    Constant(V),
    /// A named trainable parameter, no inputs.
    Learnable(String),
    /// A named alias of its single input.
    Variable(String),
    /// `add`, `sub`, `mul`, `div`, `pow`, `eq`, `ne`, `lt`, `gt`, `le`, `ge` over two inputs.
    BinaryOp(String),
    /// `neg` or `not` over one input.
    UnaryOp(String),
    /// A call of a builtin function over its arguments.
    FunctionCall(String),
}

/// One vertex of the graph.
#[derive(Debug, Clone, PartialEq)]
pub struct Node<V> {
    pub id: NodeId,
    pub node_type: NodeType<V>,
    pub inputs: Vec<NodeId>,
    pub value: Option<V>,
    pub gradient: Option<V>,
}

/// Why building or evaluating failed.
#[derive(Debug, Clone, PartialEq)]
pub enum GraphError {
    UndefinedVariable(String),
    MissingOperand,
    UnknownOperator(String),
    UnknownFunction(String),
}

/// Two-operand scalar operations the evaluator hands to its binary kernel.
#[derive(Debug, Clone, Copy, PartialEq, Eq, Structural)]
pub enum ScalarBinary {
    Add,
    Sub,
    Mul,
    Div,
    Pow,
    Eq,
    Ne,
    Lt,
    Gt,
    Le,
    Ge,
}

/// One-operand scalar operations the evaluator hands to its unary kernel.
#[derive(Debug, Clone, Copy, PartialEq, Eq, Structural)]
pub enum ScalarUnary {
    Neg,
    Not,
    Sigmoid,
    Relu,
}

/// The binary opcode a name stands for.
pub open spec fn binary_opcode(s: Seq<char>) -> Option<ScalarBinary> {
    if s == "add"@ {
        Some(ScalarBinary::Add)
    } else if s == "sub"@ {
        Some(ScalarBinary::Sub)
    } else if s == "mul"@ {
        Some(ScalarBinary::Mul)
    } else if s == "div"@ {
        Some(ScalarBinary::Div)
    } else if s == "pow"@ {
        Some(ScalarBinary::Pow)
    } else if s == "eq"@ {
        Some(ScalarBinary::Eq)
    } else if s == "ne"@ {
        Some(ScalarBinary::Ne)
    } else if s == "lt"@ {
        Some(ScalarBinary::Lt)
    } else if s == "gt"@ {
        Some(ScalarBinary::Gt)
    } else if s == "le"@ {
        Some(ScalarBinary::Le)
    } else if s == "ge"@ {
        Some(ScalarBinary::Ge)
    } else {
        None
    }
}

/// The unary opcode a name stands for.
pub open spec fn unary_opcode(s: Seq<char>) -> Option<ScalarUnary> {
    if s == "neg"@ {
        Some(ScalarUnary::Neg)
    } else if s == "not"@ {
        Some(ScalarUnary::Not)
    } else {
        None
    }
}

/// The builtin registry, keyed by name and argument count.
pub open spec fn builtin(name: Seq<char>, arity: nat) -> Option<ScalarUnary> {
    if arity != 1 {
        None
    } else if name == "sigmoid"@ {
        Some(ScalarUnary::Sigmoid)
    } else if name == "relu"@ {
        Some(ScalarUnary::Relu)
    } else {
        None
    }
}

/// The error that evaluating this node raises, whatever its inputs hold.
pub open spec fn node_error<V>(n: Node<V>) -> Option<GraphError> {
    match n.node_type {
        NodeType::BinaryOp(op) => if binary_opcode(op@) is Some {
            None
        } else {
            Some(GraphError::UnknownOperator(op))
        },
        NodeType::UnaryOp(op) => if unary_opcode(op@) is Some {
            None
        } else {
            Some(GraphError::UnknownOperator(op))
        },
        NodeType::FunctionCall(name) => if builtin(name@, n.inputs@.len()) is Some {
            None
        } else {
            Some(GraphError::UnknownFunction(name))
        },
        _ => None,
    }
}

/// Number of inputs a node of this kind takes; `None` where any count goes.
pub open spec fn arity<V>(t: NodeType<V>) -> Option<nat> {
    match t {
        NodeType::Constant(_) => Some(0),
        NodeType::Learnable(_) => Some(0),
        NodeType::Variable(_) => Some(1),
        NodeType::BinaryOp(_) => Some(2),
        NodeType::UnaryOp(_) => Some(1),
        NodeType::FunctionCall(_) => None,
    }
}

/// The node at position `i` of a table is well formed.
pub open spec fn node_wf<V>(n: Node<V>, i: int) -> bool {
    &&& n.id.0 == i
    &&& forall|j: int| 0 <= j < n.inputs@.len() ==> (#[trigger] n.inputs@[j]).0 < i
    &&& (arity(n.node_type) is Some ==> n.inputs@.len() == arity(n.node_type)->Some_0)
    &&& (n.node_type is Learnable <==> n.gradient is Some)
    &&& (n.node_type is Learnable ==> n.value is Some)
    &&& (n.node_type is Constant ==> n.value == Some(n.node_type->Constant_0))
    &&& (node_error(n) is Some ==> n.value is None)
}

/// Every node of the table is well formed at its position.
pub open spec fn table_wf<V>(nodes: Seq<Node<V>>) -> bool {
    forall|i: int| 0 <= i < nodes.len() ==> node_wf(#[trigger] nodes[i], i)
}

/// No node of the table raises an error when evaluated.
pub open spec fn evaluable<V>(nodes: Seq<Node<V>>) -> bool {
    forall|i: int| 0 <= i < nodes.len() ==> (#[trigger] node_error(nodes[i])) is None
}

/// The value of input `k` of node `n` in the table.
pub open spec fn input_value<V>(nodes: Seq<Node<V>>, n: Node<V>, k: int) -> V {
    nodes[n.inputs@[k].0 as int].value->Some_0
}

/// `v` is what node `i` computes from its inputs' values under the given
/// kernels (a learnable keeps the value it holds).
pub open spec fn node_computes<V, U, B>(nodes: Seq<Node<V>>, i: int, v: V, unary: U, binary: B) -> bool where
    U: Fn(ScalarUnary, V) -> V,
    B: Fn(ScalarBinary, V, V) -> V,
 {
    let n = nodes[i];
    match n.node_type {
        NodeType::Constant(c) => v == c,
        NodeType::Learnable(_) => n.value == Some(v),
        NodeType::Variable(_) => v == input_value(nodes, n, 0),
        NodeType::BinaryOp(op) => call_ensures(
            binary,
            (binary_opcode(op@)->Some_0, input_value(nodes, n, 0), input_value(nodes, n, 1)),
            v,
        ),
        NodeType::UnaryOp(op) => call_ensures(
            unary,
            (unary_opcode(op@)->Some_0, input_value(nodes, n, 0)),
            v,
        ),
        NodeType::FunctionCall(name) => call_ensures(
            unary,
            (builtin(name@, 1)->Some_0, input_value(nodes, n, 0)),
            v,
        ),
    }
}

/// Node `i` holds a value, and it is what the node computes.
pub open spec fn computed<V, U, B>(nodes: Seq<Node<V>>, i: int, unary: U, binary: B) -> bool where
    U: Fn(ScalarUnary, V) -> V,
    B: Fn(ScalarBinary, V, V) -> V,
 {
    &&& nodes[i].value is Some
    &&& node_computes(nodes, i, nodes[i].value->Some_0, unary, binary)
}


/// Number of nodes that lowering `e` appends: one per literal, operator and
/// call; none for an identifier, which is looked up.
pub open spec fn node_count<V>(e: Expression<V>) -> nat
    decreases e,
{
    match e {
        Expression::Number(_) => 1,
        Expression::Identifier(_) => 0,
        Expression::BinaryOp { left, op: _, right } => node_count(*left) + node_count(*right) + 1,
        Expression::UnaryOp { op: _, expr } => node_count(*expr) + 1,
        Expression::Call { name: _, args } => args_node_count(args@) + 1,
    }
}

/// Number of nodes that lowering each of `args` appends.
pub open spec fn args_node_count<V>(args: Seq<Expression<V>>) -> nat
    decreases args,
{
    if args.len() == 0 {
        0
    } else {
        args_node_count(args.drop_last()) + node_count(args.last())
    }
}

/// The first identifier of `e`, left to right, that `scope` does not bind.
pub open spec fn first_undefined<V>(e: Expression<V>, scope: Scope) -> Option<String>
    decreases e,
{
    match e {
        Expression::Number(_) => None,
        Expression::Identifier(name) => if scope.spec_lookup(name@) is Some {
            None
        } else {
            Some(name)
        },
        Expression::BinaryOp { left, op: _, right } => if first_undefined(*left, scope) is Some {
            first_undefined(*left, scope)
        } else {
            first_undefined(*right, scope)
        },
        Expression::UnaryOp { op: _, expr } => first_undefined(*expr, scope),
        Expression::Call { name: _, args } => args_first_undefined(args@, scope),
    }
}

/// The first identifier of `args`, left to right, that `scope` does not bind.
pub open spec fn args_first_undefined<V>(args: Seq<Expression<V>>, scope: Scope) -> Option<String>
    decreases args,
{
    if args.len() == 0 {
        None
    } else if args_first_undefined(args.drop_last(), scope) is Some {
        args_first_undefined(args.drop_last(), scope)
    } else {
        first_undefined(args.last(), scope)
    }
}

/// Every call in `e` names a builtin with its arity.
pub open spec fn calls_builtins<V>(e: Expression<V>) -> bool
    decreases e,
{
    match e {
        Expression::Number(_) => true,
        Expression::Identifier(_) => true,
        Expression::BinaryOp { left, op: _, right } => calls_builtins(*left) && calls_builtins(*right),
        Expression::UnaryOp { op: _, expr } => calls_builtins(*expr),
        Expression::Call { name, args } => builtin(name@, args@.len()) is Some && args_call_builtins(
            args@,
        ),
    }
}

/// Every call in `args` names a builtin with its arity.
pub open spec fn args_call_builtins<V>(args: Seq<Expression<V>>) -> bool
    decreases args,
{
    if args.len() == 0 {
        true
    } else {
        args_call_builtins(args.drop_last()) && calls_builtins(args.last())
    }
}

/// The opcode name a binary operator is lowered to.
pub open spec fn binary_name(op: BinaryOperator) -> Seq<char> {
    match op {
        BinaryOperator::Add => "add"@,
        BinaryOperator::Sub => "sub"@,
        BinaryOperator::Mul => "mul"@,
        BinaryOperator::Div => "div"@,
        BinaryOperator::Pow => "pow"@,
        BinaryOperator::Equal => "eq"@,
        BinaryOperator::NotEqual => "ne"@,
        BinaryOperator::Less => "lt"@,
        BinaryOperator::Greater => "gt"@,
        BinaryOperator::LessEq => "le"@,
        BinaryOperator::GreaterEq => "ge"@,
    }
}

/// The opcode name a unary operator is lowered to.
pub open spec fn unary_name(op: UnaryOperator) -> Seq<char> {
    match op {
        UnaryOperator::Neg => "neg"@,
        UnaryOperator::Not => "not"@,
    }
}

/// The node that stands for `e` once its nodes are laid out from position
/// `base`: the scope's binding for an identifier, else the last of its nodes.
pub open spec fn root_of<V>(e: Expression<V>, scope: Scope, base: int) -> NodeId {
    match e {
        Expression::Identifier(name) => scope.spec_lookup(name@)->Some_0,
        _ => NodeId((base + node_count(e) - 1) as usize),
    }
}

/// The nodes standing for each of `args`, laid out one after the other from
/// position `base`.
pub open spec fn args_roots<V>(args: Seq<Expression<V>>, scope: Scope, base: int) -> Seq<NodeId>
    decreases args,
{
    if args.len() == 0 {
        Seq::empty()
    } else {
        args_roots(args.drop_last(), scope, base).push(
            root_of(args.last(), scope, base + args_node_count(args.drop_last())),
        )
    }
}

/// The table holds the nodes of `e` from position `base` on, operands
/// before the node that uses them: a constant per literal, and per operator
/// or call one node of its name over the nodes standing for its operands.
pub open spec fn lays_out<V>(nodes: Seq<Node<V>>, base: int, e: Expression<V>, scope: Scope) -> bool
    decreases e,
{
    let top = base + node_count(e) - 1;
    match e {
        Expression::Number(v) => nodes[base].node_type == NodeType::Constant(v),
        Expression::Identifier(_) => true,
        Expression::BinaryOp { left, op, right } => {
            &&& lays_out(nodes, base, *left, scope)
            &&& lays_out(nodes, base + node_count(*left), *right, scope)
            &&& nodes[top].node_type is BinaryOp
            &&& nodes[top].node_type->BinaryOp_0@ == binary_name(op)
            &&& nodes[top].inputs@ == seq![
                root_of(*left, scope, base),
                root_of(*right, scope, base + node_count(*left)),
            ]
        },
        Expression::UnaryOp { op, expr } => {
            &&& lays_out(nodes, base, *expr, scope)
            &&& nodes[top].node_type is UnaryOp
            &&& nodes[top].node_type->UnaryOp_0@ == unary_name(op)
            &&& nodes[top].inputs@ == seq![root_of(*expr, scope, base)]
        },
        Expression::Call { name, args } => {
            &&& args_lay_out(nodes, base, args@, scope)
            &&& nodes[top].node_type == NodeType::<V>::FunctionCall(name)
            &&& nodes[top].inputs@ == args_roots(args@, scope, base)
        },
    }
}

/// The table holds the nodes of each of `args`, one after the other, from
/// position `base` on.
pub open spec fn args_lay_out<V>(nodes: Seq<Node<V>>, base: int, args: Seq<Expression<V>>, scope: Scope) -> bool
    decreases args,
{
    if args.len() == 0 {
        true
    } else {
        &&& args_lay_out(nodes, base, args.drop_last(), scope)
        &&& lays_out(nodes, base + args_node_count(args.drop_last()), args.last(), scope)
    }
}

/// `after` is `before` with the nodes of `e` laid out after it, and `root`
/// is the node that stands for `e`; when every call in `e` names a builtin,
/// none of the new nodes fails to evaluate.
pub open spec fn builds<V>(
    before: Seq<Node<V>>,
    after: Seq<Node<V>>,
    e: Expression<V>,
    scope: Scope,
    root: NodeId,
) -> bool {
    &&& after.len() == before.len() + node_count(e)
    &&& after.len() < usize::MAX
    &&& after.take(before.len() as int) == before
    &&& lays_out(after, before.len() as int, e, scope)
    &&& root == root_of(e, scope, before.len() as int)
    &&& (e is Identifier ==> scope.spec_lookup(e->Identifier_0@) is Some)
    &&& (calls_builtins(e) ==> forall|i: int|
        before.len() <= i < after.len() ==> (#[trigger] node_error(after[i])) is None)
}


/// Every node that `scope` binds lies in a table of `len` nodes.
pub open spec fn scope_within(scope: Scope, len: nat) -> bool {
    forall|name: Seq<char>| #[trigger] scope.spec_lookup(name) is Some ==> scope.spec_lookup(name)->Some_0.0 < len
}

proof fn lemma_binary_names(op: BinaryOperator)
    ensures
        binary_opcode(binary_name(op)) is Some,
{
    reveal_strlit("add");
    reveal_strlit("sub");
    reveal_strlit("mul");
    reveal_strlit("div");
    reveal_strlit("pow");
    reveal_strlit("eq");
    reveal_strlit("ne");
    reveal_strlit("lt");
    reveal_strlit("gt");
    reveal_strlit("le");
    reveal_strlit("ge");
}

proof fn lemma_unary_names(op: UnaryOperator)
    ensures
        unary_opcode(unary_name(op)) is Some,
{
    reveal_strlit("neg");
    reveal_strlit("not");
}

proof fn lemma_undefined_prefix<V>(args: Seq<Expression<V>>, k: int, scope: Scope)
    requires
        0 <= k <= args.len(),
        args_first_undefined(args.take(k), scope) is Some,
    ensures
        args_first_undefined(args, scope) == args_first_undefined(args.take(k), scope),
    decreases args.len(),
{
    if k < args.len() {
        assert(args.drop_last().take(k) == args.take(k));
        lemma_undefined_prefix(args.drop_last(), k, scope);
    } else {
        assert(args.take(k) == args);
    }
}

proof fn lemma_args_step<V>(args: Seq<Expression<V>>, k: int)
    requires
        0 <= k < args.len(),
    ensures
        args.take(k + 1).drop_last() == args.take(k),
        args.take(k + 1).last() == args[k],
        args_node_count(args.take(k + 1)) == args_node_count(args.take(k)) + node_count(args[k]),
{
    assert(args.take(k + 1).drop_last() == args.take(k));
}

proof fn lemma_args_each<V>(args: Seq<Expression<V>>, k: int, scope: Scope)
    requires
        0 <= k < args.len(),
    ensures
        args_first_undefined(args, scope) is None ==> first_undefined(args[k], scope) is None,
        args_call_builtins(args) ==> calls_builtins(args[k]),
        args_node_count(args.take(k + 1)) <= args_node_count(args),
    decreases args.len(),
{
    lemma_args_step(args, k);
    if k < args.len() - 1 {
        assert(args.drop_last()[k] == args[k]);
        assert(args.drop_last().take(k + 1) == args.take(k + 1));
        lemma_args_each(args.drop_last(), k, scope);
    } else {
        assert(args.take(k + 1) == args);
    }
}

proof fn lemma_extend<V>(a: Seq<Node<V>>, b: Seq<Node<V>>, c: Seq<Node<V>>)
    requires
        a.len() <= b.len() <= c.len(),
        b.take(a.len() as int) == a,
        c.take(b.len() as int) == b,
    ensures
        c.take(a.len() as int) == a,
        forall|i: int| 0 <= i < b.len() ==> #[trigger] c[i] == b[i],
{
    assert forall|i: int| 0 <= i < b.len() implies #[trigger] c[i] == b[i] by {
        assert(c.take(b.len() as int)[i] == c[i]);
    }
    assert(c.take(a.len() as int) =~= a) by {
        assert forall|i: int| 0 <= i < a.len() implies c.take(a.len() as int)[i] == a[i] by {
            assert(b.take(a.len() as int)[i] == b[i]);
        }
    }
}


proof fn lemma_lays_out_extends<V>(a: Seq<Node<V>>, b: Seq<Node<V>>, base: int, e: Expression<V>, scope: Scope)
    requires
        0 <= base,
        base + node_count(e) <= a.len() <= b.len(),
        forall|i: int| 0 <= i < a.len() ==> #[trigger] b[i] == a[i],
        lays_out(a, base, e, scope),
    ensures
        lays_out(b, base, e, scope),
    decreases e,
{
    match e {
        Expression::BinaryOp { left, op: _, right } => {
            lemma_lays_out_extends(a, b, base, *left, scope);
            lemma_lays_out_extends(a, b, base + node_count(*left), *right, scope);
            assert(b[base + node_count(e) - 1] == a[base + node_count(e) - 1]);
        },
        Expression::UnaryOp { op: _, expr } => {
            lemma_lays_out_extends(a, b, base, *expr, scope);
            assert(b[base + node_count(e) - 1] == a[base + node_count(e) - 1]);
        },
        Expression::Call { name: _, args } => {
            assert(decreases_to!(e => args));
            lemma_args_lay_out_extends(a, b, base, args@, scope);
            assert(b[base + node_count(e) - 1] == a[base + node_count(e) - 1]);
        },
        Expression::Number(_) => {
            assert(b[base] == a[base]);
        },
        Expression::Identifier(_) => {},
    }
}

proof fn lemma_args_lay_out_extends<V>(
    a: Seq<Node<V>>,
    b: Seq<Node<V>>,
    base: int,
    args: Seq<Expression<V>>,
    scope: Scope,
)
    requires
        0 <= base,
        base + args_node_count(args) <= a.len() <= b.len(),
        forall|i: int| 0 <= i < a.len() ==> #[trigger] b[i] == a[i],
        args_lay_out(a, base, args, scope),
    ensures
        args_lay_out(b, base, args, scope),
    decreases args,
{
    if args.len() > 0 {
        lemma_args_lay_out_extends(a, b, base, args.drop_last(), scope);
        lemma_lays_out_extends(a, b, base + args_node_count(args.drop_last()), args.last(), scope);
    }
}

/// Two tables hold the same nodes but for their values.
pub open spec fn same_structure<V>(a: Seq<Node<V>>, b: Seq<Node<V>>) -> bool {
    &&& a.len() == b.len()
    &&& forall|i: int|
        0 <= i < a.len() ==> {
            &&& (#[trigger] a[i]).id == b[i].id
            &&& a[i].node_type == b[i].node_type
            &&& a[i].inputs@ == b[i].inputs@
            &&& a[i].gradient == b[i].gradient
        }
}


fn same_text(a: &String, b: &str) -> (r: bool)
    ensures
        r == (a@ == b@),
{
    let t = b.to_owned();
    *a == t
}

fn decode_binary(op: &String) -> (r: Option<ScalarBinary>)
    ensures
        r == binary_opcode(op@),
{
    if same_text(op, "add") {
        Some(ScalarBinary::Add)
    } else if same_text(op, "sub") {
        Some(ScalarBinary::Sub)
    } else if same_text(op, "mul") {
        Some(ScalarBinary::Mul)
    } else if same_text(op, "div") {
        Some(ScalarBinary::Div)
    } else if same_text(op, "pow") {
        Some(ScalarBinary::Pow)
    } else if same_text(op, "eq") {
        Some(ScalarBinary::Eq)
    } else if same_text(op, "ne") {
        Some(ScalarBinary::Ne)
    } else if same_text(op, "lt") {
        Some(ScalarBinary::Lt)
    } else if same_text(op, "gt") {
        Some(ScalarBinary::Gt)
    } else if same_text(op, "le") {
        Some(ScalarBinary::Le)
    } else if same_text(op, "ge") {
        Some(ScalarBinary::Ge)
    } else {
        None
    }
}

fn decode_unary(op: &String) -> (r: Option<ScalarUnary>)
    ensures
        r == unary_opcode(op@),
{
    if same_text(op, "neg") {
        Some(ScalarUnary::Neg)
    } else if same_text(op, "not") {
        Some(ScalarUnary::Not)
    } else {
        None
    }
}

fn decode_builtin(name: &String, arity: usize) -> (r: Option<ScalarUnary>)
    ensures
        r == builtin(name@, arity as nat),
{
    if arity != 1 {
        None
    } else if same_text(name, "sigmoid") {
        Some(ScalarUnary::Sigmoid)
    } else if same_text(name, "relu") {
        Some(ScalarUnary::Relu)
    } else {
        None
    }
}

/// The nodes before position `i` all hold values.
pub open spec fn valued_before<V>(nodes: Seq<Node<V>>, i: int) -> bool {
    forall|j: int| 0 <= j < i ==> (#[trigger] nodes[j]).value is Some
}

/// The DAG: a node table indexed by id, the next id to issue, and the names
/// of the learnable parameters in declaration order.
#[derive(Debug, Clone)]
pub struct ComputationalGraph<V> {
    nodes: Vec<Node<V>>,
    next_id: usize,
    learnables: Vec<String>,
}

impl<V: Copy + Default> ComputationalGraph<V> {
    /// The node table, position `i` holding the node with id `i`.
    pub closed spec fn spec_nodes(&self) -> Seq<Node<V>> {
        self.nodes@
    }

    /// The registered learnable names, in declaration order.
    pub closed spec fn spec_learnables(&self) -> Seq<String> {
        self.learnables@
    }

    /// The graph's invariant: ids are positions, inputs precede their node,
    /// arities match the kinds, and the id counter is the node count.
    pub closed spec fn wf(&self) -> bool {
        &&& self.next_id == self.nodes@.len()
        &&& table_wf(self.nodes@)
    }

    pub fn new() -> (r: Self)
        ensures
            r.wf(),
            r.spec_nodes().len() == 0,
            r.spec_learnables().len() == 0,
    {
        ComputationalGraph { nodes: Vec::new(), next_id: 0, learnables: Vec::new() }
    }

    fn push_node(
        &mut self,
        node_type: NodeType<V>,
        inputs: Vec<NodeId>,
        value: Option<V>,
        gradient: Option<V>,
    ) -> (r: NodeId)
        requires
            old(self).wf(),
            old(self).spec_nodes().len() < usize::MAX,
            node_wf(
                Node { id: NodeId(old(self).spec_nodes().len() as usize), node_type, inputs, value, gradient },
                old(self).spec_nodes().len() as int,
            ),
        ensures
            final(self).wf(),
            r.0 == old(self).spec_nodes().len(),
            final(self).spec_nodes() == old(self).spec_nodes().push(
                Node { id: r, node_type, inputs, value, gradient },
            ),
            final(self).spec_learnables() == old(self).spec_learnables(),
    {
        let id = NodeId::new(self.next_id);
        self.next_id = self.next_id + 1;
        let node = Node { id, node_type, inputs, value, gradient };
        self.nodes.push(node);
        proof {
            assert forall|i: int| 0 <= i < self.nodes@.len() implies node_wf(
                #[trigger] self.nodes@[i],
                i,
            ) by {
                if i < old(self).nodes@.len() {
                    assert(self.nodes@[i] == old(self).nodes@[i]);
                }
            }
        }
        id
    }

    /// Appends a constant node valued `value`.
    pub fn add_constant(&mut self, value: V) -> (r: NodeId)
        requires
            old(self).wf(),
            old(self).spec_nodes().len() < usize::MAX,
        ensures
            final(self).wf(),
            r.0 == old(self).spec_nodes().len(),
            final(self).spec_nodes().drop_last() == old(self).spec_nodes(),
            final(self).spec_nodes().len() == old(self).spec_nodes().len() + 1,
            final(self).spec_nodes().last().id == r,
            final(self).spec_nodes().last().node_type == NodeType::Constant(value),
            final(self).spec_nodes().last().inputs@.len() == 0,
            final(self).spec_nodes().last().value == Some(value),
            final(self).spec_nodes().last().gradient is None,
            final(self).spec_learnables() == old(self).spec_learnables(),
    {
        self.push_node(NodeType::Constant(value), Vec::new(), Some(value), None)
    }

    /// Appends a learnable node valued `initial_value`, with a gradient slot
    /// holding `V::default()`, and registers its name.
    pub fn add_learnable(&mut self, name: String, initial_value: V) -> (r: NodeId)
        requires
            old(self).wf(),
            old(self).spec_nodes().len() < usize::MAX,
        ensures
            final(self).wf(),
            r.0 == old(self).spec_nodes().len(),
            final(self).spec_nodes().drop_last() == old(self).spec_nodes(),
            final(self).spec_nodes().len() == old(self).spec_nodes().len() + 1,
            final(self).spec_nodes().last().id == r,
            final(self).spec_nodes().last().node_type == NodeType::<V>::Learnable(name),
            final(self).spec_nodes().last().inputs@.len() == 0,
            final(self).spec_nodes().last().value == Some(initial_value),
            final(self).spec_nodes().last().gradient is Some,
            final(self).spec_learnables() == old(self).spec_learnables().push(name),
    {
        let zero = V::default();
        let r = self.push_node(NodeType::Learnable(name.clone()), Vec::new(), Some(initial_value), Some(zero));
        self.learnables.push(name);
        r
    }

    /// Appends a variable node aliasing `input`.
    pub fn add_variable(&mut self, name: String, input: NodeId) -> (r: NodeId)
        requires
            old(self).wf(),
            old(self).spec_nodes().len() < usize::MAX,
            input.0 < old(self).spec_nodes().len(),
        ensures
            final(self).wf(),
            r.0 == old(self).spec_nodes().len(),
            final(self).spec_nodes().drop_last() == old(self).spec_nodes(),
            final(self).spec_nodes().len() == old(self).spec_nodes().len() + 1,
            final(self).spec_nodes().last().id == r,
            final(self).spec_nodes().last().node_type == NodeType::<V>::Variable(name),
            final(self).spec_nodes().last().inputs@ == seq![input],
            final(self).spec_nodes().last().value is None,
            final(self).spec_nodes().last().gradient is None,
            final(self).spec_learnables() == old(self).spec_learnables(),
    {
        let inputs = vec![input];
        self.push_node(NodeType::Variable(name), inputs, None, None)
    }

    /// Appends a binary operation node over `left` and `right`.
    pub fn add_binary_op(&mut self, op: &str, left: NodeId, right: NodeId) -> (r: NodeId)
        requires
            old(self).wf(),
            old(self).spec_nodes().len() < usize::MAX,
            left.0 < old(self).spec_nodes().len(),
            right.0 < old(self).spec_nodes().len(),
        ensures
            final(self).wf(),
            r.0 == old(self).spec_nodes().len(),
            final(self).spec_nodes().drop_last() == old(self).spec_nodes(),
            final(self).spec_nodes().len() == old(self).spec_nodes().len() + 1,
            final(self).spec_nodes().last().id == r,
            final(self).spec_nodes().last().node_type is BinaryOp,
            final(self).spec_nodes().last().node_type->BinaryOp_0@ == op@,
            final(self).spec_nodes().last().inputs@ == seq![left, right],
            final(self).spec_nodes().last().value is None,
            final(self).spec_nodes().last().gradient is None,
            final(self).spec_learnables() == old(self).spec_learnables(),
    {
        let inputs = vec![left, right];
        self.push_node(NodeType::BinaryOp(op.to_owned()), inputs, None, None)
    }

    /// Appends a unary operation node over `operand`.
    pub fn add_unary_op(&mut self, op: &str, operand: NodeId) -> (r: NodeId)
        requires
            old(self).wf(),
            old(self).spec_nodes().len() < usize::MAX,
            operand.0 < old(self).spec_nodes().len(),
        ensures
            final(self).wf(),
            r.0 == old(self).spec_nodes().len(),
            final(self).spec_nodes().drop_last() == old(self).spec_nodes(),
            final(self).spec_nodes().len() == old(self).spec_nodes().len() + 1,
            final(self).spec_nodes().last().id == r,
            final(self).spec_nodes().last().node_type is UnaryOp,
            final(self).spec_nodes().last().node_type->UnaryOp_0@ == op@,
            final(self).spec_nodes().last().inputs@ == seq![operand],
            final(self).spec_nodes().last().value is None,
            final(self).spec_nodes().last().gradient is None,
            final(self).spec_learnables() == old(self).spec_learnables(),
    {
        let inputs = vec![operand];
        self.push_node(NodeType::UnaryOp(op.to_owned()), inputs, None, None)
    }

    /// Appends a call node of `name` over `args`, in argument order.
    pub fn add_function_call(&mut self, name: String, args: Vec<NodeId>) -> (r: NodeId)
        requires
            old(self).wf(),
            old(self).spec_nodes().len() < usize::MAX,
            forall|j: int| 0 <= j < args@.len() ==> (#[trigger] args@[j]).0 < old(self).spec_nodes().len(),
        ensures
            final(self).wf(),
            r.0 == old(self).spec_nodes().len(),
            final(self).spec_nodes().drop_last() == old(self).spec_nodes(),
            final(self).spec_nodes().len() == old(self).spec_nodes().len() + 1,
            final(self).spec_nodes().last().id == r,
            final(self).spec_nodes().last().node_type == NodeType::<V>::FunctionCall(name),
            final(self).spec_nodes().last().inputs@ == args@,
            final(self).spec_nodes().last().value is None,
            final(self).spec_nodes().last().gradient is None,
            final(self).spec_learnables() == old(self).spec_learnables(),
    {
        self.push_node(NodeType::FunctionCall(name), args, None, None)
    }

    /// The value of input `k` of node `i`, or `MissingOperand` where that
    /// input holds none.
    fn operand(&self, i: usize, k: usize) -> (r: Result<V, GraphError>)
        requires
            self.wf(),
            i < self.spec_nodes().len(),
            k < self.spec_nodes()[i as int].inputs@.len(),
        ensures
            match r {
                Ok(v) => self.spec_nodes()[self.spec_nodes()[i as int].inputs@[k as int].0 as int].value
                    == Some(v),
                Err(e) => e == GraphError::MissingOperand
                    && self.spec_nodes()[self.spec_nodes()[i as int].inputs@[k as int].0 as int].value is None,
            },
    {
        let j = self.nodes[i].inputs[k].0;
        assert(node_wf(self.nodes@[i as int], i as int));
        match self.nodes[j].value {
            Some(v) => Ok(v),
            None => Err(GraphError::MissingOperand),
        }
    }

    /// Computes the value of node `i` from its inputs' values.
    fn evaluate_node<U, B>(&self, i: usize, unary: &U, binary: &B) -> (r: Result<V, GraphError>) where
        U: Fn(ScalarUnary, V) -> V,
        B: Fn(ScalarBinary, V, V) -> V,

        requires
            self.wf(),
            i < self.spec_nodes().len(),
            valued_before(self.spec_nodes(), i as int),
            forall|k: ScalarUnary, a: V| call_requires(*unary, (k, a)),
            forall|k: ScalarBinary, a: V, b: V| call_requires(*binary, (k, a, b)),
        ensures
            match r {
                Ok(v) => node_error(self.spec_nodes()[i as int]) is None
                    && node_computes(self.spec_nodes(), i as int, v, *unary, *binary),
                Err(e) => node_error(self.spec_nodes()[i as int]) == Some(e),
            },
    {
        let ghost nodes = self.nodes@;
        assert(node_wf(nodes[i as int], i as int));
        let n = &self.nodes[i];
        match &n.node_type {
            NodeType::Constant(c) => Ok(*c),
            NodeType::Learnable(_) => match n.value {
                Some(v) => Ok(v),
                None => Err(GraphError::MissingOperand),
            },
            NodeType::Variable(_) => {
                assert(nodes[n.inputs@[0].0 as int].value is Some);
                self.operand(i, 0)
            },
            NodeType::BinaryOp(op) => {
                assert(nodes[n.inputs@[0].0 as int].value is Some);
                assert(nodes[n.inputs@[1].0 as int].value is Some);
                let a = self.operand(i, 0)?;
                let b = self.operand(i, 1)?;
                match decode_binary(op) {
                    Some(k) => Ok(binary(k, a, b)),
                    None => Err(GraphError::UnknownOperator(op.clone())),
                }
            },
            NodeType::UnaryOp(op) => {
                assert(nodes[n.inputs@[0].0 as int].value is Some);
                let a = self.operand(i, 0)?;
                match decode_unary(op) {
                    Some(k) => Ok(unary(k, a)),
                    None => Err(GraphError::UnknownOperator(op.clone())),
                }
            },
            NodeType::FunctionCall(name) => match decode_builtin(name, n.inputs.len()) {
                Some(k) => {
                    assert(nodes[n.inputs@[0].0 as int].value is Some);
                    let a = self.operand(i, 0)?;
                    Ok(unary(k, a))
                },
                None => Err(GraphError::UnknownFunction(name.clone())),
            },
        }
    }

    /// Runs the forward pass: visits the nodes in ascending id order and
    /// gives each the value its kind computes, with `unary` and `binary` as
    /// the scalar arithmetic. Stops at the first node whose operator or
    /// function is unknown; the nodes from there on are left as they were.
    pub fn forward_pass<U, B>(&mut self, unary: &U, binary: &B) -> (r: Result<(), GraphError>) where
        U: Fn(ScalarUnary, V) -> V,
        B: Fn(ScalarBinary, V, V) -> V,

        requires
            old(self).wf(),
            forall|k: ScalarUnary, a: V| call_requires(*unary, (k, a)),
            forall|k: ScalarBinary, a: V, b: V| call_requires(*binary, (k, a, b)),
        ensures
            final(self).wf(),
            same_structure(old(self).spec_nodes(), final(self).spec_nodes()),
            final(self).spec_learnables() == old(self).spec_learnables(),
            r is Ok <==> evaluable(old(self).spec_nodes()),
            r is Ok ==> forall|i: int|
                0 <= i < final(self).spec_nodes().len() ==> computed(
                    final(self).spec_nodes(),
                    i,
                    *unary,
                    *binary,
                ),
            r is Ok ==> forall|i: int|
                0 <= i < final(self).spec_nodes().len() && (#[trigger] old(self).spec_nodes()[i]).node_type is Learnable
                    ==> final(self).spec_nodes()[i].value == old(self).spec_nodes()[i].value,
            r is Err ==> exists|i: int|
                0 <= i < old(self).spec_nodes().len() && Some(r->Err_0) == #[trigger] node_error(
                    old(self).spec_nodes()[i],
                ) && final(self).spec_nodes()[i].value is None && (forall|j: int|
                    0 <= j < i ==> node_error(#[trigger] old(self).spec_nodes()[j]) is None)
                    && (forall|j: int|
                    i <= j < old(self).spec_nodes().len() ==> #[trigger] final(self).spec_nodes()[j]
                        == old(self).spec_nodes()[j]),
    {
        let ghost start = self.nodes@;
        let n = self.nodes.len();
        let mut i: usize = 0;
        while i < n
            invariant
                self.wf(),
                n == self.nodes@.len(),
                i <= n,
                same_structure(start, self.nodes@),
                self.learnables@ == old(self).learnables@,
                start == old(self).nodes@,
                forall|k: ScalarUnary, a: V| call_requires(*unary, (k, a)),
                forall|k: ScalarBinary, a: V, b: V| call_requires(*binary, (k, a, b)),
                forall|j: int| 0 <= j < i ==> node_error(#[trigger] start[j]) is None,
                forall|j: int| 0 <= j < i ==> computed(self.nodes@, j, *unary, *binary),
                forall|j: int|
                    0 <= j < i && (#[trigger] start[j]).node_type is Learnable ==> self.nodes@[j].value
                        == start[j].value,
                forall|j: int| i <= j < n ==> #[trigger] self.nodes@[j] == start[j],
            decreases n - i,
        {
            proof {
                assert forall|j: int| 0 <= j < i implies (#[trigger] self.nodes@[j]).value is Some by {
                    assert(computed(self.nodes@, j, *unary, *binary));
                }
            }
            let step = self.evaluate_node(i, unary, binary);
            match step {
                Ok(v) => {
                    let ghost before = self.nodes@;
                    self.nodes[i].value = Some(v);
                    proof {
                        assert(self.nodes@ == before.update(i as int, self.nodes@[i as int]));
                        assert(node_wf(before[i as int], i as int));
                        assert forall|j: int| 0 <= j < i + 1 implies computed(
                            self.nodes@,
                            j,
                            *unary,
                            *binary,
                        ) by {
                            assert(node_wf(before[j], j));
                            if j < i {
                                assert(computed(before, j, *unary, *binary));
                            }
                        }
                        assert forall|j: int| 0 <= j < self.nodes@.len() implies node_wf(
                            #[trigger] self.nodes@[j],
                            j,
                        ) by {
                            assert(node_wf(before[j], j));
                        }
                    }
                },
                Err(e) => {
                    assert(node_wf(self.nodes@[i as int], i as int));
                    return Err(e);
                },
            }
            i = i + 1;
        }
        Ok(())
    }

    /// The first identifier of `e`, left to right, that `scope` does not bind.
    fn find_undefined(e: &Expression<V>, scope: &Scope) -> (r: Option<String>)
        ensures
            r == first_undefined(*e, *scope),
        decreases e,
    {
        match e {
            Expression::Number(_) => None,
            Expression::Identifier(name) => match scope.lookup(name) {
                Some(_) => None,
                None => Some(name.clone()),
            },
            Expression::BinaryOp { left, op: _, right } => {
                let l = Self::find_undefined(left, scope);
                if l.is_some() {
                    l
                } else {
                    Self::find_undefined(right, scope)
                }
            },
            Expression::UnaryOp { op: _, expr } => Self::find_undefined(expr, scope),
            Expression::Call { name, args } => {
                let mut k: usize = 0;
                assert(args@.take(0) == Seq::<Expression<V>>::empty());
                while k < args.len()
                    invariant
                        *e == (Expression::Call { name: *name, args: *args }),
                        k <= args@.len(),
                        args_first_undefined(args@.take(k as int), *scope) is None,
                    decreases args@.len() - k,
                {
                    assert(decreases_to!(args => args@[k as int]));
                    let r = Self::find_undefined(&args[k], scope);
                    proof {
                        lemma_args_step(args@, k as int);
                    }
                    if r.is_some() {
                        proof {
                            assert(args_first_undefined(args@.take(k + 1), *scope) == r);
                            lemma_undefined_prefix(args@, k + 1, *scope);
                        }
                        return r;
                    }
                    k = k + 1;
                }
                assert(args@.take(k as int) == args@);
                None
            },
        }
    }

    /// Appends the nodes of `e`, operands before the node that uses them.
    fn lower(&mut self, e: &Expression<V>, scope: &Scope) -> (r: NodeId)
        requires
            old(self).wf(),
            first_undefined(*e, *scope) is None,
            scope_within(*scope, old(self).spec_nodes().len()),
            old(self).spec_nodes().len() + node_count(*e) < usize::MAX,
        ensures
            final(self).wf(),
            builds(old(self).spec_nodes(), final(self).spec_nodes(), *e, *scope, r),
            r.0 < final(self).spec_nodes().len(),
            final(self).spec_learnables() == old(self).spec_learnables(),
        decreases e,
    {
        let ghost before = self.nodes@;
        match e {
            Expression::Number(v) => {
                let r = self.add_constant(*v);
                assert(self.nodes@.take(before.len() as int) == before);
                assert(self.nodes@[before.len() as int] == self.nodes@.last());
                r
            },
            Expression::Identifier(name) => {
                assert(self.nodes@.take(before.len() as int) == before);
                scope.lookup(name).unwrap()
            },
            Expression::BinaryOp { left, op, right } => {
                let l = self.lower(left, scope);
                let ghost mid = self.nodes@;
                let rr = self.lower(right, scope);
                let ghost mid2 = self.nodes@;
                let name = match op {
                    BinaryOperator::Add => "add",
                    BinaryOperator::Sub => "sub",
                    BinaryOperator::Mul => "mul",
                    BinaryOperator::Div => "div",
                    BinaryOperator::Pow => "pow",
                    BinaryOperator::Equal => "eq",
                    BinaryOperator::NotEqual => "ne",
                    BinaryOperator::Less => "lt",
                    BinaryOperator::Greater => "gt",
                    BinaryOperator::LessEq => "le",
                    BinaryOperator::GreaterEq => "ge",
                };
                assert(name@ == binary_name(*op));
                let r = self.add_binary_op(name, l, rr);
                proof {
                    lemma_binary_names(*op);
                    assert(self.nodes@.take(mid2.len() as int) == mid2);
                    lemma_extend(before, mid, mid2);
                    lemma_extend(before, mid2, self.nodes@);
                    lemma_extend(mid, mid2, self.nodes@);
                    lemma_extend(before, mid, self.nodes@);
                    lemma_lays_out_extends(mid, self.nodes@, before.len() as int, **left, *scope);
                    lemma_lays_out_extends(mid2, self.nodes@, mid.len() as int, **right, *scope);
                    assert(self.nodes@[self.nodes@.len() - 1] == self.nodes@.last());
                }
                r
            },
            Expression::UnaryOp { op, expr } => {
                let a = self.lower(expr, scope);
                let ghost mid = self.nodes@;
                let name = match op {
                    UnaryOperator::Neg => "neg",
                    UnaryOperator::Not => "not",
                };
                assert(name@ == unary_name(*op));
                let r = self.add_unary_op(name, a);
                proof {
                    lemma_unary_names(*op);
                    assert(self.nodes@.take(mid.len() as int) == mid);
                    lemma_extend(before, mid, self.nodes@);
                    lemma_lays_out_extends(mid, self.nodes@, before.len() as int, **expr, *scope);
                    assert(self.nodes@[self.nodes@.len() - 1] == self.nodes@.last());
                }
                r
            },
            Expression::Call { name, args } => {
                let mut ids: Vec<NodeId> = Vec::new();
                let mut k: usize = 0;
                assert(args@.take(0) == Seq::<Expression<V>>::empty());
                assert(self.nodes@.take(before.len() as int) == before);
                while k < args.len()
                    invariant
                        *e == (Expression::Call { name: *name, args: *args }),
                        self.wf(),
                        k <= args@.len(),
                        ids@.len() == k,
                        forall|j: int| 0 <= j < k ==> (#[trigger] ids@[j]).0 < self.nodes@.len(),
                        self.nodes@.len() == before.len() + args_node_count(args@.take(k as int)),
                        self.nodes@.take(before.len() as int) == before,
                        self.learnables@ == old(self).learnables@,
                        before == old(self).nodes@,
                        args_lay_out(self.nodes@, before.len() as int, args@.take(k as int), *scope),
                        ids@ == args_roots(args@.take(k as int), *scope, before.len() as int),
                        args_first_undefined(args@, *scope) is None,
                        scope_within(*scope, before.len()),
                        before.len() + args_node_count(args@) + 1 < usize::MAX,
                        calls_builtins(*e) ==> forall|i: int|
                            before.len() <= i < self.nodes@.len() ==> (#[trigger] node_error(
                                self.nodes@[i],
                            )) is None,
                    decreases args@.len() - k,
                {
                    let ghost mid = self.nodes@;
                    proof {
                        lemma_args_step(args@, k as int);
                        lemma_args_each(args@, k as int, *scope);
                    }
                    assert(decreases_to!(args => args@[k as int]));
                    let id = self.lower(&args[k], scope);
                    ids.push(id);
                    proof {
                        lemma_extend(before, mid, self.nodes@);
                        lemma_args_lay_out_extends(
                            mid,
                            self.nodes@,
                            before.len() as int,
                            args@.take(k as int),
                            *scope,
                        );
                        if calls_builtins(*e) {
                            assert(args_call_builtins(args@));
                            assert forall|i: int|
                                before.len() <= i < self.nodes@.len() implies (#[trigger] node_error(
                                self.nodes@[i],
                            )) is None by {
                                if i < mid.len() {
                                    assert(self.nodes@[i] == mid[i]);
                                }
                            }
                        }
                    }
                    k = k + 1;
                }
                assert(args@.take(k as int) == args@);
                let ghost mid = self.nodes@;
                let r = self.add_function_call(name.clone(), ids);
                proof {
                    assert(self.nodes@.take(mid.len() as int) == mid);
                    lemma_extend(before, mid, self.nodes@);
                    lemma_args_lay_out_extends(mid, self.nodes@, before.len() as int, args@, *scope);
                    assert(self.nodes@[self.nodes@.len() - 1] == self.nodes@.last());
                }
                r
            },
        }
    }

    /// Lowers `expr` into the graph: literals become constants, identifiers
    /// are looked up in `variables`, operators and calls append one node
    /// after the nodes of their operands, left to right. When an identifier
    /// is unbound, fails with `UndefinedVariable` naming the first one and
    /// leaves the graph as it was. Nothing is shared between two builds.
    pub fn build_from_expression(&mut self, expr: &Expression<V>, variables: &Scope) -> (r: Result<
        NodeId,
        GraphError,
    >)
        requires
            old(self).wf(),
            scope_within(*variables, old(self).spec_nodes().len()),
            old(self).spec_nodes().len() + node_count(*expr) < usize::MAX,
        ensures
            final(self).wf(),
            final(self).spec_learnables() == old(self).spec_learnables(),
            match first_undefined(*expr, *variables) {
                None => r is Ok && builds(
                    old(self).spec_nodes(),
                    final(self).spec_nodes(),
                    *expr,
                    *variables,
                    r->Ok_0,
                ) && r->Ok_0.0 < final(self).spec_nodes().len(),
                Some(name) => r == Err::<NodeId, GraphError>(GraphError::UndefinedVariable(name))
                    && final(self).spec_nodes() == old(self).spec_nodes(),
            },
    {
        match Self::find_undefined(expr, variables) {
            Some(name) => Err(GraphError::UndefinedVariable(name)),
            None => Ok(self.lower(expr, variables)),
        }
    }

    /// The node with id `id`, if the graph has one.
    pub fn get_node(&self, id: NodeId) -> (r: Option<&Node<V>>)
        requires
            self.wf(),
        ensures
            r is Some <==> id.0 < self.spec_nodes().len(),
            r is Some ==> *r->Some_0 == self.spec_nodes()[id.0 as int],
    {
        if id.0 < self.nodes.len() {
            Some(&self.nodes[id.0])
        } else {
            None
        }
    }

    /// All nodes, in ascending id order.
    pub fn nodes(&self) -> (r: &[Node<V>])
        ensures
            r@ == self.spec_nodes(),
    {
        self.nodes.as_slice()
    }

    /// The names of the learnables, in declaration order, duplicates kept.
    pub fn learnables(&self) -> (r: &[String])
        ensures
            r@ == self.spec_learnables(),
    {
        self.learnables.as_slice()
    }

    /// Sets the value of learnable `id`, the one value that changes from
    /// outside the forward pass. Returns false, changing nothing, where `id`
    /// is not a learnable of this graph.
    pub fn set_learnable_value(&mut self, id: NodeId, value: V) -> (r: bool)
        requires
            old(self).wf(),
        ensures
            final(self).wf(),
            final(self).spec_learnables() == old(self).spec_learnables(),
            same_structure(old(self).spec_nodes(), final(self).spec_nodes()),
            r == (id.0 < old(self).spec_nodes().len() && old(self).spec_nodes()[id.0 as int].node_type is Learnable),
            r ==> final(self).spec_nodes() == old(self).spec_nodes().update(
                id.0 as int,
                (Node { value: Some(value), ..old(self).spec_nodes()[id.0 as int] }),
            ),
            !r ==> final(self).spec_nodes() == old(self).spec_nodes(),
    {
        if id.0 < self.nodes.len() {
            let learnable = match &self.nodes[id.0].node_type {
                NodeType::Learnable(_) => true,
                _ => false,
            };
            if learnable {
                let ghost before = self.nodes@;
                self.nodes[id.0].value = Some(value);
                proof {
                    assert forall|j: int| 0 <= j < self.nodes@.len() implies node_wf(
                        #[trigger] self.nodes@[j],
                        j,
                    ) by {
                        assert(node_wf(before[j], j));
                    }
                    assert(self.nodes@ == before.update(
                        id.0 as int,
                        (Node { value: Some(value), ..before[id.0 as int] }),
                    ));
                }
                return true;
            }
        }
        false
    }
}

/// The unary kernel gives one result for given arguments.
pub open spec fn unary_deterministic<V, U: Fn(ScalarUnary, V) -> V>(f: U) -> bool {
    forall|k: ScalarUnary, a: V, r1: V, r2: V|
        call_ensures(f, (k, a), r1) && call_ensures(f, (k, a), r2) ==> r1 == r2
}

/// The binary kernel gives one result for given arguments.
pub open spec fn binary_deterministic<V, B: Fn(ScalarBinary, V, V) -> V>(f: B) -> bool {
    forall|k: ScalarBinary, a: V, b: V, r1: V, r2: V|
        call_ensures(f, (k, a, b), r1) && call_ensures(f, (k, a, b), r2) ==> r1 == r2
}

impl<V: Copy + Default> ComputationalGraph<V> {
    /// Ids follow creation order: the node at position `i` of the table has
    /// id `i`, so the k-th node created has id k - 1.
    pub proof fn lemma_ids_follow_creation_order(&self)
        requires
            self.wf(),
        ensures
            forall|i: int| 0 <= i < self.spec_nodes().len() ==> (#[trigger] self.spec_nodes()[i]).id.0 == i,
    {
        assert forall|i: int| 0 <= i < self.spec_nodes().len() implies (#[trigger] self.spec_nodes()[i]).id.0
            == i by {
            assert(node_wf(self.nodes@[i], i));
        }
    }

    /// Every input of a node has a smaller id than the node itself, so the
    /// graph has no cycle.
    pub proof fn lemma_inputs_precede(&self)
        requires
            self.wf(),
        ensures
            forall|i: int, j: int|
                0 <= i < self.spec_nodes().len() && 0 <= j < self.spec_nodes()[i].inputs@.len()
                    ==> (#[trigger] self.spec_nodes()[i].inputs@[j]).0 < self.spec_nodes()[i].id.0,
    {
        assert forall|i: int, j: int|
            0 <= i < self.spec_nodes().len() && 0 <= j < self.spec_nodes()[i].inputs@.len() implies (
            #[trigger] self.spec_nodes()[i].inputs@[j]).0 < self.spec_nodes()[i].id.0 by {
            assert(node_wf(self.nodes@[i], i));
        }
    }
}

impl<V: Copy + Default> Default for ComputationalGraph<V> {
    fn default() -> (r: Self)
        ensures
            r.wf(),
            r.spec_nodes().len() == 0,
            r.spec_learnables().len() == 0,
    {
        Self::new()
    }
}

/// Building an expression whose identifiers are all bound and whose calls all
/// name builtins keeps an evaluable graph evaluable: the forward pass that
/// follows succeeds and gives every node a value.
pub proof fn lemma_build_then_evaluate<V>(
    before: Seq<Node<V>>,
    after: Seq<Node<V>>,
    e: Expression<V>,
    scope: Scope,
    root: NodeId,
)
    requires
        evaluable(before),
        calls_builtins(e),
        builds(before, after, e, scope, root),
    ensures
        evaluable(after),
{
    assert forall|i: int| 0 <= i < after.len() implies (#[trigger] node_error(after[i])) is None by {
        if i < before.len() {
            assert(after.take(before.len() as int)[i] == after[i]);
        }
    }
}

proof fn lemma_same_value_at<V, U, B>(
    first: Seq<Node<V>>,
    second: Seq<Node<V>>,
    unary: U,
    binary: B,
    i: int,
)
    where
        U: Fn(ScalarUnary, V) -> V,
        B: Fn(ScalarBinary, V, V) -> V,

    requires
        table_wf(first),
        same_structure(first, second),
        forall|j: int| 0 <= j < first.len() ==> computed(first, j, unary, binary),
        forall|j: int| 0 <= j < second.len() ==> computed(second, j, unary, binary),
        forall|j: int|
            0 <= j < first.len() && (#[trigger] first[j]).node_type is Learnable ==> second[j].value
                == first[j].value,
        unary_deterministic(unary),
        binary_deterministic(binary),
        0 <= i < first.len(),
    ensures
        second[i].value == first[i].value,
    decreases i,
{
    let n = first[i];
    assert(node_wf(n, i));
    assert(computed(first, i, unary, binary));
    assert(computed(second, i, unary, binary));
    assert(second[i].inputs@ == n.inputs@);
    if n.inputs@.len() > 0 {
        lemma_same_value_at(first, second, unary, binary, n.inputs@[0].0 as int);
    }
    if n.inputs@.len() > 1 {
        lemma_same_value_at(first, second, unary, binary, n.inputs@[1].0 as int);
    }
}

/// With deterministic kernels the forward pass is idempotent: run again on a
/// graph it has evaluated (`first`), it gives every node the value it had.
/// The requirements are what the two passes ensure.
pub proof fn lemma_forward_pass_idempotent<V: Copy + Default, U, B>(
    first: ComputationalGraph<V>,
    second: ComputationalGraph<V>,
    unary: U,
    binary: B,
)
    where
        U: Fn(ScalarUnary, V) -> V,
        B: Fn(ScalarBinary, V, V) -> V,

    requires
        first.wf(),
        same_structure(first.spec_nodes(), second.spec_nodes()),
        forall|j: int| 0 <= j < first.spec_nodes().len() ==> computed(first.spec_nodes(), j, unary, binary),
        forall|j: int|
            0 <= j < second.spec_nodes().len() ==> computed(second.spec_nodes(), j, unary, binary),
        forall|j: int|
            0 <= j < first.spec_nodes().len() && (#[trigger] first.spec_nodes()[j]).node_type is Learnable
                ==> second.spec_nodes()[j].value == first.spec_nodes()[j].value,
        unary_deterministic(unary),
        binary_deterministic(binary),
    ensures
        forall|j: int|
            0 <= j < first.spec_nodes().len() ==> (#[trigger] second.spec_nodes()[j]).value
                == first.spec_nodes()[j].value,
{
    let a = first.spec_nodes();
    let b = second.spec_nodes();
    assert forall|j: int| 0 <= j < a.len() implies (#[trigger] b[j]).value == a[j].value by {
        lemma_same_value_at(a, b, unary, binary, j);
    }
}

/// Building the same expression twice creates two disjoint runs of nodes:
/// each build appends its own `node_count(e)` nodes, and each root lies in
/// its own run, unless the expression is a bare identifier (a lookup that
/// creates nothing).
pub proof fn lemma_builds_share_nothing<V>(
    g0: Seq<Node<V>>,
    g1: Seq<Node<V>>,
    g2: Seq<Node<V>>,
    e: Expression<V>,
    scope: Scope,
    r1: NodeId,
    r2: NodeId,
)
    requires
        builds(g0, g1, e, scope, r1),
        builds(g1, g2, e, scope, r2),
        !(e is Identifier),
    ensures
        node_count(e) > 0,
        g1.len() == g0.len() + node_count(e),
        g2.len() == g1.len() + node_count(e),
        g0.len() <= r1.0 < g1.len() <= r2.0 < g2.len(),
        r1 != r2,
{
}

} // verus!
