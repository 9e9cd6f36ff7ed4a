use vstd::prelude::*;

verus! {

/// A statement with the source line it stands on.
#[derive(Debug, PartialEq)]
pub struct Node {
    pub line: usize,
    pub stmt: Stmt,
}

/// The binary operators. `Gt` is the operator written `<` and `Lt` the one
/// written `>`, `Ge` is `<=` and `Le` is `>=`: the names follow the opcodes
/// that carry them out.
#[derive(Debug, Clone, Copy, PartialEq, Eq, Structural)]
pub enum BinOp {
    Eq,
    Neq,
    Lt,
    Gt,
    Le,
    Ge,
    Assign,
    Add,
    Sub,
    Mul,
    Div,
    Mod,
    And,
    Or,
}

/// The unary operators.
#[derive(Debug, Clone, Copy, PartialEq, Eq, Structural)]
pub enum UnOp {
    Neg,
    Not,
}

/// One entry of a table literal.
#[derive(Debug, PartialEq)]
pub struct Pair {
    pub key: Expr,
    pub value: Expr,
}

/// An expression.
#[derive(Debug, PartialEq)]
pub enum Expr {
    String(String),
    /// A number literal: an IEEE-754 double, as its bits.
    Number(u64),
    Name(String),
    /// A function literal: its parameters and its body.
    AnonFn(Vec<String>, Box<Node>),
    Index(Box<Expr>, Box<Expr>),
    Bool(bool),
    Array(Vec<Expr>),
    Table(Vec<Pair>),
    Nil,
    Call(Box<Expr>, Vec<Expr>),
    Binary(Box<Expr>, BinOp, Box<Expr>),
    Unary(UnOp, Box<Expr>),
}

/// A statement.
#[derive(Debug, PartialEq)]
pub enum Stmt {
    Let(String, Expr),
    /// A condition, the block that runs where it holds and, if there is
    /// one, the block that runs where it does not.
    If(Expr, Box<Node>, Option<Box<Node>>),
    /// What runs before the loop (a `Let` or an `Expr` statement), the
    /// condition, what runs after each round, and the body.
    For(Box<Node>, Expr, Expr, Box<Node>),
    /// A named function: its name, its parameters and its body.
    Fn(String, Vec<String>, Box<Node>),
    Return(Expr),
    While(Expr, Box<Node>),
    Block(Vec<Node>),
    Expr(Expr),
}

impl BinOp {
    /// How tightly an operator binds: the larger number binds tighter.
    pub open spec fn rank(self) -> u8 {
        match self {
            BinOp::Mul | BinOp::Div | BinOp::Mod => 7,
            BinOp::Add | BinOp::Sub => 6,
            BinOp::Gt | BinOp::Ge | BinOp::Lt | BinOp::Le => 5,
            BinOp::Eq | BinOp::Neq => 4,
            BinOp::And => 3,
            BinOp::Or => 2,
            BinOp::Assign => 1,
        }
    }

    /// Gives how tightly an operator binds: `* / %` before `+ -`, then the
    /// order operators, then `== !=`, then `&&`, then `||`, and `=` last.
    pub fn priority(&self) -> (p: u8)
        ensures
            p == self.rank(),
            1 <= p <= 7,
    {
        match self {
            BinOp::Mul | BinOp::Div | BinOp::Mod => 7,
            BinOp::Add | BinOp::Sub => 6,
            BinOp::Gt | BinOp::Ge | BinOp::Lt | BinOp::Le => 5,
            BinOp::Eq | BinOp::Neq => 4,
            BinOp::And => 3,
            BinOp::Or => 2,
            BinOp::Assign => 1,
        }
    }
}

/// What a [`Node`] is, with text and lists as sequences.
pub ghost struct NodeM {
    pub line: usize,
    pub stmt: StmtM,
}

/// What a [`Pair`] is.
pub ghost struct PairM {
    pub key: ExprM,
    pub value: ExprM,
}

/// What an [`Expr`] is.
pub ghost enum ExprM {
    String(Seq<char>),
    Number(u64),
    Name(Seq<char>),
    AnonFn(Seq<Seq<char>>, Box<NodeM>),
    Index(Box<ExprM>, Box<ExprM>),
    Bool(bool),
    Array(Seq<ExprM>),
    Table(Seq<PairM>),
    Nil,
    Call(Box<ExprM>, Seq<ExprM>),
    Binary(Box<ExprM>, BinOp, Box<ExprM>),
    Unary(UnOp, Box<ExprM>),
}

/// What a [`Stmt`] is.
pub ghost enum StmtM {
    Let(Seq<char>, ExprM),
    If(ExprM, Box<NodeM>, Option<Box<NodeM>>),
    For(Box<NodeM>, ExprM, ExprM, Box<NodeM>),
    Fn(Seq<char>, Seq<Seq<char>>, Box<NodeM>),
    Return(ExprM),
    While(ExprM, Box<NodeM>),
    Block(Seq<NodeM>),
    Expr(ExprM),
}

/// The texts of the first `n` of a sequence of names.
pub open spec fn texts(s: Seq<String>, n: int) -> Seq<Seq<char>>
    decreases n,
{
    if n <= 0 || n > s.len() {
        Seq::empty()
    } else {
        texts(s, n - 1).push(s[n - 1]@)
    }
}

/// What an expression is.
pub open spec fn expr_view(e: Expr) -> ExprM
    decreases e, 0nat,
{
    match e {
        Expr::String(s) => ExprM::String(s@),
        Expr::Number(n) => ExprM::Number(n),
        Expr::Name(s) => ExprM::Name(s@),
        Expr::AnonFn(params, body) => ExprM::AnonFn(texts(params@, params@.len() as int), Box::new(node_view(*body))),
        Expr::Index(obj, idx) => ExprM::Index(Box::new(expr_view(*obj)), Box::new(expr_view(*idx))),
        Expr::Bool(b) => ExprM::Bool(b),
        Expr::Array(items) => ExprM::Array(exprs_view(items@, items@.len() as int)),
        Expr::Table(pairs) => ExprM::Table(pairs_view(pairs@, pairs@.len() as int)),
        Expr::Nil => ExprM::Nil,
        Expr::Call(func, args) => ExprM::Call(Box::new(expr_view(*func)), exprs_view(args@, args@.len() as int)),
        Expr::Binary(lhs, op, rhs) => ExprM::Binary(Box::new(expr_view(*lhs)), op, Box::new(expr_view(*rhs))),
        Expr::Unary(op, operand) => ExprM::Unary(op, Box::new(expr_view(*operand))),
    }
}

/// What the first `n` of a sequence of expressions are.
pub open spec fn exprs_view(s: Seq<Expr>, n: int) -> Seq<ExprM>
    decreases s, n,
{
    if n <= 0 || n > s.len() {
        Seq::empty()
    } else {
        exprs_view(s, n - 1).push(expr_view(s[n - 1]))
    }
}

/// What the first `n` of a sequence of table entries are.
pub open spec fn pairs_view(s: Seq<Pair>, n: int) -> Seq<PairM>
    decreases s, n,
{
    if n <= 0 || n > s.len() {
        Seq::empty()
    } else {
        pairs_view(s, n - 1).push(PairM { key: expr_view(s[n - 1].key), value: expr_view(s[n - 1].value) })
    }
}

/// What a statement node is.
pub open spec fn node_view(n: Node) -> NodeM
    decreases n, 1nat,
{
    NodeM { line: n.line, stmt: stmt_view(n.stmt) }
}

/// What the first `n` of a sequence of statement nodes are.
pub open spec fn nodes_view(s: Seq<Node>, n: int) -> Seq<NodeM>
    decreases s, n,
{
    if n <= 0 || n > s.len() {
        Seq::empty()
    } else {
        nodes_view(s, n - 1).push(node_view(s[n - 1]))
    }
}

/// What a statement is.
pub open spec fn stmt_view(s: Stmt) -> StmtM
    decreases s, 0nat,
{
    match s {
        Stmt::Let(name, value) => StmtM::Let(name@, expr_view(value)),
        Stmt::If(cond, then, other) => StmtM::If(
            expr_view(cond),
            Box::new(node_view(*then)),
            match other {
                Some(b) => Some(Box::new(node_view(*b))),
                None => None,
            },
        ),
        Stmt::For(init, cond, post, body) => StmtM::For(
            Box::new(node_view(*init)),
            expr_view(cond),
            expr_view(post),
            Box::new(node_view(*body)),
        ),
        Stmt::Fn(name, params, body) => StmtM::Fn(
            name@,
            texts(params@, params@.len() as int),
            Box::new(node_view(*body)),
        ),
        Stmt::Return(val) => StmtM::Return(expr_view(val)),
        Stmt::While(cond, body) => StmtM::While(expr_view(cond), Box::new(node_view(*body))),
        Stmt::Block(nodes) => StmtM::Block(nodes_view(nodes@, nodes@.len() as int)),
        Stmt::Expr(e) => StmtM::Expr(expr_view(e)),
    }
}

impl View for Expr {
    type V = ExprM;

    open spec fn view(&self) -> ExprM {
        expr_view(*self)
    }
}

impl View for Pair {
    type V = PairM;

    open spec fn view(&self) -> PairM {
        PairM { key: expr_view(self.key), value: expr_view(self.value) }
    }
}

impl View for Stmt {
    type V = StmtM;

    open spec fn view(&self) -> StmtM {
        stmt_view(*self)
    }
}

impl View for Node {
    type V = NodeM;

    open spec fn view(&self) -> NodeM {
        node_view(*self)
    }
}

/// What a sequence of expressions is does not depend on what follows it.
pub proof fn lemma_exprs_prefix(s: Seq<Expr>, x: Expr, n: int)
    requires
        0 <= n <= s.len(),
    ensures
        exprs_view(s.push(x), n) == exprs_view(s, n),
    decreases n,
{
    if n > 0 {
        lemma_exprs_prefix(s, x, n - 1);
        assert(s.push(x)[n - 1] == s[n - 1]);
    }
}

/// What a sequence of expressions is with one more behind it is what the sequence is, with what the
/// one more is behind it.
pub proof fn lemma_exprs_push(s: Seq<Expr>, x: Expr)
    ensures
        exprs_view(s.push(x), s.len() as int + 1) == exprs_view(s, s.len() as int).push(expr_view(x)),
{
    lemma_exprs_prefix(s, x, s.len() as int);
    assert(s.push(x)[s.len() as int] == x);
}

/// What a sequence of table entries is does not depend on what follows it.
pub proof fn lemma_pairs_prefix(s: Seq<Pair>, x: Pair, n: int)
    requires
        0 <= n <= s.len(),
    ensures
        pairs_view(s.push(x), n) == pairs_view(s, n),
    decreases n,
{
    if n > 0 {
        lemma_pairs_prefix(s, x, n - 1);
        assert(s.push(x)[n - 1] == s[n - 1]);
    }
}

/// What a sequence of table entries is with one more behind it is what the sequence is, with what the
/// one more is behind it.
pub proof fn lemma_pairs_push(s: Seq<Pair>, x: Pair)
    ensures
        pairs_view(s.push(x), s.len() as int + 1) == pairs_view(s, s.len() as int).push(x@),
{
    lemma_pairs_prefix(s, x, s.len() as int);
    assert(s.push(x)[s.len() as int] == x);
}

/// What a sequence of statement nodes is does not depend on what follows it.
pub proof fn lemma_nodes_prefix(s: Seq<Node>, x: Node, n: int)
    requires
        0 <= n <= s.len(),
    ensures
        nodes_view(s.push(x), n) == nodes_view(s, n),
    decreases n,
{
    if n > 0 {
        lemma_nodes_prefix(s, x, n - 1);
        assert(s.push(x)[n - 1] == s[n - 1]);
    }
}

/// What a sequence of statement nodes is with one more behind it is what the sequence is, with what the
/// one more is behind it.
pub proof fn lemma_nodes_push(s: Seq<Node>, x: Node)
    ensures
        nodes_view(s.push(x), s.len() as int + 1) == nodes_view(s, s.len() as int).push(node_view(x)),
{
    lemma_nodes_prefix(s, x, s.len() as int);
    assert(s.push(x)[s.len() as int] == x);
}

/// What the texts of a sequence of names are does not depend on what follows it.
pub proof fn lemma_texts_prefix(s: Seq<String>, x: String, n: int)
    requires
        0 <= n <= s.len(),
    ensures
        texts(s.push(x), n) == texts(s, n),
    decreases n,
{
    if n > 0 {
        lemma_texts_prefix(s, x, n - 1);
        assert(s.push(x)[n - 1] == s[n - 1]);
    }
}

/// What the texts of a sequence of names are with one more behind it is what the sequence is, with what the
/// one more is behind it.
pub proof fn lemma_texts_push(s: Seq<String>, x: String)
    ensures
        texts(s.push(x), s.len() as int + 1) == texts(s, s.len() as int).push(x@),
{
    lemma_texts_prefix(s, x, s.len() as int);
    assert(s.push(x)[s.len() as int] == x);
}

/// What the first of a sequence of expressions are: as many as asked for, each what the one at its place is.
pub proof fn lemma_exprs_index(s: Seq<Expr>, n: int)
    requires
        0 <= n <= s.len(),
    ensures
        exprs_view(s, n).len() == n,
        forall|i: int| 0 <= i < n ==> #[trigger] exprs_view(s, n)[i] == expr_view(s[i]),
    decreases n,
{
    if n > 0 {
        lemma_exprs_index(s, n - 1);
    }
}

/// What the first of a sequence of table entries are: as many as asked for, each what the one at its place is.
pub proof fn lemma_pairs_index(s: Seq<Pair>, n: int)
    requires
        0 <= n <= s.len(),
    ensures
        pairs_view(s, n).len() == n,
        forall|i: int| 0 <= i < n ==> #[trigger] pairs_view(s, n)[i] == s[i]@,
    decreases n,
{
    if n > 0 {
        lemma_pairs_index(s, n - 1);
    }
}

/// What the first of a sequence of statement nodes are: as many as asked for, each what the one at its place is.
pub proof fn lemma_nodes_index(s: Seq<Node>, n: int)
    requires
        0 <= n <= s.len(),
    ensures
        nodes_view(s, n).len() == n,
        forall|i: int| 0 <= i < n ==> #[trigger] nodes_view(s, n)[i] == node_view(s[i]),
    decreases n,
{
    if n > 0 {
        lemma_nodes_index(s, n - 1);
    }
}

/// What the texts of the first of a sequence of names are: as many as asked for, each what the one at its place is.
pub proof fn lemma_texts_index(s: Seq<String>, n: int)
    requires
        0 <= n <= s.len(),
    ensures
        texts(s, n).len() == n,
        forall|i: int| 0 <= i < n ==> #[trigger] texts(s, n)[i] == s[i]@,
    decreases n,
{
    if n > 0 {
        lemma_texts_index(s, n - 1);
    }
}

} // verus!
