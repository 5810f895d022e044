use vstd::prelude::*;
use std::rc::Rc;

verus! {

/// A user-defined callable: formal parameter names plus a body block.
#[derive(Debug)]
pub struct FnDef {
    pub params: Vec<String>,
    pub body: Block,
}

/// An expression node: anything that can be evaluated to a value.
#[derive(Debug)]
pub enum Expr {
    Literal(String),
    Name(String),
    Builtin(String),
    Function(Rc<FnDef>),
    Call(Box<Expr>, Vec<Expr>),
}

/// A statement node: executed against an environment for effect only.
#[derive(Debug)]
pub enum Stmt {
    Definition(Definition),
    Block(Block),
}

/// A nested scope: a sequence of statements run in a fresh frame.
#[derive(Debug)]
pub struct Block {
    pub stmts: Vec<Stmt>,
}

/// Binds a freshly evaluated value to a new name in the topmost frame.
#[derive(Debug)]
pub struct Definition {
    pub name: String,
    pub value: Box<Expr>,
}

/// Mathematical model of an expression: text is a sequence of characters.
#[verifier::ext_equal]
pub enum ExprV {
    Literal(Seq<char>),
    Name(Seq<char>),
    Builtin(Seq<char>),
    Function(Seq<Seq<char>>, BlockV),
    Call(Box<ExprV>, Seq<ExprV>),
}

#[verifier::ext_equal]
pub enum StmtV {
    Definition(DefinitionV),
    Block(BlockV),
}

/// Mathematical model of a definition.
#[verifier::ext_equal]
pub struct DefinitionV {
    pub name: Seq<char>,
    pub value: ExprV,
}

#[verifier::ext_equal]
pub struct BlockV {
    pub stmts: Seq<StmtV>,
}

/// The views of a sequence of parameter names.
pub open spec fn view_names(s: Seq<String>) -> Seq<Seq<char>> {
    Seq::new(s.len(), |i: int| s[i]@)
}

pub open spec fn view_expr(e: Expr) -> ExprV
    decreases e,
{
    match e {
        Expr::Literal(s) => ExprV::Literal(s@),
        Expr::Name(s) => ExprV::Name(s@),
        Expr::Builtin(s) => ExprV::Builtin(s@),
        Expr::Function(d) => ExprV::Function(view_names(d.params@), view_block(d.body)),
        Expr::Call(f, args) => ExprV::Call(Box::new(view_expr(*f)), view_exprs(args@)),
    }
}

pub open spec fn view_exprs(s: Seq<Expr>) -> Seq<ExprV>
    decreases s,
{
    if s.len() == 0 {
        Seq::empty()
    } else {
        view_exprs(s.drop_last()).push(view_expr(s.last()))
    }
}

pub open spec fn view_stmt(s: Stmt) -> StmtV
    decreases s,
{
    match s {
        Stmt::Definition(d) => StmtV::Definition(view_def(d)),
        Stmt::Block(b) => StmtV::Block(view_block(b)),
    }
}

pub open spec fn view_def(d: Definition) -> DefinitionV
    decreases d,
{
    DefinitionV { name: d.name@, value: view_expr(*d.value) }
}

pub open spec fn view_block(b: Block) -> BlockV
    decreases b,
{
    BlockV { stmts: view_stmts(b.stmts@) }
}

pub open spec fn view_stmts(s: Seq<Stmt>) -> Seq<StmtV>
    decreases s,
{
    if s.len() == 0 {
        Seq::empty()
    } else {
        view_stmts(s.drop_last()).push(view_stmt(s.last()))
    }
}

impl View for Expr {
    type V = ExprV;

    open spec fn view(&self) -> ExprV {
        view_expr(*self)
    }
}

impl View for Stmt {
    type V = StmtV;

    open spec fn view(&self) -> StmtV {
        view_stmt(*self)
    }
}

impl View for Definition {
    type V = DefinitionV;

    open spec fn view(&self) -> DefinitionV {
        view_def(*self)
    }
}

impl View for Block {
    type V = BlockV;

    open spec fn view(&self) -> BlockV {
        view_block(*self)
    }
}

impl Block {
    /// Wrap statements into a nested-scope block.
    pub fn new(statements: Vec<Stmt>) -> (r: Block)
        ensures
            r@ == (BlockV { stmts: view_stmts(statements@) }),
    {
        Block { stmts: statements }
    }
}

impl Definition {
    /// Wrap a name and an initializer into a top-level definition.
    pub fn new(name: String, value: Expr) -> (r: Definition)
        ensures
            r@ == (DefinitionV { name: name@, value: value@ }),
    {
        Definition { name, value: Box::new(value) }
    }
}

impl FnDef {
    /// Wrap a parameter list and a body block into a user-defined function
    /// value, ready to be bound or called.
    pub fn new(params: Vec<String>, body: Block) -> (r: Expr)
        ensures
            r@ == ExprV::Function(view_names(params@), body@),
    {
        Expr::Function(Rc::new(FnDef { params, body }))
    }
}

/// Pointwise reading of `view_exprs`.
pub proof fn lemma_view_exprs(s: Seq<Expr>)
    ensures
        (#[trigger] view_exprs(s)).len() == s.len(),
        forall|i: int| 0 <= i < s.len() ==> view_exprs(s)[i] == view_expr(s[i]),
    decreases s,
{
    if s.len() > 0 {
        lemma_view_exprs(s.drop_last());
    }
}

/// Pointwise reading of `view_stmts`.
pub proof fn lemma_view_stmts(s: Seq<Stmt>)
    ensures
        (#[trigger] view_stmts(s)).len() == s.len(),
        forall|i: int| 0 <= i < s.len() ==> view_stmts(s)[i] == view_stmt(s[i]),
    decreases s,
{
    if s.len() > 0 {
        lemma_view_stmts(s.drop_last());
    }
}

} // verus!
