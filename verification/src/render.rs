use vstd::prelude::*;
use vstd::string::StringExecFns;

use crate::ast::{lemma_view_stmts, view_exprs, view_names, view_stmts, Block, Definition, Expr, Stmt, StmtV};
use crate::sema::{s_render, s_render_exprs, s_render_names, s_render_stmt, s_render_stmts};

verus! {

/// `s_render_names` grows on the right one name at a time.
proof fn lemma_render_names_push(s: Seq<Seq<char>>, x: Seq<char>)
    ensures
        s_render_names(s.push(x)) == if s.len() == 0 {
            x
        } else {
            s_render_names(s) + ","@ + x
        },
{
    assert(s.push(x).drop_last() =~= s);
    assert(s.push(x).last() == x);
}

/// `s_render_exprs` grows on the right one expression at a time.
proof fn lemma_render_exprs_push(s: Seq<crate::ast::ExprV>, x: crate::ast::ExprV)
    ensures
        s_render_exprs(s.push(x)) == if s.len() == 0 {
            s_render(x)
        } else {
            s_render_exprs(s) + ","@ + s_render(x)
        },
{
    assert(s.push(x).drop_last() =~= s);
    assert(s.push(x).last() == x);
}

/// `s_render_stmts` grows on the right one statement at a time.
proof fn lemma_render_stmts_push(s: Seq<crate::ast::StmtV>, x: crate::ast::StmtV)
    ensures
        s_render_stmts(s.push(x)) == if s.len() == 0 {
            s_render_stmt(x)
        } else {
            s_render_stmts(s) + "; "@ + s_render_stmt(x)
        },
{
    assert(s.push(x).drop_last() =~= s);
    assert(s.push(x).last() == x);
}

impl Expr {
    /// The human-readable form of this expression (for diagnostics and for
    /// the `print` built-in; not an input format).
    #[verifier::loop_isolation(false)]
    pub fn render(&self) -> (r: String)
        ensures
            r@ == s_render(self@),
        decreases *self, 0int, 0int,
    {
        match self {
            Expr::Literal(s) => s.clone(),
            Expr::Name(n) => n.clone(),
            Expr::Builtin(n) => n.clone(),
            Expr::Function(d) => {
                let mut r = String::from_str("FUNCTION(");
                let n = d.params.len();
                let mut j: usize = 0;
                let mut names = String::new();
                while j < n
                    invariant
                        n == d.params@.len(),
                        j <= n,
                        names@ == s_render_names(view_names(d.params@).subrange(0, j as int)),
                    decreases n - j,
                {
                    if j > 0 {
                        names.append(",");
                    }
                    names.append(d.params[j].as_str());
                    proof {
                        let pref = view_names(d.params@).subrange(0, j as int);
                        lemma_render_names_push(pref, d.params@[j as int]@);
                        assert(pref.push(d.params@[j as int]@) =~= view_names(
                            d.params@,
                        ).subrange(0, j + 1));
                    }
                    j += 1;
                }
                proof {
                    assert(view_names(d.params@).subrange(0, n as int) =~= view_names(d.params@));
                }
                r.append(names.as_str());
                r.append(")");
                r
            },
            Expr::Call(f, args) => {
                let mut r = f.render();
                r.append("(");
                let n = args.len();
                let mut j: usize = 0;
                let mut rendered = String::new();
                while j < n
                    invariant
                        n == args@.len(),
                        j <= n,
                        rendered@ == s_render_exprs(view_exprs(args@).subrange(0, j as int)),
                    decreases *self, 0int, n - j,
                {
                    if j > 0 {
                        rendered.append(",");
                    }
                    let piece = args[j].render();
                    rendered.append(piece.as_str());
                    proof {
                        crate::ast::lemma_view_exprs(args@);
                        let pref = view_exprs(args@).subrange(0, j as int);
                        lemma_render_exprs_push(pref, view_exprs(args@)[j as int]);
                        assert(pref.push(view_exprs(args@)[j as int]) =~= view_exprs(
                            args@,
                        ).subrange(0, j + 1));
                    }
                    j += 1;
                }
                proof {
                    crate::ast::lemma_view_exprs(args@);
                    assert(view_exprs(args@).subrange(0, n as int) =~= view_exprs(args@));
                }
                r.append(rendered.as_str());
                r.append(")");
                r
            },
        }
    }
}

impl Stmt {
    /// The human-readable form of this statement.
    pub fn render(&self) -> (r: String)
        ensures
            r@ == s_render_stmt(self@),
        decreases *self, 2int, 0int,
    {
        match self {
            Stmt::Definition(d) => d.render(),
            Stmt::Block(b) => b.render(),
        }
    }
}

impl Definition {
    /// The human-readable form of this definition.
    pub fn render(&self) -> (r: String)
        ensures
            r@ == s_render_stmt(StmtV::Definition(self@)),
        decreases *self, 1int, 0int,
    {
        let mut r = String::from_str("DEFINE ");
        r.append(self.name.as_str());
        r.append(" = ");
        let v = self.value.render();
        r.append(v.as_str());
        r
    }
}

impl Block {
    /// The human-readable form of this block.
    pub fn render(&self) -> (r: String)
        ensures
            r@ == s_render_stmt(StmtV::Block(self@)),
        decreases *self, 0int, 0int,
    {
        let n = self.stmts.len();
        let mut j: usize = 0;
        let mut rendered = String::new();
        while j < n
            invariant
                n == self.stmts@.len(),
                j <= n,
                rendered@ == s_render_stmts(view_stmts(self.stmts@).subrange(0, j as int)),
            decreases *self, 0int, n - j,
        {
            if j > 0 {
                rendered.append("; ");
            }
            let piece = self.stmts[j].render();
            rendered.append(piece.as_str());
            proof {
                lemma_view_stmts(self.stmts@);
                let pref = view_stmts(self.stmts@).subrange(0, j as int);
                lemma_render_stmts_push(pref, view_stmts(self.stmts@)[j as int]);
                assert(pref.push(view_stmts(self.stmts@)[j as int]) =~= view_stmts(
                    self.stmts@,
                ).subrange(0, j + 1));
            }
            j += 1;
        }
        proof {
            lemma_view_stmts(self.stmts@);
            assert(view_stmts(self.stmts@).subrange(0, n as int) =~= view_stmts(self.stmts@));
        }
        let mut r = String::from_str("{ ");
        r.append(rendered.as_str());
        r.append(" }");
        r
    }
}

} // verus!
