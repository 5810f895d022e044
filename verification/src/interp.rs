use vstd::prelude::*;
use std::rc::Rc;

use crate::ast::{lemma_view_exprs, lemma_view_stmts, view_exprs, view_names, view_stmts, Block,
    Definition, Expr, ExprV, Stmt};
use crate::bindings::Bindings;
use crate::error::Error;
use crate::sema::{lemma_stmts_shape, s_apply, s_bind, s_eval, s_eval_list, s_exec_block,
    s_exec_def, s_exec_stmt, s_exec_stmts, s_render};

verus! {

/// The models of a sequence of evaluated values.
pub open spec fn vals_view(s: Seq<Rc<Expr>>) -> Seq<ExprV> {
    Seq::new(s.len(), |i: int| s[i]@)
}

/// Appending one line to the output appends its text to the output's model.
proof fn lemma_out_push(v1: Vec<String>, v2: Vec<String>, s: String)
    requires
        v2@ == v1@.push(s),
    ensures
        v2.deep_view() =~= v1.deep_view().push(s@),
{
    assert forall|i: int| 0 <= i < v2@.len() implies v2.deep_view()[i] == v1.deep_view().push(
        s@,
    )[i] by {
        if i < v1@.len() {
            assert(v2@[i] == v1@[i]);
        } else {
            assert(v2@[i] == s);
        }
    }
}

impl Expr {
    /// Evaluate this expression against `env`, appending everything printed
    /// to `out`.  The result and the printed lines are exactly those of the
    /// mathematical semantics `s_eval`, at the same depth budget.
    pub fn evaluate(&self, env: &Bindings, fuel: u64, out: &mut Vec<String>) -> (r: Result<
        Rc<Expr>,
        Error,
    >)
        requires
            env.wf(),
            env@.len() >= 1,
        ensures
            ({
                let (sr, so) = s_eval(env@, self@, fuel);
                &&& final(out).deep_view() == old(out).deep_view() + so
                &&& match (r, sr) {
                    (Ok(v), Ok(sv)) => v@ == sv,
                    (Err(a), Err(b)) => a == b,
                    _ => false,
                }
            }),
        decreases fuel, 0int, 0int,
    {
        proof {
            assert(old(out).deep_view() + Seq::<Seq<char>>::empty() =~= old(out).deep_view());
        }
        if fuel == 0 {
            return Err(Error::OutOfFuel);
        }
        match self {
            Expr::Literal(s) => Ok(Rc::new(Expr::Literal(s.clone()))),
            Expr::Builtin(n) => Ok(Rc::new(Expr::Builtin(n.clone()))),
            Expr::Function(d) => Ok(Rc::new(Expr::Function(d.clone()))),
            Expr::Name(n) => match env.get(n) {
                Ok(v) => Ok(v),
                Err(e) => Err(e),
            },
            Expr::Call(f, args) => {
                let rf = f.evaluate(env, fuel - 1, out);
                let callee = match rf {
                    Err(e) => {
                        return Err(e);
                    },
                    Ok(callee) => callee,
                };
                proof {
                    lemma_view_exprs(args@);
                    assert(view_exprs(args@).skip(0) =~= view_exprs(args@));
                }
                let ra = eval_args(env, args, 0, fuel - 1, out);
                let vals = match ra {
                    Err(e) => {
                        proof {
                            let (rf_s, of) = s_eval(env@, f@, (fuel - 1) as u64);
                            let (ra_s, oa) = s_eval_list(env@, view_exprs(args@), (fuel - 1) as u64);
                            assert(old(out).deep_view() + of + oa =~= old(out).deep_view() + (of
                                + oa));
                        }
                        return Err(e);
                    },
                    Ok(vals) => vals,
                };
                let rr = apply(env, &callee, &vals, fuel - 1, out);
                proof {
                    let (rf_s, of) = s_eval(env@, f@, (fuel - 1) as u64);
                    let (ra_s, oa) = s_eval_list(env@, view_exprs(args@), (fuel - 1) as u64);
                    let (rr_s, or) = s_apply(
                        env@,
                        callee@,
                        vals_view(vals@),
                        (fuel - 1) as u64,
                    );
                    assert(old(out).deep_view() + of + oa + or =~= old(out).deep_view() + (of + oa
                        + or));
                }
                rr
            },
        }
    }
}

/// Evaluate the argument expressions from position `i` on, left to right,
/// stopping at the first error, exactly as `s_eval_list` reads the same
/// suffix.
fn eval_args(env: &Bindings, args: &Vec<Expr>, i: usize, fuel: u64, out: &mut Vec<String>) -> (r:
    Result<Vec<Rc<Expr>>, Error>)
    requires
        env.wf(),
        env@.len() >= 1,
        i <= args@.len(),
    ensures
        ({
            let (sr, so) = s_eval_list(env@, view_exprs(args@).skip(i as int), fuel);
            &&& final(out).deep_view() == old(out).deep_view() + so
            &&& match (r, sr) {
                (Ok(vs), Ok(svs)) => vals_view(vs@) == svs,
                (Err(a), Err(b)) => a == b,
                _ => false,
            }
        }),
    decreases fuel, 1int, args@.len() - i,
{
    proof {
        lemma_view_exprs(args@);
    }
    if i == args.len() {
        proof {
            assert(view_exprs(args@).skip(i as int) =~= Seq::<ExprV>::empty());
            assert(old(out).deep_view() + Seq::<Seq<char>>::empty() =~= old(out).deep_view());
            assert(vals_view(Seq::<Rc<Expr>>::empty()) =~= Seq::<ExprV>::empty());
        }
        return Ok(Vec::new());
    }
    proof {
        assert(view_exprs(args@).skip(i as int)[0] == args@[i as int]@);
        assert(view_exprs(args@).skip(i as int).drop_first() =~= view_exprs(args@).skip(
            i as int + 1,
        ));
    }
    let r0 = args[i].evaluate(env, fuel, out);
    let v0 = match r0 {
        Err(e) => {
            return Err(e);
        },
        Ok(v0) => v0,
    };
    let rr = eval_args(env, args, i + 1, fuel, out);
    match rr {
        Err(e) => {
            proof {
                let (r0_s, o0) = s_eval(env@, args@[i as int]@, fuel);
                let (rr_s, o1) = s_eval_list(env@, view_exprs(args@).skip(i as int + 1), fuel);
                assert(old(out).deep_view() + o0 + o1 =~= old(out).deep_view() + (o0 + o1));
            }
            Err(e)
        },
        Ok(mut vs) => {
            vs.insert(0, v0);
            proof {
                let (r0_s, o0) = s_eval(env@, args@[i as int]@, fuel);
                let (rr_s, o1) = s_eval_list(env@, view_exprs(args@).skip(i as int + 1), fuel);
                assert(old(out).deep_view() + o0 + o1 =~= old(out).deep_view() + (o0 + o1));
                assert(vals_view(vs@) =~= seq![v0@] + rr_s.unwrap());
            }
            Ok(vs)
        },
    }
}

/// Invoke an evaluated callable on evaluated arguments, as `s_apply` does: a
/// builtin prints its one argument, a user-defined function runs its body in
/// a globals-only environment extended with its bound parameters.
#[verifier::loop_isolation(false)]
pub(crate) fn apply(
    env: &Bindings,
    callee: &Rc<Expr>,
    vals: &Vec<Rc<Expr>>,
    fuel: u64,
    out: &mut Vec<String>,
) -> (r: Result<Rc<Expr>, Error>)
    requires
        env.wf(),
        env@.len() >= 1,
    ensures
        ({
            let (sr, so) = s_apply(env@, callee@, vals_view(vals@), fuel);
            &&& final(out).deep_view() == old(out).deep_view() + so
            &&& match (r, sr) {
                (Ok(v), Ok(sv)) => v@ == sv,
                (Err(a), Err(b)) => a == b,
                _ => false,
            }
        }),
    decreases fuel, 6int, 0int,
{
    proof {
        assert(old(out).deep_view() + Seq::<Seq<char>>::empty() =~= old(out).deep_view());
    }
    match &(**callee) {
        Expr::Builtin(_) => {
            if vals.len() != 1 {
                return Err(Error::ArityMismatch);
            }
            let line = vals[0].render();
            out.push(line);
            proof {
                lemma_out_push(*old(out), *out, line);
                assert(out.deep_view() =~= old(out).deep_view() + seq![
                    s_render(vals_view(vals@)[0]),
                ]);
            }
            Ok(Rc::new(Expr::Literal(String::new())))
        },
        Expr::Function(d) => {
            if vals.len() != d.params.len() {
                return Err(Error::ArityMismatch);
            }
            let mut act = env.new_with_globals();
            act.new_frame();
            let n = d.params.len();
            let mut j: usize = 0;
            proof {
                assert(view_names(d.params@).skip(0) =~= view_names(d.params@));
                assert(vals_view(vals@).skip(0) =~= vals_view(vals@));
                assert(act@ =~= seq![env@[0], Map::<Seq<char>, ExprV>::empty()]);
            }
            while j < n
                invariant
                    env.wf(),
                    env@.len() >= 1,
                    act.wf(),
                    act@.len() == 2,
                    act@[0] == env@[0],
                    n == d.params@.len(),
                    n == vals@.len(),
                    j <= n,
                    s_bind(Map::empty(), view_names(d.params@), vals_view(vals@)) == s_bind(
                        act@[1],
                        view_names(d.params@).skip(j as int),
                        vals_view(vals@).skip(j as int),
                    ),
                decreases n - j,
            {
                proof {
                    assert(view_names(d.params@).skip(j as int)[0] == d.params@[j as int]@);
                    assert(vals_view(vals@).skip(j as int)[0] == vals@[j as int]@);
                    assert(view_names(d.params@).skip(j as int).drop_first() =~= view_names(
                        d.params@,
                    ).skip(j as int + 1));
                    assert(vals_view(vals@).skip(j as int).drop_first() =~= vals_view(vals@).skip(
                        j as int + 1,
                    ));
                }
                let added = act.add(d.params[j].clone(), vals[j].clone());
                match added {
                    Ok(_) => {},
                    Err(e) => {
                        return Err(e);
                    },
                }
                j += 1;
            }
            proof {
                assert(view_names(d.params@).skip(n as int) =~= Seq::<Seq<char>>::empty());
                assert(vals_view(vals@).skip(n as int) =~= Seq::<ExprV>::empty());
                assert(act@ =~= seq![env@[0], act@[1]]);
            }
            let rb = d.body.execute(&mut act, fuel, out);
            match rb {
                Err(e) => Err(e),
                Ok(_) => Ok(Rc::new(Expr::Literal(String::new()))),
            }
        },
        Expr::Literal(_) => Err(Error::NotCallable),
        Expr::Name(_) => Err(Error::NotCallable),
        Expr::Call(_, _) => Err(Error::NotCallable),
    }
}

impl Block {
    /// Execute this block: push a frame, run the statements, drop the frame.
    pub fn execute(&self, env: &mut Bindings, fuel: u64, out: &mut Vec<String>) -> (r: Result<
        (),
        Error,
    >)
        requires
            old(env).wf(),
            old(env)@.len() >= 1,
        ensures
            final(env).wf(),
            ({
                let (sr, so) = s_exec_block(old(env)@, self@, fuel);
                &&& final(out).deep_view() == old(out).deep_view() + so
                &&& match (r, sr) {
                    (Ok(_), Ok(env2)) => final(env)@ == env2,
                    (Err(a), Err(b)) => a == b,
                    _ => false,
                }
            }),
        decreases fuel, 2int, 0int,
    {
        proof {
            assert(old(out).deep_view() + Seq::<Seq<char>>::empty() =~= old(out).deep_view());
        }
        if fuel == 0 {
            return Err(Error::OutOfFuel);
        }
        env.new_frame();
        proof {
            lemma_view_stmts(self.stmts@);
            assert(view_stmts(self.stmts@).skip(0) =~= view_stmts(self.stmts@));
        }
        let rr = exec_stmts(env, &self.stmts, 0, fuel - 1, out);
        match rr {
            Err(e) => Err(e),
            Ok(_) => {
                proof {
                    lemma_stmts_shape(
                        old(env)@.push(Map::empty()),
                        view_stmts(self.stmts@),
                        (fuel - 1) as u64,
                    );
                }
                env.pop_frame();
                Ok(())
            },
        }
    }
}

impl Definition {
    /// Execute this definition: evaluate the initializer, then bind it as a
    /// fresh name in the topmost frame.
    pub fn execute(&self, env: &mut Bindings, fuel: u64, out: &mut Vec<String>) -> (r: Result<
        (),
        Error,
    >)
        requires
            old(env).wf(),
            old(env)@.len() >= 1,
        ensures
            final(env).wf(),
            final(env)@.len() == old(env)@.len(),
            ({
                let (sr, so) = s_exec_def(old(env)@, self@, fuel);
                &&& final(out).deep_view() == old(out).deep_view() + so
                &&& match (r, sr) {
                    (Ok(_), Ok(env2)) => final(env)@ == env2,
                    (Err(a), Err(b)) => a == b,
                    _ => false,
                }
            }),
        decreases fuel, 3int, 0int,
    {
        let rv = self.value.evaluate(env, fuel, out);
        match rv {
            Err(e) => Err(e),
            Ok(v) => {
                let added = env.add(self.name.clone(), v);
                match added {
                    Ok(_) => Ok(()),
                    Err(e) => Err(e),
                }
            },
        }
    }
}

impl Stmt {
    /// Execute this statement for effect.
    pub fn execute(&self, env: &mut Bindings, fuel: u64, out: &mut Vec<String>) -> (r: Result<
        (),
        Error,
    >)
        requires
            old(env).wf(),
            old(env)@.len() >= 1,
        ensures
            final(env).wf(),
            ({
                let (sr, so) = s_exec_stmt(old(env)@, self@, fuel);
                &&& final(out).deep_view() == old(out).deep_view() + so
                &&& match (r, sr) {
                    (Ok(_), Ok(env2)) => final(env)@ == env2,
                    (Err(a), Err(b)) => a == b,
                    _ => false,
                }
            }),
        decreases fuel, 4int, 0int,
    {
        match self {
            Stmt::Definition(d) => d.execute(env, fuel, out),
            Stmt::Block(b) => b.execute(env, fuel, out),
        }
    }
}

/// Execute the statements from position `i` on, in order, stopping at the
/// first error, exactly as `s_exec_stmts` reads the same suffix.
pub(crate) fn exec_stmts(
    env: &mut Bindings,
    ss: &Vec<Stmt>,
    i: usize,
    fuel: u64,
    out: &mut Vec<String>,
) -> (r: Result<(), Error>)
    requires
        old(env).wf(),
        old(env)@.len() >= 1,
        i <= ss@.len(),
    ensures
        final(env).wf(),
        ({
            let (sr, so) = s_exec_stmts(old(env)@, view_stmts(ss@).skip(i as int), fuel);
            &&& final(out).deep_view() == old(out).deep_view() + so
            &&& match (r, sr) {
                (Ok(_), Ok(env2)) => final(env)@ == env2,
                (Err(a), Err(b)) => a == b,
                _ => false,
            }
        }),
    decreases fuel, 5int, ss@.len() - i,
{
    proof {
        lemma_view_stmts(ss@);
    }
    if i == ss.len() {
        proof {
            assert(view_stmts(ss@).skip(i as int) =~= Seq::<crate::ast::StmtV>::empty());
            assert(old(out).deep_view() + Seq::<Seq<char>>::empty() =~= old(out).deep_view());
        }
        return Ok(());
    }
    proof {
        assert(view_stmts(ss@).skip(i as int)[0] == ss@[i as int]@);
        assert(view_stmts(ss@).skip(i as int).drop_first() =~= view_stmts(ss@).skip(i as int + 1));
    }
    let r0 = ss[i].execute(env, fuel, out);
    match r0 {
        Err(e) => {
            return Err(e);
        },
        Ok(_) => {},
    }
    proof {
        crate::sema::lemma_stmt_shape(old(env)@, ss@[i as int]@, fuel);
    }
    let rr = exec_stmts(env, ss, i + 1, fuel, out);
    proof {
        let (r0_s, o0) = s_exec_stmt(old(env)@, ss@[i as int]@, fuel);
        let (rr_s, o1) = s_exec_stmts(r0_s.unwrap(), view_stmts(ss@).skip(i as int + 1), fuel);
        assert(old(out).deep_view() + o0 + o1 =~= old(out).deep_view() + (o0 + o1));
    }
    rr
}

} // verus!
