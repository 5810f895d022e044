use vstd::prelude::*;

use crate::ast::{BlockV, DefinitionV, ExprV, StmtV};
use crate::bindings::{lookup, EnvV};
use crate::error::Error;

verus! {

/// The name a program's entry point must be bound to.
pub open spec fn entry_name() -> Seq<char> {
    "main"@
}

/// The human-readable form of an expression.
pub open spec fn s_render(e: ExprV) -> Seq<char>
    decreases e,
{
    match e {
        ExprV::Literal(s) => s,
        ExprV::Name(n) => n,
        ExprV::Builtin(n) => n,
        ExprV::Function(params, _) => "FUNCTION("@ + s_render_names(params) + ")"@,
        ExprV::Call(f, args) => s_render(*f) + "("@ + s_render_exprs(args) + ")"@,
    }
}

/// Parameter names joined with commas.
pub open spec fn s_render_names(ns: Seq<Seq<char>>) -> Seq<char>
    decreases ns.len(),
{
    if ns.len() == 0 {
        Seq::empty()
    } else if ns.len() == 1 {
        ns[0]
    } else {
        s_render_names(ns.drop_last()) + ","@ + ns.last()
    }
}

/// Argument renderings joined with commas.
pub open spec fn s_render_exprs(es: Seq<ExprV>) -> Seq<char>
    decreases es,
{
    if es.len() == 0 {
        Seq::empty()
    } else if es.len() == 1 {
        s_render(es[0])
    } else {
        s_render_exprs(es.drop_last()) + ","@ + s_render(es.last())
    }
}

/// The human-readable form of a statement.
pub open spec fn s_render_stmt(s: StmtV) -> Seq<char>
    decreases s,
{
    match s {
        StmtV::Definition(d) => "DEFINE "@ + d.name + " = "@ + s_render(d.value),
        StmtV::Block(b) => "{ "@ + s_render_stmts(b.stmts) + " }"@,
    }
}

/// Statement renderings joined with semicolons.
pub open spec fn s_render_stmts(ss: Seq<StmtV>) -> Seq<char>
    decreases ss,
{
    if ss.len() == 0 {
        Seq::empty()
    } else if ss.len() == 1 {
        s_render_stmt(ss[0])
    } else {
        s_render_stmts(ss.drop_last()) + "; "@ + s_render_stmt(ss.last())
    }
}

/// Insert a binding into the topmost frame; a repeated name in that frame is
/// rejected and nothing changes.
pub open spec fn add_here(env: EnvV, n: Seq<char>, v: ExprV) -> Result<EnvV, Error>
    recommends
        env.len() >= 1,
{
    if env.last().contains_key(n) {
        Err(Error::DuplicateBinding)
    } else {
        Ok(env.update(env.len() - 1, env.last().insert(n, v)))
    }
}

/// Bind formal parameters to argument values, left to right, into an
/// initially empty activation frame; a repeated parameter name is rejected.
pub open spec fn s_bind(
    m: Map<Seq<char>, ExprV>,
    params: Seq<Seq<char>>,
    vals: Seq<ExprV>,
) -> Result<Map<Seq<char>, ExprV>, Error>
    recommends
        params.len() == vals.len(),
    decreases params.len(),
{
    if params.len() == 0 {
        Ok(m)
    } else if m.contains_key(params[0]) {
        Err(Error::DuplicateBinding)
    } else {
        s_bind(m.insert(params[0], vals[0]), params.drop_first(), vals.drop_first())
    }
}

/// Evaluate an expression.  Evaluation never mutates the environment it reads
/// (only statements do, and only their own innermost frames), so the result
/// is the produced value, or the error, together with the lines the `print`
/// built-in emitted along the way, in order.
pub open spec fn s_eval(env: EnvV, e: ExprV, fuel: u64) -> (Result<ExprV, Error>, Seq<Seq<char>>)
    recommends
        env.len() >= 1,
    decreases fuel, 0int, 0int,
{
    if fuel == 0 {
        (Err(Error::OutOfFuel), Seq::empty())
    } else {
        match e {
            ExprV::Literal(_) => (Ok(e), Seq::empty()),
            ExprV::Builtin(_) => (Ok(e), Seq::empty()),
            ExprV::Function(_, _) => (Ok(e), Seq::empty()),
            ExprV::Name(n) => match lookup(env, n) {
                Some(v) => (Ok(v), Seq::empty()),
                None => (Err(Error::UnboundName), Seq::empty()),
            },
            ExprV::Call(f, args) => {
                let (rf, of) = s_eval(env, *f, (fuel - 1) as u64);
                match rf {
                    Err(er) => (Err(er), of),
                    Ok(callee) => {
                        let (ra, oa) = s_eval_list(env, args, (fuel - 1) as u64);
                        match ra {
                            Err(er) => (Err(er), of + oa),
                            Ok(vals) => {
                                let (rr, or) = s_apply(env, callee, vals, (fuel - 1) as u64);
                                (rr, of + oa + or)
                            },
                        }
                    },
                }
            },
        }
    }
}

/// Evaluate expressions left to right, stopping at the first error; the
/// emitted output is the concatenation, in that same order.
pub open spec fn s_eval_list(env: EnvV, es: Seq<ExprV>, fuel: u64) -> (
    Result<Seq<ExprV>, Error>,
    Seq<Seq<char>>,
)
    recommends
        env.len() >= 1,
    decreases fuel, 1int, es.len(),
{
    if es.len() == 0 {
        (Ok(Seq::empty()), Seq::empty())
    } else {
        let (r0, o0) = s_eval(env, es[0], fuel);
        match r0 {
            Err(er) => (Err(er), o0),
            Ok(v0) => {
                let (rr, o1) = s_eval_list(env, es.drop_first(), fuel);
                match rr {
                    Err(er) => (Err(er), o0 + o1),
                    Ok(vs) => (Ok(seq![v0] + vs), o0 + o1),
                }
            },
        }
    }
}

/// Execute a block: push a fresh frame, run the statements in order, and
/// tear the frame down again, so nothing after the block can see its names.
pub open spec fn s_exec_block(env: EnvV, b: BlockV, fuel: u64) -> (Result<EnvV, Error>, Seq<Seq<char>>)
    recommends
        env.len() >= 1,
    decreases fuel, 2int, 0int,
{
    if fuel == 0 {
        (Err(Error::OutOfFuel), Seq::empty())
    } else {
        let (rr, o) = s_exec_stmts(env.push(Map::empty()), b.stmts, (fuel - 1) as u64);
        match rr {
            Err(er) => (Err(er), o),
            Ok(env2) => (Ok(env2.drop_last()), o),
        }
    }
}

/// Execute a definition: evaluate the initializer, then bind the result to a
/// fresh name in the topmost frame.
pub open spec fn s_exec_def(env: EnvV, d: DefinitionV, fuel: u64) -> (
    Result<EnvV, Error>,
    Seq<Seq<char>>,
)
    recommends
        env.len() >= 1,
    decreases fuel, 3int, 0int,
{
    let (rv, o) = s_eval(env, d.value, fuel);
    match rv {
        Err(er) => (Err(er), o),
        Ok(v) => match add_here(env, d.name, v) {
            Err(er) => (Err(er), o),
            Ok(env2) => (Ok(env2), o),
        },
    }
}

/// Execute one statement for effect.
pub open spec fn s_exec_stmt(env: EnvV, s: StmtV, fuel: u64) -> (Result<EnvV, Error>, Seq<Seq<char>>)
    recommends
        env.len() >= 1,
    decreases fuel, 4int, 0int,
{
    match s {
        StmtV::Definition(d) => s_exec_def(env, d, fuel),
        StmtV::Block(b) => s_exec_block(env, b, fuel),
    }
}

/// Execute statements in order, stopping at the first error.
pub open spec fn s_exec_stmts(env: EnvV, ss: Seq<StmtV>, fuel: u64) -> (
    Result<EnvV, Error>,
    Seq<Seq<char>>,
)
    recommends
        env.len() >= 1,
    decreases fuel, 5int, ss.len(),
{
    if ss.len() == 0 {
        (Ok(env), Seq::empty())
    } else {
        let (r0, o0) = s_exec_stmt(env, ss[0], fuel);
        match r0 {
            Err(er) => (Err(er), o0),
            Ok(env1) => {
                let (rr, o1) = s_exec_stmts(env1, ss.drop_first(), fuel);
                match rr {
                    Err(er) => (Err(er), o0 + o1),
                    Ok(env2) => (Ok(env2), o0 + o1),
                }
            },
        }
    }
}

/// Invoke an already evaluated callable on already evaluated arguments.
///
/// A `Builtin` is the one shipped native behaviour: it takes exactly one
/// argument and emits that argument's rendered text as one output line.  A
/// `Function` runs its body against a fresh environment holding only the
/// global frame plus the frame binding its parameters — never the caller's
/// locals — and produces an empty literal, the unit of this language (a body
/// is a block of statements, executed for effect; the driver discards the
/// entry point's result either way).  Any other value is not callable.
pub open spec fn s_apply(env: EnvV, callee: ExprV, vals: Seq<ExprV>, fuel: u64) -> (
    Result<ExprV, Error>,
    Seq<Seq<char>>,
)
    recommends
        env.len() >= 1,
    decreases fuel, 6int, 0int,
{
    match callee {
        ExprV::Builtin(_) => {
            if vals.len() != 1 {
                (Err(Error::ArityMismatch), Seq::empty())
            } else {
                (Ok(ExprV::Literal(Seq::empty())), seq![s_render(vals[0])])
            }
        },
        ExprV::Function(params, body) => {
            if vals.len() != params.len() {
                (Err(Error::ArityMismatch), Seq::empty())
            } else {
                match s_bind(Map::empty(), params, vals) {
                    Err(er) => (Err(er), Seq::empty()),
                    Ok(frame) => {
                        let act = seq![env[0], frame];
                        let (rb, ob) = s_exec_block(act, body, fuel);
                        match rb {
                            Err(er) => (Err(er), ob),
                            Ok(_) => (Ok(ExprV::Literal(Seq::empty())), ob),
                        }
                    },
                }
            }
        },
        ExprV::Literal(_) => (Err(Error::NotCallable), Seq::empty()),
        ExprV::Name(_) => (Err(Error::NotCallable), Seq::empty()),
        ExprV::Call(_, _) => (Err(Error::NotCallable), Seq::empty()),
    }
}

/// A definition leaves the stack's depth alone and touches only the topmost
/// frame.
pub proof fn lemma_def_shape(env: EnvV, d: DefinitionV, fuel: u64)
    requires
        env.len() >= 1,
    ensures
        ({
            let (r, o) = s_exec_def(env, d, fuel);
            r is Ok ==> r.unwrap().len() == env.len() && (forall|i: int|
                0 <= i < env.len() - 1 ==> r.unwrap()[i] == env[i])
        }),
    decreases fuel, 3int, 0int,
{
}

/// A block restores the environment exactly: its frame, and everything its
/// statements put there, is gone when it finishes.
pub proof fn lemma_block_shape(env: EnvV, b: BlockV, fuel: u64)
    ensures
        ({
            let (r, o) = s_exec_block(env, b, fuel);
            r is Ok ==> r.unwrap() == env
        }),
    decreases fuel, 2int, 0int,
{
    if fuel > 0 {
        lemma_stmts_shape(env.push(Map::empty()), b.stmts, (fuel - 1) as u64);
        let (r0, o0) = s_exec_stmts(env.push(Map::empty()), b.stmts, (fuel - 1) as u64);
        if r0 is Ok {
            assert(r0.unwrap().len() == env.len() + 1);
            assert forall|i: int| 0 <= i < env.len() implies r0.unwrap()[i] == env[i] by {
                assert(r0.unwrap()[i] == env.push(Map::empty())[i]);
            }
            assert(r0.unwrap().drop_last() =~= env);
        }
    }
}

/// One statement leaves the stack's depth alone and every frame below the
/// topmost one untouched.
pub proof fn lemma_stmt_shape(env: EnvV, s: StmtV, fuel: u64)
    requires
        env.len() >= 1,
    ensures
        ({
            let (r, o) = s_exec_stmt(env, s, fuel);
            r is Ok ==> r.unwrap().len() == env.len() && (forall|i: int|
                0 <= i < env.len() - 1 ==> r.unwrap()[i] == env[i])
        }),
    decreases fuel, 4int, 0int,
{
    match s {
        StmtV::Definition(d) => lemma_def_shape(env, d, fuel),
        StmtV::Block(b) => lemma_block_shape(env, b, fuel),
    }
}

/// A statement sequence leaves the stack's depth alone and every frame below
/// the topmost one untouched.
pub proof fn lemma_stmts_shape(env: EnvV, ss: Seq<StmtV>, fuel: u64)
    requires
        env.len() >= 1,
    ensures
        ({
            let (r, o) = s_exec_stmts(env, ss, fuel);
            r is Ok ==> r.unwrap().len() == env.len() && (forall|i: int|
                0 <= i < env.len() - 1 ==> r.unwrap()[i] == env[i])
        }),
    decreases fuel, 5int, ss.len(),
{
    if ss.len() > 0 {
        lemma_stmt_shape(env, ss[0], fuel);
        let (r0, o0) = s_exec_stmt(env, ss[0], fuel);
        if r0 is Ok {
            lemma_stmts_shape(r0.unwrap(), ss.drop_first(), fuel);
        }
    }
}

/// Execute the top-level definitions in program order against the global
/// environment.
pub open spec fn s_run_defs(env: EnvV, defs: Seq<DefinitionV>, fuel: u64) -> (
    Result<EnvV, Error>,
    Seq<Seq<char>>,
)
    recommends
        env.len() >= 1,
    decreases fuel, 7int, defs.len(),
{
    if defs.len() == 0 {
        (Ok(env), Seq::empty())
    } else {
        let (r0, o0) = s_exec_def(env, defs[0], fuel);
        match r0 {
            Err(er) => (Err(er), o0),
            Ok(env1) => {
                let (rr, o1) = s_run_defs(env1, defs.drop_first(), fuel);
                match rr {
                    Err(er) => (Err(er), o0 + o1),
                    Ok(env2) => (Ok(env2), o0 + o1),
                }
            },
        }
    }
}

/// Run a whole program: execute the definitions in order, then resolve the
/// entry name, require it to be a user-defined function, and invoke it with
/// no arguments.  The result is the environment after the definitions and
/// everything the run printed.
pub open spec fn s_run(env: EnvV, defs: Seq<DefinitionV>, fuel: u64) -> (
    Result<EnvV, Error>,
    Seq<Seq<char>>,
)
    recommends
        env.len() >= 1,
    decreases fuel, 8int, 0int,
{
    let (rd, od) = s_run_defs(env, defs, fuel);
    match rd {
        Err(er) => (Err(er), od),
        Ok(env2) => match lookup(env2, entry_name()) {
            None => (Err(Error::EntryPointMissing), od),
            Some(m) => {
                if !(m is Function) {
                    (Err(Error::EntryPointWrongType), od)
                } else {
                    let (rm, om) = s_apply(env2, m, Seq::empty(), fuel);
                    match rm {
                        Err(er) => (Err(er), od + om),
                        Ok(_) => (Ok(env2), od + om),
                    }
                }
            },
        },
    }
}

} // verus!
