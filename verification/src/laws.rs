use vstd::prelude::*;

use crate::ast::{BlockV, DefinitionV, ExprV};
use crate::bindings::{change_idx, lemma_change_idx, lemma_lookup_idx, lookup, lookup_idx, EnvV};
use crate::error::Error;
use crate::sema::{add_here, entry_name, lemma_block_shape, s_apply, s_bind, s_eval, s_exec_block,
    s_run, s_run_defs};

verus! {

/// Scoping: executing a block hands the environment back exactly as it was,
/// whatever entries and exits its statements nest.  A name defined inside the
/// block is therefore unreachable once the block exits: one that was unbound
/// before the block is still unbound after it, and looking it up fails with
/// `UnboundName` exactly as it did before.
pub proof fn law_block_scoping(env: EnvV, b: BlockV, fuel: u64, n: Seq<char>)
    ensures
        ({
            let (r, o) = s_exec_block(env, b, fuel);
            r is Ok ==> r.unwrap() == env && lookup(r.unwrap(), n) == lookup(env, n)
        }),
{
    lemma_block_shape(env, b, fuel);
}

/// Pure values are referentially transparent: a literal, a builtin or a
/// user-defined function evaluates to itself, printing nothing, whenever any
/// depth budget at all is available.
pub proof fn law_pure_values(env: EnvV, e: ExprV, fuel: u64)
    requires
        fuel >= 1,
        e is Literal || e is Builtin || e is Function,
    ensures
        s_eval(env, e, fuel) == (Ok::<ExprV, Error>(e), Seq::<Seq<char>>::empty()),
{
}

/// Global immutability: a name that is bound in the global frame and in no
/// local frame is not reachable by the mutation scan, which skips the global
/// frame; `Bindings::change` on such a name therefore always reports
/// `ImmutableGlobal` (by its contract, since the scan fails while the global
/// frame holds the name), however redundantly the name is absent locally.
pub proof fn law_global_immutable(env: EnvV, n: Seq<char>)
    requires
        env.len() >= 1,
        env[0].contains_key(n),
        forall|j: int| 1 <= j < env.len() ==> !(#[trigger] env[j]).contains_key(n),
    ensures
        change_idx(env, n) is None,
{
    lemma_change_idx(env, n);
}

/// Shadowing precedence: when a name is bound both in the global frame and
/// in an active local frame, lookup resolves it to a local frame — the
/// innermost one that binds it — never to the global binding.
pub proof fn law_shadowing(env: EnvV, n: Seq<char>, j: int)
    requires
        1 <= j < env.len(),
        env[j].contains_key(n),
        env[0].contains_key(n),
    ensures
        lookup_idx(env, n) is Some,
        lookup_idx(env, n).unwrap() >= j,
        lookup(env, n) == Some(env[lookup_idx(env, n).unwrap()][n]),
{
    lemma_lookup_idx(env, n);
}

/// Whatever a successful parameter binding pass produces, its names all come
/// from the initial frame or from the parameter list.
pub proof fn lemma_bind_dom(
    m: Map<Seq<char>, ExprV>,
    params: Seq<Seq<char>>,
    vals: Seq<ExprV>,
    k: Seq<char>,
)
    requires
        s_bind(m, params, vals) is Ok,
        s_bind(m, params, vals).unwrap().contains_key(k),
    ensures
        m.contains_key(k) || params.contains(k),
    decreases params.len(),
{
    if params.len() > 0 {
        lemma_bind_dom(m.insert(params[0], vals[0]), params.drop_first(), vals.drop_first(), k);
        if !m.insert(params[0], vals[0]).contains_key(k) {
            let i = choose|i: int| 0 <= i < params.drop_first().len() && params.drop_first()[i]
                == k;
            assert(params[i + 1] == k);
        } else if k != params[0] && !m.contains_key(k) {
            assert(false);
        } else if k == params[0] {
            assert(params[0] == k);
        }
    }
}

/// No closures over call-site locals: the environment a function body runs
/// in holds only the global frame plus the frame binding its parameters.  A
/// name that is neither global nor a parameter is unbound there — even when
/// the caller's local frames bind it — so a body that refers to a local of
/// its defining scope fails with `UnboundName` when the function is called.
pub proof fn law_no_local_capture(
    env: EnvV,
    params: Seq<Seq<char>>,
    vals: Seq<ExprV>,
    n: Seq<char>,
    fuel: u64,
)
    requires
        env.len() >= 1,
        !env[0].contains_key(n),
        !params.contains(n),
        s_bind(Map::empty(), params, vals) is Ok,
        fuel >= 1,
    ensures
        ({
            let act = seq![env[0], s_bind(Map::empty(), params, vals).unwrap()];
            s_eval(act, ExprV::Name(n), fuel) == (
                Err::<ExprV, Error>(Error::UnboundName),
                Seq::<Seq<char>>::empty(),
            )
        }),
{
    let m = s_bind(Map::empty(), params, vals).unwrap();
    if m.contains_key(n) {
        lemma_bind_dom(Map::empty(), params, vals, n);
    }
    let act = seq![env[0], m];
    assert(act.last() == m);
    assert(act.drop_last().last() == env[0]);
    assert(act.drop_last().drop_last().len() == 0);
    assert(lookup_idx(act.drop_last().drop_last(), n) is None);
    assert(lookup_idx(act.drop_last(), n) is None);
    assert(lookup_idx(act, n) is None);
}

/// Duplicate rejection: once `n` is bound in the topmost frame, binding `n`
/// there again fails with `DuplicateBinding`; binding the same name in a
/// freshly pushed frame succeeds (an inner scope may shadow an outer one).
pub proof fn law_duplicate_rejection(env: EnvV, n: Seq<char>, v1: ExprV, v2: ExprV)
    requires
        env.len() >= 1,
        !env.last().contains_key(n),
    ensures
        add_here(env, n, v1) is Ok,
        ({
            let env1 = add_here(env, n, v1).unwrap();
            &&& add_here(env1, n, v2) == Err::<EnvV, Error>(Error::DuplicateBinding)
            &&& add_here(env1.push(Map::empty()), n, v2) is Ok
        }),
{
    let env1 = add_here(env, n, v1).unwrap();
    assert(env1.last() == env.last().insert(n, v1));
    assert(env1.push(Map::empty()).last() =~= Map::<Seq<char>, ExprV>::empty());
}

/// Entry contract: once the definitions have run, a missing `main` aborts
/// the run with `EntryPointMissing`, and a `main` bound to anything but a
/// user-defined function aborts it with `EntryPointWrongType`.
pub proof fn law_entry_contract(env: EnvV, defs: Seq<DefinitionV>, fuel: u64)
    ensures
        ({
            let (rd, od) = s_run_defs(env, defs, fuel);
            rd is Ok ==> {
                let l = lookup(rd.unwrap(), entry_name());
                &&& (l is None ==> s_run(env, defs, fuel) == (
                    Err::<EnvV, Error>(Error::EntryPointMissing),
                    od,
                ))
                &&& (l is Some && !(l.unwrap() is Function) ==> s_run(env, defs, fuel) == (
                    Err::<EnvV, Error>(Error::EntryPointWrongType),
                    od,
                ))
            }
        }),
{
}

/// Argument evaluation order: in a call with two arguments, the output is
/// the callee's, then the first argument's, then the second argument's, then
/// the invocation's, concatenated in exactly that order — side effects of
/// the first argument are observable strictly before the second's.
pub proof fn law_argument_order(env: EnvV, f: ExprV, a1: ExprV, a2: ExprV, fuel: u64)
    requires
        env.len() >= 1,
        fuel >= 1,
    ensures
        ({
            let sub = (fuel - 1) as u64;
            let (rf, of) = s_eval(env, f, sub);
            let (r1, o1) = s_eval(env, a1, sub);
            let (r2, o2) = s_eval(env, a2, sub);
            rf is Ok && r1 is Ok && r2 is Ok ==> ({
                let (rr, or) = s_apply(env, rf.unwrap(), seq![r1.unwrap(), r2.unwrap()], sub);
                s_eval(env, ExprV::Call(Box::new(f), seq![a1, a2]), fuel).1 == of + o1 + o2 + or
            })
        }),
{
    let sub = (fuel - 1) as u64;
    let es = seq![a1, a2];
    let (rf, of) = s_eval(env, f, sub);
    let (r1, o1) = s_eval(env, a1, sub);
    let (r2, o2) = s_eval(env, a2, sub);
    if rf is Ok && r1 is Ok && r2 is Ok {
        assert(es[0] == a1);
        assert(es.drop_first() =~= seq![a2]);
        assert(seq![a2][0] == a2);
        assert(seq![a2].drop_first() =~= Seq::<ExprV>::empty());
        assert(crate::sema::s_eval_list(env, Seq::<ExprV>::empty(), sub) == (
            Ok::<Seq<ExprV>, Error>(Seq::<ExprV>::empty()),
            Seq::<Seq<char>>::empty(),
        ));
        assert(crate::sema::s_eval_list(env, seq![a2], sub) == (
            Ok::<Seq<ExprV>, Error>(seq![r2.unwrap()] + Seq::<ExprV>::empty()),
            o2 + Seq::<Seq<char>>::empty(),
        ));
        let (rl, ol) = crate::sema::s_eval_list(env, es, sub);
        assert(rl == Ok::<Seq<ExprV>, Error>(seq![r1.unwrap()] + (seq![r2.unwrap()]
            + Seq::<ExprV>::empty())));
        assert(seq![r1.unwrap()] + (seq![r2.unwrap()] + Seq::<ExprV>::empty()) =~= seq![
            r1.unwrap(),
            r2.unwrap(),
        ]);
        assert(ol == o1 + (o2 + Seq::<Seq<char>>::empty()));
        assert(o1 + (o2 + Seq::<Seq<char>>::empty()) =~= o1 + o2);
        let (rr, or) = s_apply(env, rf.unwrap(), seq![r1.unwrap(), r2.unwrap()], sub);
        assert(s_eval(env, ExprV::Call(Box::new(f), es), fuel).1 == of + (o1 + o2) + or);
        assert(of + (o1 + o2) + or =~= of + o1 + o2 + or);
    }
}

} // verus!
