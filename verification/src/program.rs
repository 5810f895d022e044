use vstd::prelude::*;
use vstd::string::StringExecFns;
use std::rc::Rc;

use crate::ast::{Definition, DefinitionV, Expr, ExprV};
use crate::bindings::{lookup, Bindings};
use crate::error::Error;
use crate::interp::{apply, vals_view};
use crate::sema::{entry_name, s_apply, s_exec_def, s_run, s_run_defs};

verus! {

/// The models of a sequence of top-level definitions.
pub open spec fn view_defs(s: Seq<Definition>) -> Seq<DefinitionV> {
    Seq::new(s.len(), |i: int| s[i]@)
}

/// A whole program: the global environment, seeded with the built-ins, plus
/// the ordered top-level definitions.
pub struct Program {
    pub bindings: Bindings,
    pub prog: Vec<Definition>,
}

impl Program {
    /// The global frame exists, is well-formed, and is the only frame.
    pub open spec fn wf(&self) -> bool {
        &&& self.bindings.wf()
        &&& self.bindings@.len() == 1
    }

    /// A program with no definitions yet, whose global frame holds the one
    /// shipped built-in: `print`, bound to a builtin value of that name.
    pub fn new() -> (r: Program)
        ensures
            r.wf(),
            r.bindings@ =~= seq![
                Map::<Seq<char>, ExprV>::empty().insert("print"@, ExprV::Builtin("print"@)),
            ],
            r.prog@ == Seq::<Definition>::empty(),
    {
        let mut bindings = Bindings::new();
        bindings.new_frame();
        let added = bindings.add(
            String::from_str("print"),
            Rc::new(Expr::Builtin(String::from_str("print"))),
        );
        match added {
            Ok(_) => {},
            Err(_) => {
                proof {
                    assert(false);
                }
            },
        }
        Program { bindings, prog: Vec::new() }
    }

    /// Append a top-level definition; nothing runs until `run`.
    pub fn add(&mut self, def: Definition)
        requires
            old(self).wf(),
        ensures
            final(self).wf(),
            final(self).bindings == old(self).bindings,
            final(self).prog@ == old(self).prog@.push(def),
    {
        self.prog.push(def);
    }

    /// Run the program: execute every definition, in order, against the
    /// global environment; then resolve `main`, require it to be a
    /// user-defined function, and call it with no arguments.  On success the
    /// result is every line the run printed, in order; otherwise it is the
    /// error that aborted the run, exactly as `s_run` assigns it.
    pub fn run(&mut self, fuel: u64) -> (r: Result<Vec<String>, Error>)
        requires
            old(self).wf(),
        ensures
            final(self).wf(),
            final(self).prog == old(self).prog,
            ({
                let (sr, so) = s_run(old(self).bindings@, view_defs(old(self).prog@), fuel);
                match (r, sr) {
                    (Ok(lines), Ok(env2)) => lines.deep_view() == so && final(self).bindings@
                        == env2,
                    (Err(a), Err(b)) => a == b,
                    _ => false,
                }
            }),
    {
        let mut out: Vec<String> = Vec::new();
        proof {
            assert(out.deep_view() =~= Seq::<Seq<char>>::empty());
            assert(view_defs(self.prog@).skip(0) =~= view_defs(self.prog@));
        }
        let rd = run_defs(&mut self.bindings, &self.prog, 0, fuel, &mut out);
        match rd {
            Err(e) => {
                return Err(e);
            },
            Ok(_) => {},
        }
        let entry = String::from_str("main");
        let looked = self.bindings.get(&entry);
        let mainv = match looked {
            Err(_) => {
                return Err(Error::EntryPointMissing);
            },
            Ok(mainv) => mainv,
        };
        match &(*mainv) {
            Expr::Function(_) => {},
            Expr::Literal(_) => {
                return Err(Error::EntryPointWrongType);
            },
            Expr::Name(_) => {
                return Err(Error::EntryPointWrongType);
            },
            Expr::Builtin(_) => {
                return Err(Error::EntryPointWrongType);
            },
            Expr::Call(_, _) => {
                return Err(Error::EntryPointWrongType);
            },
        }
        let noargs: Vec<Rc<Expr>> = Vec::new();
        proof {
            assert(vals_view(noargs@) =~= Seq::<ExprV>::empty());
        }
        let rm = apply(&self.bindings, &mainv, &noargs, fuel, &mut out);
        proof {
            let (rd_s, od) = s_run_defs(old(self).bindings@, view_defs(old(self).prog@), fuel);
            let m = lookup(rd_s.unwrap(), entry_name()).unwrap();
            let (rm_s, om) = s_apply(rd_s.unwrap(), m, Seq::empty(), fuel);
            assert(Seq::<Seq<char>>::empty() + od + om =~= od + om);
        }
        match rm {
            Err(e) => Err(e),
            Ok(_) => Ok(out),
        }
    }
}

/// Execute the definitions from position `i` on, in program order, stopping
/// at the first error, exactly as `s_run_defs` reads the same suffix.
fn run_defs(
    env: &mut Bindings,
    defs: &Vec<Definition>,
    i: usize,
    fuel: u64,
    out: &mut Vec<String>,
) -> (r: Result<(), Error>)
    requires
        old(env).wf(),
        old(env)@.len() >= 1,
        i <= defs@.len(),
    ensures
        final(env).wf(),
        final(env)@.len() == old(env)@.len(),
        ({
            let (sr, so) = s_run_defs(old(env)@, view_defs(defs@).skip(i as int), fuel);
            &&& final(out).deep_view() == old(out).deep_view() + so
            &&& match (r, sr) {
                (Ok(_), Ok(env2)) => final(env)@ == env2,
                (Err(a), Err(b)) => a == b,
                _ => false,
            }
        }),
    decreases defs@.len() - i,
{
    if i == defs.len() {
        proof {
            assert(view_defs(defs@).skip(i as int) =~= Seq::<DefinitionV>::empty());
            assert(old(out).deep_view() + Seq::<Seq<char>>::empty() =~= old(out).deep_view());
        }
        return Ok(());
    }
    proof {
        assert(view_defs(defs@).skip(i as int)[0] == defs@[i as int]@);
        assert(view_defs(defs@).skip(i as int).drop_first() =~= view_defs(defs@).skip(
            i as int + 1,
        ));
    }
    let r0 = defs[i].execute(env, fuel, out);
    match r0 {
        Err(e) => {
            return Err(e);
        },
        Ok(_) => {},
    }
    let rr = run_defs(env, defs, i + 1, fuel, out);
    proof {
        let (r0_s, o0) = s_exec_def(old(env)@, defs@[i as int]@, fuel);
        let (rr_s, o1) = s_run_defs(r0_s.unwrap(), view_defs(defs@).skip(i as int + 1), fuel);
        assert(old(out).deep_view() + o0 + o1 =~= old(out).deep_view() + (o0 + o1));
    }
    rr
}

} // verus!
