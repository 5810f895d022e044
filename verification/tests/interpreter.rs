use minilang::{Bindings, Block, Definition, Error, Expr, FnDef, Program, Stmt};

const FUEL: u64 = 100;

fn lit(s: &str) -> Expr {
    Expr::Literal(s.to_string())
}

fn name(s: &str) -> Expr {
    Expr::Name(s.to_string())
}

fn call(callee: Expr, args: Vec<Expr>) -> Expr {
    Expr::Call(Box::new(callee), args)
}

fn def(n: &str, value: Expr) -> Definition {
    Definition::new(n.to_string(), value)
}

fn def_stmt(n: &str, value: Expr) -> Stmt {
    Stmt::Definition(def(n, value))
}

fn func(params: &[&str], stmts: Vec<Stmt>) -> Expr {
    FnDef::new(params.iter().map(|p| p.to_string()).collect(), Block::new(stmts))
}

fn fresh_env() -> Bindings {
    let mut env = Bindings::new();
    env.new_frame();
    env
}

#[test]
fn block_scope_is_torn_down() {
    let mut env = fresh_env();
    let block = Stmt::Block(Block::new(vec![def_stmt("x", lit("1"))]));
    let mut out: Vec<String> = Vec::new();
    assert!(block.execute(&mut env, FUEL, &mut out).is_ok());
    assert_eq!(env.get(&"x".to_string()).unwrap_err(), Error::UnboundName);
    assert!(out.is_empty());
}

#[test]
fn nested_block_scopes_are_torn_down() {
    let mut env = fresh_env();
    let inner = Stmt::Block(Block::new(vec![def_stmt("deep", lit("2"))]));
    let block = Stmt::Block(Block::new(vec![def_stmt("x", lit("1")), inner]));
    let mut out: Vec<String> = Vec::new();
    assert!(block.execute(&mut env, FUEL, &mut out).is_ok());
    assert_eq!(env.get(&"x".to_string()).unwrap_err(), Error::UnboundName);
    assert_eq!(env.get(&"deep".to_string()).unwrap_err(), Error::UnboundName);
}

#[test]
fn literal_evaluates_to_itself() {
    let env = fresh_env();
    let mut out: Vec<String> = Vec::new();
    let v = lit("hi").evaluate(&env, FUEL, &mut out).unwrap();
    assert_eq!(v.render(), "hi");
    assert!(out.is_empty());
}

#[test]
fn name_evaluates_to_binding() {
    let mut env = fresh_env();
    assert!(env.add("x".to_string(), std::rc::Rc::new(lit("42"))).is_ok());
    let mut out: Vec<String> = Vec::new();
    let v = name("x").evaluate(&env, FUEL, &mut out).unwrap();
    assert_eq!(v.render(), "42");
}

#[test]
fn unbound_name_fails_evaluation() {
    let env = fresh_env();
    let mut out: Vec<String> = Vec::new();
    assert_eq!(name("ghost").evaluate(&env, FUEL, &mut out).unwrap_err(), Error::UnboundName);
}

#[test]
fn hello_program_prints_hello() {
    let mut p = Program::new();
    p.add(def("main", func(&[], vec![def_stmt("t", call(name("print"), vec![lit("hello")]))])));
    assert_eq!(p.run(FUEL), Ok(vec!["hello".to_string()]));
}

#[test]
fn missing_entry_point_fails() {
    let mut p = Program::new();
    p.add(def("helper", lit("1")));
    assert_eq!(p.run(FUEL), Err(Error::EntryPointMissing));
}

#[test]
fn non_function_entry_point_fails() {
    let mut p = Program::new();
    p.add(def("main", lit("5")));
    assert_eq!(p.run(FUEL), Err(Error::EntryPointWrongType));
}

#[test]
fn builtin_entry_point_fails() {
    let mut p = Program::new();
    p.add(def("main", name("print")));
    assert_eq!(p.run(FUEL), Err(Error::EntryPointWrongType));
}

#[test]
fn arguments_evaluate_left_to_right() {
    let mut p = Program::new();
    p.add(def("noop", func(&["p", "q"], vec![])));
    p.add(def(
        "main",
        func(
            &[],
            vec![def_stmt(
                "t",
                call(
                    name("noop"),
                    vec![
                        call(name("print"), vec![lit("first")]),
                        call(name("print"), vec![lit("second")]),
                    ],
                ),
            )],
        ),
    ));
    assert_eq!(p.run(FUEL), Ok(vec!["first".to_string(), "second".to_string()]));
}

#[test]
fn top_level_output_precedes_entry_output() {
    let mut p = Program::new();
    p.add(def("early", call(name("print"), vec![lit("setup")])));
    p.add(def("main", func(&[], vec![def_stmt("t", call(name("print"), vec![lit("late")]))])));
    assert_eq!(p.run(FUEL), Ok(vec!["setup".to_string(), "late".to_string()]));
}

#[test]
fn functions_do_not_capture_locals() {
    // `f` is defined inside `main`'s body and refers to `main`'s local `x`;
    // its activation sees only the globals plus its own parameters, so the
    // reference is unbound at call time.
    let mut p = Program::new();
    p.add(def(
        "main",
        func(
            &[],
            vec![
                def_stmt("x", lit("1")),
                def_stmt("f", func(&[], vec![def_stmt("y", name("x"))])),
                def_stmt("t", call(name("f"), vec![])),
            ],
        ),
    ));
    assert_eq!(p.run(FUEL), Err(Error::UnboundName));
}

#[test]
fn functions_see_globals() {
    let mut p = Program::new();
    p.add(def("greeting", lit("salut")));
    p.add(def(
        "main",
        func(&[], vec![def_stmt("t", call(name("print"), vec![name("greeting")]))]),
    ));
    assert_eq!(p.run(FUEL), Ok(vec!["salut".to_string()]));
}

#[test]
fn parameters_are_bound_to_arguments() {
    let mut p = Program::new();
    p.add(def("echo", func(&["msg"], vec![def_stmt("t", call(name("print"), vec![name("msg")]))])));
    p.add(def("main", func(&[], vec![def_stmt("t", call(name("echo"), vec![lit("bonjour")]))])));
    assert_eq!(p.run(FUEL), Ok(vec!["bonjour".to_string()]));
}

#[test]
fn calling_a_literal_fails() {
    let mut p = Program::new();
    p.add(def("main", func(&[], vec![def_stmt("t", call(lit("5"), vec![]))])));
    assert_eq!(p.run(FUEL), Err(Error::NotCallable));
}

#[test]
fn function_arity_is_checked() {
    let mut p = Program::new();
    p.add(def("helper", func(&["p"], vec![])));
    p.add(def("main", func(&[], vec![def_stmt("t", call(name("helper"), vec![]))])));
    assert_eq!(p.run(FUEL), Err(Error::ArityMismatch));
}

#[test]
fn builtin_arity_is_checked() {
    let mut p = Program::new();
    p.add(def("main", func(&[], vec![def_stmt("t", call(name("print"), vec![]))])));
    assert_eq!(p.run(FUEL), Err(Error::ArityMismatch));
}

#[test]
fn entry_point_with_parameters_fails() {
    let mut p = Program::new();
    p.add(def("main", func(&["unexpected"], vec![])));
    assert_eq!(p.run(FUEL), Err(Error::ArityMismatch));
}

#[test]
fn duplicate_top_level_definition_fails() {
    let mut p = Program::new();
    p.add(def("v", lit("1")));
    p.add(def("v", lit("2")));
    assert_eq!(p.run(FUEL), Err(Error::DuplicateBinding));
}

#[test]
fn user_definition_named_print_collides_with_builtin() {
    let mut p = Program::new();
    p.add(def("print", lit("mine")));
    assert_eq!(p.run(FUEL), Err(Error::DuplicateBinding));
}

#[test]
fn exhausted_fuel_is_reported() {
    let mut p = Program::new();
    p.add(def("main", func(&[], vec![])));
    assert_eq!(p.run(0), Err(Error::OutOfFuel));
}

#[test]
fn printing_a_function_renders_it() {
    let mut p = Program::new();
    p.add(def("helper", func(&["a", "b"], vec![])));
    p.add(def("main", func(&[], vec![def_stmt("t", call(name("print"), vec![name("helper")]))])));
    assert_eq!(p.run(FUEL), Ok(vec!["FUNCTION(a,b)".to_string()]));
}
