use minilang::{Block, Definition, Expr, FnDef, Stmt};

fn lit(s: &str) -> Expr {
    Expr::Literal(s.to_string())
}

#[test]
fn literal_renders_its_text() {
    assert_eq!(lit("hello").render(), "hello");
}

#[test]
fn name_renders_its_text() {
    assert_eq!(Expr::Name("x".to_string()).render(), "x");
}

#[test]
fn builtin_renders_its_name() {
    assert_eq!(Expr::Builtin("print".to_string()).render(), "print");
}

#[test]
fn function_renders_its_parameters() {
    let f = FnDef::new(vec!["a".to_string(), "b".to_string()], Block::new(vec![]));
    assert_eq!(f.render(), "FUNCTION(a,b)");
    let nullary = FnDef::new(vec![], Block::new(vec![]));
    assert_eq!(nullary.render(), "FUNCTION()");
}

#[test]
fn call_renders_callee_and_arguments() {
    let c = Expr::Call(Box::new(Expr::Name("f".to_string())), vec![lit("1"), lit("2")]);
    assert_eq!(c.render(), "f(1,2)");
}

#[test]
fn definition_renders_name_and_value() {
    let d = Definition::new("x".to_string(), lit("1"));
    assert_eq!(d.render(), "DEFINE x = 1");
    assert_eq!(Stmt::Definition(d).render(), "DEFINE x = 1");
}

#[test]
fn call_of_rendered_function_nests() {
    let f = FnDef::new(vec!["a".to_string()], Block::new(vec![]));
    let c = Expr::Call(Box::new(f), vec![lit("9")]);
    assert_eq!(c.render(), "FUNCTION(a)(9)");
}

#[test]
fn block_renders_its_statements() {
    let b = Block::new(vec![
        Stmt::Definition(Definition::new("x".to_string(), lit("1"))),
        Stmt::Definition(Definition::new("y".to_string(), lit("2"))),
    ]);
    assert_eq!(b.render(), "{ DEFINE x = 1; DEFINE y = 2 }");
}

#[test]
fn empty_block_renders_braces() {
    assert_eq!(Block::new(vec![]).render(), "{  }");
}
