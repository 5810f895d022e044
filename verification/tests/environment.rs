use std::rc::Rc;

use minilang::{Bindings, Error, Expr};

fn lit(s: &str) -> Rc<Expr> {
    Rc::new(Expr::Literal(s.to_string()))
}

fn fresh_env() -> Bindings {
    let mut env = Bindings::new();
    env.new_frame();
    env
}

#[test]
fn add_and_get_roundtrip() {
    let mut env = fresh_env();
    assert!(env.add("x".to_string(), lit("1")).is_ok());
    let got = env.get(&"x".to_string()).unwrap();
    assert_eq!(got.render(), "1");
}

#[test]
fn get_unbound_fails() {
    let env = fresh_env();
    assert_eq!(env.get(&"nope".to_string()).unwrap_err(), Error::UnboundName);
}

#[test]
fn duplicate_in_same_frame_rejected() {
    let mut env = fresh_env();
    assert!(env.add("a".to_string(), lit("1")).is_ok());
    assert_eq!(env.add("a".to_string(), lit("2")).unwrap_err(), Error::DuplicateBinding);
    // The first binding is untouched by the failed attempt.
    assert_eq!(env.get(&"a".to_string()).unwrap().render(), "1");
}

#[test]
fn duplicate_in_inner_frame_accepted() {
    let mut env = fresh_env();
    assert!(env.add("a".to_string(), lit("outer")).is_ok());
    env.new_frame();
    assert!(env.add("a".to_string(), lit("inner")).is_ok());
}

#[test]
fn shadowing_prefers_local() {
    let mut env = fresh_env();
    assert!(env.add("n".to_string(), lit("global")).is_ok());
    env.new_frame();
    assert!(env.add("n".to_string(), lit("local")).is_ok());
    assert_eq!(env.get(&"n".to_string()).unwrap().render(), "local");
}

#[test]
fn change_global_rejected() {
    let mut env = fresh_env();
    assert!(env.add("g".to_string(), lit("1")).is_ok());
    assert_eq!(env.change(&"g".to_string(), lit("2")).unwrap_err(), Error::ImmutableGlobal);
    // Still rejected when local frames exist but do not bind the name.
    env.new_frame();
    assert_eq!(env.change(&"g".to_string(), lit("2")).unwrap_err(), Error::ImmutableGlobal);
    assert_eq!(env.get(&"g".to_string()).unwrap().render(), "1");
}

#[test]
fn change_unbound_rejected() {
    let mut env = fresh_env();
    env.new_frame();
    assert_eq!(env.change(&"missing".to_string(), lit("2")).unwrap_err(), Error::UnboundName);
}

#[test]
fn change_local_succeeds() {
    let mut env = fresh_env();
    env.new_frame();
    assert!(env.add("x".to_string(), lit("1")).is_ok());
    assert!(env.change(&"x".to_string(), lit("2")).is_ok());
    assert_eq!(env.get(&"x".to_string()).unwrap().render(), "2");
}

#[test]
fn change_targets_innermost_local() {
    let mut env = fresh_env();
    env.new_frame();
    assert!(env.add("x".to_string(), lit("outer")).is_ok());
    env.new_frame();
    assert!(env.add("x".to_string(), lit("inner")).is_ok());
    assert!(env.change(&"x".to_string(), lit("patched")).is_ok());
    assert_eq!(env.get(&"x".to_string()).unwrap().render(), "patched");
}

#[test]
fn globals_only_drops_caller_locals() {
    let mut env = fresh_env();
    assert!(env.add("g".to_string(), lit("1")).is_ok());
    env.new_frame();
    assert!(env.add("local".to_string(), lit("2")).is_ok());
    let derived = env.new_with_globals();
    assert_eq!(derived.get(&"g".to_string()).unwrap().render(), "1");
    assert_eq!(derived.get(&"local".to_string()).unwrap_err(), Error::UnboundName);
}
