//! Behavioural tests of the symbolic tier, where functions are identified
//! by name and function types carry no constant parameters.

use sire::lang::{Expr, FuncDef, Ty, Value};
use sire::op::BinOp;

fn cint(v: u128) -> Expr {
    Expr::Value(Value::Const(v, Ty::Int(32)))
}

fn fun(name: &str, ty: Ty) -> Expr {
    Expr::Value(Value::Function(String::from(name), ty))
}

#[test]
fn lang_ty_size() {
    assert_eq!(Ty::Int(64).size(), Some(64));
    assert_eq!(Ty::Uint(1).size(), Some(1));
    assert_eq!(Ty::Bool.size(), Some(8));
    assert_eq!(Ty::Func(vec![Ty::Bool]).size(), None);
}

#[test]
fn lang_value_ty() {
    assert_eq!(Value::Arg(0, Ty::Int(32)).ty(), Ty::Int(32));
    assert_eq!(Value::Const(5, Ty::Uint(8)).ty(), Ty::Uint(8));
    let fty = Ty::Func(vec![Ty::Int(32)]);
    assert_eq!(Value::Function(String::from("fib"), fty.clone()).ty(), fty);
}

#[test]
fn lang_expr_ty_comparison_and_arithmetic() {
    let lt = Expr::BinaryOp(BinOp::Lt, Box::new(cint(3)), Box::new(cint(4)));
    assert_eq!(lt.ty(), Ty::Bool);
    let add = Expr::BinaryOp(BinOp::Add, Box::new(cint(3)), Box::new(cint(4)));
    assert_eq!(add.ty(), Ty::Int(32));
}

#[test]
fn lang_expr_ty_apply_and_switch() {
    let fty = Ty::Func(vec![Ty::Uint(16), Ty::Int(32)]);
    let call = Expr::Apply(Box::new(fun("half", fty)), vec![cint(8)]);
    assert_eq!(call.ty(), Ty::Uint(16));
    let sw = Expr::Switch(Box::new(cint(0)), vec![cint(1)], vec![cint(2), cint(3)]);
    assert_eq!(sw.ty(), Ty::Int(32));
}

#[test]
fn lang_replace_without_occurrence_changes_nothing() {
    let mut e = Expr::BinaryOp(BinOp::Rem, Box::new(cint(9)), Box::new(cint(2)));
    let orig = e.clone();
    e.replace(&cint(5), &Expr::Nil);
    assert_eq!(e, orig);
}

#[test]
fn lang_replace_inlines_named_callee() {
    let fty = Ty::Func(vec![Ty::Int(32), Ty::Int(32)]);
    let target = fun("twice", fty.clone());
    let mut e = Expr::Apply(Box::new(target.clone()), vec![cint(21)]);
    let g = fun("double", fty);
    e.replace(&target, &g);
    match e {
        Expr::Apply(callee, args) => {
            assert_eq!(*callee, g);
            assert_eq!(args, vec![cint(21)]);
        }
        _ => panic!("substitution must keep the application node"),
    }
}

#[test]
fn lang_nil_matches_only_itself() {
    let mut e = Expr::Nil;
    e.replace(&Expr::Nil, &cint(1));
    assert_eq!(e, cint(1));

    let mut f = cint(2);
    f.replace(&Expr::Nil, &cint(1));
    assert_eq!(f, cint(2));
}

#[test]
fn lang_funcdef_clone_is_deep_equal() {
    let f = FuncDef {
        name: String::from("main"),
        body: cint(0),
        ty: Ty::Func(vec![Ty::Int(32)]),
    };
    let g = f.clone();
    assert_eq!(g.name, f.name);
    assert_eq!(g.body, f.body);
    assert_eq!(g.ty, f.ty);
}
