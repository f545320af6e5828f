//! Behavioural tests of the resolved tier: structural operations, type
//! derivation and canonical rendering.

use sire::op::BinOp;
use sire::sir::{DefId, Expr, FuncDef, Param, Ty, Value};

fn int32() -> Ty {
    Ty::Int(32)
}

fn cint(v: u128) -> Expr {
    Expr::Value(Value::Const(v, Ty::Int(32)))
}

fn cuint8(v: u128) -> Expr {
    Expr::Value(Value::Const(v, Ty::Uint(8)))
}

fn def(krate: u32, index: u32) -> DefId {
    DefId { krate, index }
}

#[test]
fn ty_size_scalars() {
    assert_eq!(Ty::Int(32).size(), Some(32));
    assert_eq!(Ty::Uint(16).size(), Some(16));
    assert_eq!(Ty::Bool.size(), Some(8));
}

#[test]
fn ty_size_func_is_none() {
    let f = Ty::Func(vec![Ty::Int(32)], vec![]);
    assert_eq!(f.size(), None);
}

#[test]
fn param_ty_returns_stored_type() {
    let p = Param::Const(2, Ty::Uint(64));
    assert_eq!(p.ty(), Ty::Uint(64));
}

#[test]
fn value_ty_all_variants() {
    assert_eq!(Value::Arg(0, int32()).ty(), Ty::Int(32));
    assert_eq!(Value::Const(7, Ty::Bool).ty(), Ty::Bool);
    let fty = Ty::Func(vec![Ty::Int(8)], vec![]);
    assert_eq!(Value::Function(def(0, 1), fty.clone()).ty(), fty);
    assert_eq!(Value::ConstParam(Param::Const(1, Ty::Uint(8))).ty(), Ty::Uint(8));
}

#[test]
fn expr_ty_comparison_is_bool() {
    let e = Expr::BinaryOp(BinOp::Lt, Box::new(cint(3)), Box::new(cint(4)));
    assert_eq!(e.ty(), Ty::Bool);
}

#[test]
fn expr_ty_arithmetic_keeps_operand_type() {
    let e = Expr::BinaryOp(BinOp::Add, Box::new(cint(3)), Box::new(cint(4)));
    assert_eq!(e.ty(), Ty::Int(32));
}

#[test]
fn expr_ty_apply_takes_first_slot_of_callee() {
    let fty = Ty::Func(vec![Ty::Bool, Ty::Int(32)], vec![]);
    let e = Expr::Apply(
        Box::new(Expr::Value(Value::Function(def(0, 3), fty))),
        vec![cint(1)],
    );
    assert_eq!(e.ty(), Ty::Bool);
}

#[test]
fn expr_ty_switch_takes_first_target_type() {
    let e = Expr::Switch(
        Box::new(cuint8(0)),
        vec![cuint8(1)],
        vec![cint(10), cint(20)],
    );
    assert_eq!(e.ty(), Ty::Int(32));
}

#[test]
fn contains_is_reflexive() {
    let e = Expr::BinaryOp(BinOp::Mul, Box::new(cint(2)), Box::new(cint(3)));
    assert!(e.contains(&e));
    let leaf = cint(9);
    assert!(leaf.contains(&leaf));
}

#[test]
fn contains_finds_nested_sub_expression() {
    let inner = Expr::BinaryOp(BinOp::Add, Box::new(cint(1)), Box::new(cint(2)));
    let e = Expr::Apply(
        Box::new(Expr::Value(Value::Function(
            def(0, 1),
            Ty::Func(vec![Ty::Int(32), Ty::Int(32)], vec![]),
        ))),
        vec![Expr::BinaryOp(BinOp::Sub, Box::new(inner.clone()), Box::new(cint(3)))],
    );
    assert!(e.contains(&inner));
    assert!(e.contains(&cint(2)));
}

#[test]
fn contains_rejects_absent_term() {
    let e = Expr::BinaryOp(BinOp::Add, Box::new(cint(1)), Box::new(cint(2)));
    assert!(!e.contains(&cint(3)));
    assert!(!e.contains(&Expr::Uninitialized));
}

#[test]
fn replace_without_occurrence_changes_nothing() {
    let mut e = Expr::Switch(
        Box::new(cuint8(1)),
        vec![cuint8(2)],
        vec![cint(1), cint(2)],
    );
    let orig = e.clone();
    e.replace(&cint(99), &Expr::Uninitialized);
    assert_eq!(e, orig);
}

#[test]
fn replace_swaps_callee_and_keeps_args() {
    let fty = Ty::Func(vec![Ty::Int(32), Ty::Int(32)], vec![]);
    let target = Expr::Value(Value::Function(def(0, 5), fty.clone()));
    let args = vec![Expr::Value(Value::Arg(0, int32())), cint(7)];
    let mut e = Expr::Apply(Box::new(target.clone()), args.clone());
    let g = Expr::Value(Value::Function(def(0, 9), fty));
    e.replace(&target, &g);
    match e {
        Expr::Apply(callee, out_args) => {
            assert_eq!(*callee, g);
            assert_eq!(out_args, args);
        }
        _ => panic!("substitution must keep the application node"),
    }
}

#[test]
fn replace_does_not_descend_into_substitution() {
    let target = cint(1);
    let sub = Expr::BinaryOp(BinOp::Add, Box::new(cint(1)), Box::new(cint(1)));
    let mut e = cint(1);
    e.replace(&target, &sub);
    // The occurrences of the target inside the replacement stay untouched.
    assert_eq!(e, sub);
}

#[test]
fn replace_rewrites_every_occurrence() {
    let mut e = Expr::BinaryOp(BinOp::Add, Box::new(cint(1)), Box::new(cint(1)));
    e.replace(&cint(1), &cint(2));
    assert_eq!(
        e,
        Expr::BinaryOp(BinOp::Add, Box::new(cint(2)), Box::new(cint(2)))
    );
}

#[test]
fn is_recursive_detects_self_reference() {
    let selfty = Ty::Func(vec![Ty::Int(32), Ty::Int(32)], vec![]);
    let selfid = def(0, 11);
    let body = Expr::Apply(
        Box::new(Expr::Value(Value::Function(selfid, selfty.clone()))),
        vec![Expr::Value(Value::Arg(0, Ty::Int(32)))],
    );
    let f = FuncDef { def_id: selfid, body, ty: selfty };
    assert!(f.is_recursive());
}

#[test]
fn is_recursive_false_without_self_reference() {
    let selfty = Ty::Func(vec![Ty::Int(32), Ty::Int(32)], vec![]);
    let other = Expr::Value(Value::Function(def(0, 12), selfty.clone()));
    let f = FuncDef {
        def_id: def(0, 11),
        body: Expr::Apply(Box::new(other), vec![Expr::Value(Value::Arg(0, Ty::Int(32)))]),
        ty: selfty,
    };
    assert!(!f.is_recursive());
}

#[test]
fn is_recursive_needs_matching_type_tag() {
    // The self-reference check is type-tagged: the same identity under a
    // different type is not a match.
    let selfty = Ty::Func(vec![Ty::Int(32), Ty::Int(32)], vec![]);
    let otherty = Ty::Func(vec![Ty::Bool], vec![]);
    let selfid = def(0, 11);
    let f = FuncDef {
        def_id: selfid,
        body: Expr::Value(Value::Function(selfid, otherty)),
        ty: selfty,
    };
    assert!(!f.is_recursive());
}

#[test]
fn switch_selects_matching_case() {
    let a = cint(100);
    let b = cint(200);
    let c = cint(300);
    let e = Expr::Switch(
        Box::new(cuint8(5)),
        vec![cuint8(1), cuint8(5)],
        vec![a, b.clone(), c],
    );
    assert_eq!(*e.switch_target(), b);
}

#[test]
fn switch_falls_back_to_last_target() {
    let a = cint(100);
    let b = cint(200);
    let c = cint(300);
    let e = Expr::Switch(
        Box::new(cuint8(9)),
        vec![cuint8(1), cuint8(5)],
        vec![a, b, c.clone()],
    );
    assert_eq!(*e.switch_target(), c);
}

#[test]
fn render_ty_forms() {
    assert_eq!(Ty::Int(32).to_text(), "(int 32)");
    assert_eq!(Ty::Uint(8).to_text(), "(uint 8)");
    assert_eq!(Ty::Bool.to_text(), "bool");
    let f = Ty::Func(vec![Ty::Int(32), Ty::Bool], vec![Param::Const(0, Ty::Int(8))]);
    // A bare function type renders its argument types only.
    assert_eq!(f.to_text(), "(int 32) bool");
}

#[test]
fn render_param() {
    assert_eq!(Param::Const(0, Ty::Int(8)).to_text(), "(p0 (int 8))");
}

#[test]
fn render_values() {
    assert_eq!(Value::Arg(3, int32()).to_text(), "_3");
    assert_eq!(Value::Const(42, int32()).to_text(), "(const (int 32) 42)");
    let fty = Ty::Func(vec![Ty::Int(8)], vec![]);
    assert_eq!(Value::Function(def(0, 7), fty).to_text(), "DefId(0:7)");
    assert_eq!(Value::ConstParam(Param::Const(1, Ty::Bool)).to_text(), "p1");
}

#[test]
fn render_binary_op() {
    let e = Expr::BinaryOp(BinOp::Add, Box::new(cint(3)), Box::new(cint(4)));
    assert_eq!(e.to_text(), "(+ (const (int 32) 3) (const (int 32) 4))");
    let lt = Expr::BinaryOp(BinOp::Lt, Box::new(cint(3)), Box::new(cint(4)));
    assert_eq!(lt.to_text(), "(< (const (int 32) 3) (const (int 32) 4))");
}

#[test]
fn render_apply() {
    let fty = Ty::Func(vec![Ty::Int(32), Ty::Int(32)], vec![]);
    let e = Expr::Apply(
        Box::new(Expr::Value(Value::Function(def(0, 1), fty))),
        vec![Expr::Value(Value::Arg(0, int32()))],
    );
    assert_eq!(e.to_text(), "(DefId(0:1) _0)");
}

#[test]
fn render_switch() {
    let e = Expr::Switch(
        Box::new(cuint8(5)),
        vec![cuint8(1)],
        vec![Expr::Value(Value::Arg(0, Ty::Int(8))), Expr::Value(Value::Arg(1, Ty::Int(8)))],
    );
    assert_eq!(
        e.to_text(),
        "(switch (const (uint 8) 5) ((const (uint 8) 1) -> _0) (else -> _1))"
    );
}

#[test]
fn render_switch_without_cases() {
    let e = Expr::Switch(Box::new(cuint8(5)), vec![], vec![cint(1)]);
    assert_eq!(
        e.to_text(),
        "(switch (const (uint 8) 5)  (else -> (const (int 32) 1)))"
    );
}

#[test]
fn render_uninitialized_placeholder() {
    assert_eq!(Expr::Uninitialized.to_text(), "uninitialized");
}

#[test]
fn render_funcdef() {
    let ty = Ty::Func(vec![Ty::Int(32), Ty::Int(32)], vec![Param::Const(0, Ty::Int(8))]);
    let f = FuncDef {
        def_id: def(0, 1),
        body: Expr::Value(Value::Arg(0, int32())),
        ty,
    };
    assert_eq!(f.to_text(), "(defun DefId(0:1)<(p0 (int 8))> (int 32) (int 32) _0)");
}

#[test]
fn rendering_is_deterministic() {
    let build = || {
        Expr::Switch(
            Box::new(cuint8(5)),
            vec![cuint8(1), cuint8(2)],
            vec![cint(1), cint(2), cint(3)],
        )
    };
    assert_eq!(build().to_text(), build().to_text());
}

#[test]
fn rendering_distinguishes_operators_literals_and_order() {
    let add = Expr::BinaryOp(BinOp::Add, Box::new(cint(3)), Box::new(cint(4)));
    let le = Expr::BinaryOp(BinOp::Le, Box::new(cint(3)), Box::new(cint(4)));
    let lt = Expr::BinaryOp(BinOp::Lt, Box::new(cint(3)), Box::new(cint(4)));
    assert_ne!(add.to_text(), le.to_text());
    assert_ne!(lt.to_text(), le.to_text());

    let other_literal = Expr::BinaryOp(BinOp::Add, Box::new(cint(3)), Box::new(cint(40)));
    assert_ne!(add.to_text(), other_literal.to_text());

    let swapped = Expr::BinaryOp(BinOp::Add, Box::new(cint(4)), Box::new(cint(3)));
    assert_ne!(add.to_text(), swapped.to_text());
}

#[test]
fn deep_equality_is_structural() {
    let a = Expr::Apply(Box::new(cint(1)), vec![cint(2), cint(3)]);
    let b = Expr::Apply(Box::new(cint(1)), vec![cint(2), cint(3)]);
    let c = Expr::Apply(Box::new(cint(1)), vec![cint(3), cint(2)]);
    assert_eq!(a, b);
    assert_ne!(a, c);
    assert_ne!(a, Expr::Uninitialized);
    assert_eq!(Expr::Uninitialized, Expr::Uninitialized);
}

#[test]
fn clone_makes_equal_trees() {
    let e = Expr::Switch(
        Box::new(cuint8(5)),
        vec![cuint8(1)],
        vec![cint(1), cint(2)],
    );
    assert_eq!(e.clone(), e);
    let f = FuncDef {
        def_id: def(1, 2),
        body: e,
        ty: Ty::Func(vec![Ty::Int(32)], vec![]),
    };
    let g = f.clone();
    assert_eq!(g.def_id, f.def_id);
    assert_eq!(g.body, f.body);
    assert_eq!(g.ty, f.ty);
}
