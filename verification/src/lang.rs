//! The symbolic tier of the representation: functions are identified by a
//! human-readable name, and there is no notion of compile-time constant
//! parameters.

use vstd::prelude::*;

use crate::op::spec_is_comparison;
use crate::op::BinOp;

verus! {

/// A type of the symbolic tier. `Func` carries the ordered argument types;
/// the first doubles as the result type.
#[derive(Debug, Hash)]
pub enum Ty {
    Int(usize),
    Uint(usize),
    Bool,
    Func(Vec<Ty>),
}

/// A leaf of an expression tree of the symbolic tier.
#[derive(Debug, Hash)]
pub enum Value {
    /// A reference to the enclosing function's runtime argument.
    Arg(usize, Ty),
    /// A literal constant, stored as an unsigned magnitude.
    Const(u128, Ty),
    /// A reference to another function definition, by name.
    Function(String, Ty),
}

/// An expression tree of the symbolic tier.
#[derive(Debug)]
pub enum Expr {
    Value(Value),
    /// Applies the first expression (of function type) to the arguments.
    Apply(Box<Expr>, Vec<Expr>),
    BinaryOp(BinOp, Box<Expr>, Box<Expr>),
    /// The only branching construct; the last target is the default.
    Switch(Box<Expr>, Vec<Expr>, Vec<Expr>),
    /// A placeholder for a value not yet produced; structural operations
    /// treat it as a leaf that matches only itself.
    Nil,
}

/// One compiled function of the symbolic tier.
#[derive(Debug)]
pub struct FuncDef {
    pub name: String,
    pub body: Expr,
    pub ty: Ty,
}

/// The mathematical view of a [`Ty`].
#[verifier::ext_equal]
pub enum TySpec {
    Int(usize),
    Uint(usize),
    Bool,
    Func(Seq<TySpec>),
}

/// The mathematical view of a [`Value`].
#[verifier::ext_equal]
pub enum ValueSpec {
    Arg(usize, TySpec),
    Const(u128, TySpec),
    Function(Seq<char>, TySpec),
}

/// The mathematical view of an [`Expr`].
#[verifier::ext_equal]
pub enum ExprSpec {
    Value(ValueSpec),
    Apply(Box<ExprSpec>, Seq<ExprSpec>),
    BinaryOp(BinOp, Box<ExprSpec>, Box<ExprSpec>),
    Switch(Box<ExprSpec>, Seq<ExprSpec>, Seq<ExprSpec>),
    Nil,
}

/// The mathematical view of a [`FuncDef`].
#[verifier::ext_equal]
pub struct FuncDefSpec {
    pub name: Seq<char>,
    pub body: ExprSpec,
    pub ty: TySpec,
}

/// The view of a type.
pub open spec fn view_ty(t: Ty) -> TySpec
    decreases t,
{
    match t {
        Ty::Int(n) => TySpec::Int(n),
        Ty::Uint(n) => TySpec::Uint(n),
        Ty::Bool => TySpec::Bool,
        Ty::Func(args) => TySpec::Func(view_ty_seq(args@)),
    }
}

/// The elementwise view of a sequence of types.
pub open spec fn view_ty_seq(s: Seq<Ty>) -> Seq<TySpec>
    decreases s,
{
    if s.len() == 0 {
        Seq::empty()
    } else {
        view_ty_seq(s.drop_last()).push(view_ty(s.last()))
    }
}

/// The view of a leaf value.
pub open spec fn view_value(v: Value) -> ValueSpec {
    match v {
        Value::Arg(i, ty) => ValueSpec::Arg(i, view_ty(ty)),
        Value::Const(c, ty) => ValueSpec::Const(c, view_ty(ty)),
        Value::Function(name, ty) => ValueSpec::Function(name@, view_ty(ty)),
    }
}

/// The view of an expression tree.
pub open spec fn view_expr(e: Expr) -> ExprSpec
    decreases e,
{
    match e {
        Expr::Value(v) => ExprSpec::Value(view_value(v)),
        Expr::Apply(f, args) => ExprSpec::Apply(Box::new(view_expr(*f)), view_expr_seq(args@)),
        Expr::BinaryOp(op, lhs, rhs) => ExprSpec::BinaryOp(
            op,
            Box::new(view_expr(*lhs)),
            Box::new(view_expr(*rhs)),
        ),
        Expr::Switch(v, cases, targets) => ExprSpec::Switch(
            Box::new(view_expr(*v)),
            view_expr_seq(cases@),
            view_expr_seq(targets@),
        ),
        Expr::Nil => ExprSpec::Nil,
    }
}

/// The elementwise view of a sequence of expressions.
pub open spec fn view_expr_seq(s: Seq<Expr>) -> Seq<ExprSpec>
    decreases s,
{
    if s.len() == 0 {
        Seq::empty()
    } else {
        view_expr_seq(s.drop_last()).push(view_expr(s.last()))
    }
}

/// A sequence of types is viewed element by element.
pub broadcast proof fn lemma_view_ty_seq(s: Seq<Ty>)
    ensures
        (#[trigger] view_ty_seq(s)).len() == s.len(),
        forall|i: int| 0 <= i < s.len() ==> view_ty_seq(s)[i] == view_ty(s[i]),
    decreases s,
{
    if s.len() > 0 {
        lemma_view_ty_seq(s.drop_last());
    }
}

/// A sequence of expressions is viewed element by element.
pub broadcast proof fn lemma_view_expr_seq(s: Seq<Expr>)
    ensures
        (#[trigger] view_expr_seq(s)).len() == s.len(),
        forall|i: int| 0 <= i < s.len() ==> view_expr_seq(s)[i] == view_expr(s[i]),
    decreases s,
{
    if s.len() > 0 {
        lemma_view_expr_seq(s.drop_last());
    }
}

impl View for Ty {
    type V = TySpec;

    open spec fn view(&self) -> TySpec {
        view_ty(*self)
    }
}

impl View for Value {
    type V = ValueSpec;

    open spec fn view(&self) -> ValueSpec {
        view_value(*self)
    }
}

impl View for Expr {
    type V = ExprSpec;

    open spec fn view(&self) -> ExprSpec {
        view_expr(*self)
    }
}

impl View for FuncDef {
    type V = FuncDefSpec;

    open spec fn view(&self) -> FuncDefSpec {
        FuncDefSpec { name: self.name@, body: view_expr(self.body), ty: view_ty(self.ty) }
    }
}

/// The element-by-element reading of the two sequence views.
pub broadcast group group_view_seq {
    lemma_view_ty_seq,
    lemma_view_expr_seq,
}

/// The bit width of a type: the stored width for integers, eight for
/// booleans, and nothing for function types, which have no fixed width.
pub open spec fn spec_size(t: TySpec) -> Option<usize> {
    match t {
        TySpec::Int(n) => Some(n),
        TySpec::Uint(n) => Some(n),
        TySpec::Bool => Some(8usize),
        TySpec::Func(_) => None,
    }
}

/// The type of a leaf value.
pub open spec fn spec_value_ty(v: ValueSpec) -> TySpec {
    match v {
        ValueSpec::Arg(_, t) => t,
        ValueSpec::Const(_, t) => t,
        ValueSpec::Function(_, t) => t,
    }
}

/// Whether type derivation is defined on this tree: every `Apply` callee
/// must derive a function type with at least one argument type (whose first
/// slot is the result type), every `Switch` must have a target, and no
/// `Nil` placeholder may be asked for its type.
pub open spec fn spec_ty_defined(e: ExprSpec) -> bool
    decreases e,
{
    match e {
        ExprSpec::Value(_) => true,
        ExprSpec::Apply(f, _) => spec_ty_defined(*f) && (spec_expr_ty(*f) matches TySpec::Func(
            args,
        ) && args.len() > 0),
        ExprSpec::BinaryOp(op, lhs, _) => spec_is_comparison(op) || spec_ty_defined(*lhs),
        ExprSpec::Switch(_, _, targets) => targets.len() > 0 && spec_ty_defined(targets[0]),
        ExprSpec::Nil => false,
    }
}

/// The type an expression evaluates to, where [`spec_ty_defined`] holds.
pub open spec fn spec_expr_ty(e: ExprSpec) -> TySpec
    decreases e,
{
    match e {
        ExprSpec::Value(v) => spec_value_ty(v),
        ExprSpec::Apply(f, _) => match spec_expr_ty(*f) {
            TySpec::Func(args) => if args.len() > 0 {
                args[0]
            } else {
                arbitrary()
            },
            _ => arbitrary(),
        },
        ExprSpec::BinaryOp(op, lhs, _) => if spec_is_comparison(op) {
            TySpec::Bool
        } else {
            spec_expr_ty(*lhs)
        },
        ExprSpec::Switch(_, _, targets) => if targets.len() > 0 {
            spec_expr_ty(targets[0])
        } else {
            arbitrary()
        },
        ExprSpec::Nil => arbitrary(),
    }
}

/// True if `t` deep-equals `e` or any sub-expression of `e`.
pub open spec fn spec_contains(e: ExprSpec, t: ExprSpec) -> bool
    decreases e,
{
    e == t || match e {
        ExprSpec::Apply(f, args) => spec_contains(*f, t) || spec_contains_seq(args, t),
        ExprSpec::Switch(v, cases, targets) => spec_contains(*v, t) || spec_contains_seq(cases, t)
            || spec_contains_seq(targets, t),
        ExprSpec::BinaryOp(_, lhs, rhs) => spec_contains(*lhs, t) || spec_contains(*rhs, t),
        _ => false,
    }
}

/// True if `t` occurs in or under some element of `es`.
pub open spec fn spec_contains_seq(es: Seq<ExprSpec>, t: ExprSpec) -> bool
    decreases es,
{
    if es.len() == 0 {
        false
    } else {
        spec_contains_seq(es.drop_last(), t) || spec_contains(es.last(), t)
    }
}

/// The tree `e` with every outermost occurrence of `t` replaced by `s`.
pub open spec fn spec_replace(e: ExprSpec, t: ExprSpec, s: ExprSpec) -> ExprSpec
    decreases e,
{
    if e == t {
        s
    } else {
        match e {
            ExprSpec::Apply(f, args) => ExprSpec::Apply(
                Box::new(spec_replace(*f, t, s)),
                spec_replace_seq(args, t, s),
            ),
            ExprSpec::Switch(v, cases, targets) => ExprSpec::Switch(
                Box::new(spec_replace(*v, t, s)),
                spec_replace_seq(cases, t, s),
                spec_replace_seq(targets, t, s),
            ),
            ExprSpec::BinaryOp(op, lhs, rhs) => ExprSpec::BinaryOp(
                op,
                Box::new(spec_replace(*lhs, t, s)),
                Box::new(spec_replace(*rhs, t, s)),
            ),
            _ => e,
        }
    }
}

/// The elementwise [`spec_replace`] over a sequence of trees.
pub open spec fn spec_replace_seq(es: Seq<ExprSpec>, t: ExprSpec, s: ExprSpec) -> Seq<ExprSpec>
    decreases es,
{
    if es.len() == 0 {
        Seq::empty()
    } else {
        spec_replace_seq(es.drop_last(), t, s).push(spec_replace(es.last(), t, s))
    }
}

/// Substitution over a sequence acts element by element.
pub broadcast proof fn lemma_replace_seq(es: Seq<ExprSpec>, t: ExprSpec, s: ExprSpec)
    ensures
        (#[trigger] spec_replace_seq(es, t, s)).len() == es.len(),
        forall|i: int|
            0 <= i < es.len() ==> spec_replace_seq(es, t, s)[i] == spec_replace(es[i], t, s),
    decreases es,
{
    if es.len() > 0 {
        lemma_replace_seq(es.drop_last(), t, s);
    }
}

/// Substitution leaves a sequence unchanged when the target occurs in none
/// of its elements.
proof fn lemma_replace_seq_absent(es: Seq<ExprSpec>, t: ExprSpec, s: ExprSpec)
    requires
        !spec_contains_seq(es, t),
    ensures
        spec_replace_seq(es, t, s) == es,
    decreases es,
{
    if es.len() > 0 {
        lemma_replace_seq_absent(es.drop_last(), t, s);
        lemma_replace_absent(es.last(), t, s);
        assert(spec_replace_seq(es, t, s) =~= es);
    } else {
        assert(spec_replace_seq(es, t, s) =~= es);
    }
}

/// Law: substitution is vacuous under non-overlap: if the target does not
/// occur in a tree, replacing it changes nothing.
pub proof fn lemma_replace_absent(e: ExprSpec, t: ExprSpec, s: ExprSpec)
    requires
        !spec_contains(e, t),
    ensures
        spec_replace(e, t, s) == e,
    decreases e,
{
    match e {
        ExprSpec::Apply(f, args) => {
            lemma_replace_absent(*f, t, s);
            lemma_replace_seq_absent(args, t, s);
            assert(spec_replace(e, t, s) =~= e);
        },
        ExprSpec::Switch(v, cases, targets) => {
            lemma_replace_absent(*v, t, s);
            lemma_replace_seq_absent(cases, t, s);
            lemma_replace_seq_absent(targets, t, s);
            assert(spec_replace(e, t, s) =~= e);
        },
        ExprSpec::BinaryOp(_, lhs, rhs) => {
            lemma_replace_absent(*lhs, t, s);
            lemma_replace_absent(*rhs, t, s);
            assert(spec_replace(e, t, s) =~= e);
        },
        _ => {
        },
    }
}

impl Ty {
    /// The bit width of this type: `Some` for the scalar types (booleans
    /// are eight bits wide for sizing purposes), `None` for function types.
    pub fn size(&self) -> (r: Option<usize>)
        ensures
            r == spec_size(self@),
    {
        match self {
            Ty::Int(n) => Some(*n),
            Ty::Uint(n) => Some(*n),
            Ty::Bool => Some(8),
            Ty::Func(_) => None,
        }
    }
}

fn eq_ty(a: &Ty, b: &Ty) -> (r: bool)
    ensures
        r == (a@ == b@),
    decreases *a,
{
    match (a, b) {
        (Ty::Int(n1), Ty::Int(n2)) => n1 == n2,
        (Ty::Uint(n1), Ty::Uint(n2)) => n1 == n2,
        (Ty::Bool, Ty::Bool) => true,
        (Ty::Func(args1), Ty::Func(args2)) => eq_ty_vec(args1, args2),
        _ => false,
    }
}

#[verifier::loop_isolation(false)]
fn eq_ty_vec(x: &Vec<Ty>, y: &Vec<Ty>) -> (r: bool)
    ensures
        r == (view_ty_seq(x@) == view_ty_seq(y@)),
    decreases *x,
{
    broadcast use group_view_seq;

    if x.len() != y.len() {
        return false;
    }
    let mut i: usize = 0;
    while i < x.len()
        invariant
            i <= x.len(),
            x@.len() == y@.len(),
            forall|j: int| 0 <= j < i ==> view_ty(x@[j]) == view_ty(y@[j]),
        decreases x@.len() - i,
    {
        if !eq_ty(&x[i], &y[i]) {
            assert(view_ty_seq(x@)[i as int] != view_ty_seq(y@)[i as int]);
            return false;
        }
        i += 1;
    }
    proof {
        assert(view_ty_seq(x@) =~= view_ty_seq(y@));
    }
    true
}

fn eq_value(a: &Value, b: &Value) -> (r: bool)
    ensures
        r == (a@ == b@),
{
    match (a, b) {
        (Value::Arg(i1, t1), Value::Arg(i2, t2)) => i1 == i2 && eq_ty(t1, t2),
        (Value::Const(c1, t1), Value::Const(c2, t2)) => c1 == c2 && eq_ty(t1, t2),
        (Value::Function(n1, t1), Value::Function(n2, t2)) => n1.eq(n2) && eq_ty(t1, t2),
        _ => false,
    }
}

fn eq_expr(a: &Expr, b: &Expr) -> (r: bool)
    ensures
        r == (a@ == b@),
    decreases *a,
{
    match (a, b) {
        (Expr::Value(v1), Expr::Value(v2)) => eq_value(v1, v2),
        (Expr::Apply(f1, args1), Expr::Apply(f2, args2)) => {
            eq_expr(f1, f2) && eq_expr_vec(args1, args2)
        },
        (Expr::BinaryOp(op1, l1, r1), Expr::BinaryOp(op2, l2, r2)) => {
            *op1 == *op2 && eq_expr(l1, l2) && eq_expr(r1, r2)
        },
        (Expr::Switch(v1, c1, t1), Expr::Switch(v2, c2, t2)) => {
            eq_expr(v1, v2) && eq_expr_vec(c1, c2) && eq_expr_vec(t1, t2)
        },
        (Expr::Nil, Expr::Nil) => true,
        _ => false,
    }
}

#[verifier::loop_isolation(false)]
fn eq_expr_vec(x: &Vec<Expr>, y: &Vec<Expr>) -> (r: bool)
    ensures
        r == (view_expr_seq(x@) == view_expr_seq(y@)),
    decreases *x,
{
    broadcast use group_view_seq;

    if x.len() != y.len() {
        return false;
    }
    let mut i: usize = 0;
    while i < x.len()
        invariant
            i <= x.len(),
            x@.len() == y@.len(),
            forall|j: int| 0 <= j < i ==> view_expr(x@[j]) == view_expr(y@[j]),
        decreases x@.len() - i,
    {
        if !eq_expr(&x[i], &y[i]) {
            assert(view_expr_seq(x@)[i as int] != view_expr_seq(y@)[i as int]);
            return false;
        }
        i += 1;
    }
    proof {
        assert(view_expr_seq(x@) =~= view_expr_seq(y@));
    }
    true
}

impl PartialEq for Ty {
    /// Full structural equality of types.
    fn eq(&self, other: &Ty) -> (r: bool) {
        eq_ty(self, other)
    }
}

impl Eq for Ty {

}

impl vstd::std_specs::cmp::PartialEqSpecImpl for Ty {
    open spec fn obeys_eq_spec() -> bool {
        true
    }

    open spec fn eq_spec(&self, other: &Ty) -> bool {
        self@ == other@
    }
}

impl PartialEq for Value {
    /// Full structural equality of leaf values.
    fn eq(&self, other: &Value) -> (r: bool) {
        eq_value(self, other)
    }
}

impl Eq for Value {

}

impl vstd::std_specs::cmp::PartialEqSpecImpl for Value {
    open spec fn obeys_eq_spec() -> bool {
        true
    }

    open spec fn eq_spec(&self, other: &Value) -> bool {
        self@ == other@
    }
}

impl PartialEq for Expr {
    /// Full structural (deep) equality of expression trees.
    fn eq(&self, other: &Expr) -> (r: bool) {
        eq_expr(self, other)
    }
}

impl Eq for Expr {

}

impl vstd::std_specs::cmp::PartialEqSpecImpl for Expr {
    open spec fn obeys_eq_spec() -> bool {
        true
    }

    open spec fn eq_spec(&self, other: &Expr) -> bool {
        self@ == other@
    }
}

#[verifier::loop_isolation(false)]
fn clone_ty_vec(x: &Vec<Ty>) -> (r: Vec<Ty>)
    ensures
        view_ty_seq(r@) == view_ty_seq(x@),
    decreases *x,
{
    broadcast use group_view_seq;

    let mut out: Vec<Ty> = Vec::new();
    let mut i: usize = 0;
    while i < x.len()
        invariant
            i <= x.len(),
            out@.len() == i,
            forall|j: int| 0 <= j < i ==> view_ty(out@[j]) == view_ty(x@[j]),
        decreases x@.len() - i,
    {
        out.push(x[i].clone());
        i += 1;
    }
    proof {
        assert(view_ty_seq(out@) =~= view_ty_seq(x@));
    }
    out
}

#[verifier::loop_isolation(false)]
fn clone_expr_vec(x: &Vec<Expr>) -> (r: Vec<Expr>)
    ensures
        view_expr_seq(r@) == view_expr_seq(x@),
    decreases *x,
{
    broadcast use group_view_seq;

    let mut out: Vec<Expr> = Vec::new();
    let mut i: usize = 0;
    while i < x.len()
        invariant
            i <= x.len(),
            out@.len() == i,
            forall|j: int| 0 <= j < i ==> view_expr(out@[j]) == view_expr(x@[j]),
        decreases x@.len() - i,
    {
        out.push(x[i].clone());
        i += 1;
    }
    proof {
        assert(view_expr_seq(out@) =~= view_expr_seq(x@));
    }
    out
}

impl Clone for Ty {
    /// A deep copy with the same view.
    fn clone(&self) -> (r: Ty)
        ensures
            r@ == self@,
        decreases *self,
    {
        match self {
            Ty::Int(n) => Ty::Int(*n),
            Ty::Uint(n) => Ty::Uint(*n),
            Ty::Bool => Ty::Bool,
            Ty::Func(args) => Ty::Func(clone_ty_vec(args)),
        }
    }
}

impl Clone for Value {
    /// A deep copy with the same view.
    fn clone(&self) -> (r: Value)
        ensures
            r@ == self@,
    {
        match self {
            Value::Arg(i, t) => Value::Arg(*i, t.clone()),
            Value::Const(c, t) => Value::Const(*c, t.clone()),
            Value::Function(n, t) => Value::Function(n.clone(), t.clone()),
        }
    }
}

impl Clone for Expr {
    /// A deep copy with the same view.
    fn clone(&self) -> (r: Expr)
        ensures
            r@ == self@,
        decreases *self,
    {
        match self {
            Expr::Value(v) => Expr::Value(v.clone()),
            Expr::Apply(f, args) => Expr::Apply(Box::new((**f).clone()), clone_expr_vec(args)),
            Expr::BinaryOp(op, lhs, rhs) => Expr::BinaryOp(
                *op,
                Box::new((**lhs).clone()),
                Box::new((**rhs).clone()),
            ),
            Expr::Switch(v, cases, targets) => Expr::Switch(
                Box::new((**v).clone()),
                clone_expr_vec(cases),
                clone_expr_vec(targets),
            ),
            Expr::Nil => Expr::Nil,
        }
    }
}

impl Clone for FuncDef {
    /// A deep copy with the same view.
    fn clone(&self) -> (r: FuncDef)
        ensures
            r@ == self@,
    {
        FuncDef { name: self.name.clone(), body: self.body.clone(), ty: self.ty.clone() }
    }
}

impl Value {
    /// The type of this leaf value; total over all variants.
    pub fn ty(&self) -> (r: Ty)
        ensures
            r@ == spec_value_ty(self@),
    {
        match self {
            Value::Arg(_, t) => t.clone(),
            Value::Const(_, t) => t.clone(),
            Value::Function(_, t) => t.clone(),
        }
    }
}

impl Expr {
    /// Derives the value-type this expression evaluates to.
    ///
    /// Asking the type of a tree on which derivation is undefined (a `Nil`
    /// placeholder, an `Apply` whose callee is not of function type or has
    /// no argument-type slot, a `Switch` without targets) is a contract
    /// violation by the producer, so such trees are excluded by
    /// precondition rather than recovered from.
    pub fn ty(&self) -> (r: Ty)
        requires
            spec_ty_defined(self@),
        ensures
            r@ == spec_expr_ty(self@),
        decreases *self,
    {
        broadcast use group_view_seq;

        match self {
            Expr::Value(v) => v.ty(),
            Expr::Apply(f, _) => {
                let ft = f.ty();
                proof {
                    assert(ft@ == spec_expr_ty(view_expr(**f)));
                }
                match &ft {
                    Ty::Func(args) => {
                        proof {
                            assert(view_ty(ft) matches TySpec::Func(a) && a == view_ty_seq(
                                args@,
                            ));
                            assert(view_ty_seq(args@).len() > 0);
                        }
                        let first = args[0].clone();
                        proof {
                            assert(first@ == view_ty_seq(args@)[0]);
                            assert(first@ == spec_expr_ty(self@));
                        }
                        first
                    },
                    _ => unreached(),
                }
            },
            Expr::BinaryOp(op, lhs, _) => {
                if op.is_comparison() {
                    Ty::Bool
                } else {
                    lhs.ty()
                }
            },
            Expr::Switch(_, _, targets) => {
                proof {
                    assert(self@->Switch_2 == view_expr_seq(targets@));
                    assert(targets@.len() > 0);
                    assert(spec_ty_defined(view_expr(targets@[0])));
                }
                let dt = targets[0].ty();
                proof {
                    assert(dt@ == spec_expr_ty(view_expr_seq(targets@)[0]));
                    assert(dt@ == spec_expr_ty(self@));
                }
                dt
            },
            Expr::Nil => unreached(),
        }
    }

    /// Rewrites this tree in place: every outermost occurrence of `target`
    /// becomes a copy of `substitution`, and the replacement itself is not
    /// descended into.
    pub fn replace(&mut self, target: &Expr, substitution: &Expr)
        ensures
            final(self)@ == spec_replace(old(self)@, target@, substitution@),
    {
        let r = subst_expr(self, target, substitution);
        *self = r;
    }
}

/// The copying form of substitution: the returned tree is `e` with every
/// outermost occurrence of `target` replaced by `substitution`.
fn subst_expr(e: &Expr, target: &Expr, substitution: &Expr) -> (r: Expr)
    ensures
        r@ == spec_replace(e@, target@, substitution@),
    decreases *e,
{
    if eq_expr(e, target) {
        return substitution.clone();
    }
    match e {
        Expr::Apply(f, args) => Expr::Apply(
            Box::new(subst_expr(f, target, substitution)),
            subst_vec(args, target, substitution),
        ),
        Expr::Switch(v, cases, targets) => Expr::Switch(
            Box::new(subst_expr(v, target, substitution)),
            subst_vec(cases, target, substitution),
            subst_vec(targets, target, substitution),
        ),
        Expr::BinaryOp(op, lhs, rhs) => Expr::BinaryOp(
            *op,
            Box::new(subst_expr(lhs, target, substitution)),
            Box::new(subst_expr(rhs, target, substitution)),
        ),
        _ => e.clone(),
    }
}

#[verifier::loop_isolation(false)]
fn subst_vec(x: &Vec<Expr>, target: &Expr, substitution: &Expr) -> (r: Vec<Expr>)
    ensures
        view_expr_seq(r@) == spec_replace_seq(view_expr_seq(x@), target@, substitution@),
    decreases *x,
{
    broadcast use lemma_replace_seq, group_view_seq;

    let mut out: Vec<Expr> = Vec::new();
    let mut i: usize = 0;
    while i < x.len()
        invariant
            i <= x.len(),
            out@.len() == i,
            forall|j: int|
                0 <= j < i ==> view_expr(out@[j]) == spec_replace(
                    view_expr(x@[j]),
                    target@,
                    substitution@,
                ),
        decreases x@.len() - i,
    {
        out.push(subst_expr(&x[i], target, substitution));
        i += 1;
    }
    proof {
        assert(view_expr_seq(out@) =~= spec_replace_seq(view_expr_seq(x@), target@, substitution@));
    }
    out
}

} // verus!
