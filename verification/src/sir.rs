//! The resolved tier of the representation: functions are identified by a
//! stable compiler-assigned [`DefId`], and a function type may carry
//! compile-time constant parameters.

use vstd::prelude::*;

use crate::op::spec_is_comparison;
use crate::op::spec_op_symbol;
use crate::op::BinOp;
use crate::text::append_dec;
use crate::text::append_dec_usize;
use crate::text::dec_str;
use vstd::string::StringExecFns;

verus! {

/// A stable compiler-assigned identity of a function definition: the index
/// of the crate it comes from and its index inside that crate.
#[derive(Clone, Copy, Debug, Hash, PartialEq, Eq, Structural)]
pub struct DefId {
    pub krate: u32,
    pub index: u32,
}

/// A type of the resolved tier.
///
/// `Func` carries the ordered argument types (the first of which doubles as
/// the result type) and the compile-time constant parameters declared on the
/// function.
#[derive(Debug, Hash)]
pub enum Ty {
    Int(usize),
    Uint(usize),
    Bool,
    Func(Vec<Ty>, Vec<Param>),
}

/// A compile-time constant parameter, identified by its ordinal position and
/// carrying its type.
#[derive(Debug, Hash)]
pub enum Param {
    Const(usize, Ty),
}

/// A leaf of an expression tree.
#[derive(Debug, Hash)]
pub enum Value {
    /// A reference to the enclosing function's runtime argument.
    Arg(usize, Ty),
    /// A literal constant, stored as an unsigned magnitude.
    Const(u128, Ty),
    /// A reference to another function definition.
    Function(DefId, Ty),
    /// A reference to a compile-time constant parameter of the enclosing
    /// function.
    ConstParam(Param),
}

/// An expression tree of the resolved tier.
#[derive(Debug)]
pub enum Expr {
    Value(Value),
    /// Applies the first expression (of function type) to the arguments.
    Apply(Box<Expr>, Vec<Expr>),
    BinaryOp(BinOp, Box<Expr>, Box<Expr>),
    /// The only branching construct: the scrutinee is compared in order
    /// against the case values; the first match selects the target of the
    /// same position; the last target is the default, so there is exactly
    /// one more target than case values.
    Switch(Box<Expr>, Vec<Expr>, Vec<Expr>),
    /// A placeholder for a value not yet produced; structural operations
    /// treat it as a leaf that matches only itself.
    Uninitialized,
}

/// One compiled function: an identity, a body, and a declared function type.
#[derive(Debug)]
pub struct FuncDef {
    pub def_id: DefId,
    pub body: Expr,
    pub ty: Ty,
}

/// The mathematical view of a [`Ty`].
#[verifier::ext_equal]
pub enum TySpec {
    Int(usize),
    Uint(usize),
    Bool,
    Func(Seq<TySpec>, Seq<ParamSpec>),
}

/// The mathematical view of a [`Param`].
#[verifier::ext_equal]
pub enum ParamSpec {
    Const(usize, TySpec),
}

/// The mathematical view of a [`Value`].
#[verifier::ext_equal]
pub enum ValueSpec {
    Arg(usize, TySpec),
    Const(u128, TySpec),
    Function(DefId, TySpec),
    ConstParam(ParamSpec),
}

/// The mathematical view of an [`Expr`].
#[verifier::ext_equal]
pub enum ExprSpec {
    Value(ValueSpec),
    Apply(Box<ExprSpec>, Seq<ExprSpec>),
    BinaryOp(BinOp, Box<ExprSpec>, Box<ExprSpec>),
    Switch(Box<ExprSpec>, Seq<ExprSpec>, Seq<ExprSpec>),
    Uninitialized,
}

/// The mathematical view of a [`FuncDef`].
#[verifier::ext_equal]
pub struct FuncDefSpec {
    pub def_id: DefId,
    pub body: ExprSpec,
    pub ty: TySpec,
}

/// The view of a type.
pub open spec fn view_ty(t: Ty) -> TySpec
    decreases t,
{
    match t {
        Ty::Int(n) => TySpec::Int(n),
        Ty::Uint(n) => TySpec::Uint(n),
        Ty::Bool => TySpec::Bool,
        Ty::Func(args, params) => TySpec::Func(view_ty_seq(args@), view_param_seq(params@)),
    }
}

/// The elementwise view of a sequence of types.
pub open spec fn view_ty_seq(s: Seq<Ty>) -> Seq<TySpec>
    decreases s,
{
    if s.len() == 0 {
        Seq::empty()
    } else {
        view_ty_seq(s.drop_last()).push(view_ty(s.last()))
    }
}

/// The elementwise view of a sequence of constant parameters.
pub open spec fn view_param_seq(s: Seq<Param>) -> Seq<ParamSpec>
    decreases s,
{
    if s.len() == 0 {
        Seq::empty()
    } else {
        view_param_seq(s.drop_last()).push(view_param(s.last()))
    }
}

/// The view of a constant parameter.
pub open spec fn view_param(p: Param) -> ParamSpec
    decreases p,
{
    match p {
        Param::Const(i, ty) => ParamSpec::Const(i, view_ty(ty)),
    }
}

/// The view of a leaf value.
pub open spec fn view_value(v: Value) -> ValueSpec {
    match v {
        Value::Arg(i, ty) => ValueSpec::Arg(i, view_ty(ty)),
        Value::Const(c, ty) => ValueSpec::Const(c, view_ty(ty)),
        Value::Function(d, ty) => ValueSpec::Function(d, view_ty(ty)),
        Value::ConstParam(p) => ValueSpec::ConstParam(view_param(p)),
    }
}

/// The view of an expression tree.
pub open spec fn view_expr(e: Expr) -> ExprSpec
    decreases e,
{
    match e {
        Expr::Value(v) => ExprSpec::Value(view_value(v)),
        Expr::Apply(f, args) => ExprSpec::Apply(Box::new(view_expr(*f)), view_expr_seq(args@)),
        Expr::BinaryOp(op, lhs, rhs) => ExprSpec::BinaryOp(
            op,
            Box::new(view_expr(*lhs)),
            Box::new(view_expr(*rhs)),
        ),
        Expr::Switch(v, cases, targets) => ExprSpec::Switch(
            Box::new(view_expr(*v)),
            view_expr_seq(cases@),
            view_expr_seq(targets@),
        ),
        Expr::Uninitialized => ExprSpec::Uninitialized,
    }
}

/// The elementwise view of a sequence of expressions.
pub open spec fn view_expr_seq(s: Seq<Expr>) -> Seq<ExprSpec>
    decreases s,
{
    if s.len() == 0 {
        Seq::empty()
    } else {
        view_expr_seq(s.drop_last()).push(view_expr(s.last()))
    }
}

/// A sequence of types is viewed element by element.
pub broadcast proof fn lemma_view_ty_seq(s: Seq<Ty>)
    ensures
        (#[trigger] view_ty_seq(s)).len() == s.len(),
        forall|i: int| 0 <= i < s.len() ==> view_ty_seq(s)[i] == view_ty(s[i]),
    decreases s,
{
    if s.len() > 0 {
        lemma_view_ty_seq(s.drop_last());
    }
}

/// A sequence of constant parameters is viewed element by element.
pub broadcast proof fn lemma_view_param_seq(s: Seq<Param>)
    ensures
        (#[trigger] view_param_seq(s)).len() == s.len(),
        forall|i: int| 0 <= i < s.len() ==> view_param_seq(s)[i] == view_param(s[i]),
    decreases s,
{
    if s.len() > 0 {
        lemma_view_param_seq(s.drop_last());
    }
}

/// A sequence of expressions is viewed element by element.
pub broadcast proof fn lemma_view_expr_seq(s: Seq<Expr>)
    ensures
        (#[trigger] view_expr_seq(s)).len() == s.len(),
        forall|i: int| 0 <= i < s.len() ==> view_expr_seq(s)[i] == view_expr(s[i]),
    decreases s,
{
    if s.len() > 0 {
        lemma_view_expr_seq(s.drop_last());
    }
}

impl View for Ty {
    type V = TySpec;

    open spec fn view(&self) -> TySpec {
        view_ty(*self)
    }
}

impl View for Param {
    type V = ParamSpec;

    open spec fn view(&self) -> ParamSpec {
        view_param(*self)
    }
}

impl View for Value {
    type V = ValueSpec;

    open spec fn view(&self) -> ValueSpec {
        view_value(*self)
    }
}

impl View for Expr {
    type V = ExprSpec;

    open spec fn view(&self) -> ExprSpec {
        view_expr(*self)
    }
}

impl View for FuncDef {
    type V = FuncDefSpec;

    open spec fn view(&self) -> FuncDefSpec {
        FuncDefSpec { def_id: self.def_id, body: view_expr(self.body), ty: view_ty(self.ty) }
    }
}

/// The element-by-element reading of the three sequence views.
pub broadcast group group_view_seq {
    lemma_view_ty_seq,
    lemma_view_param_seq,
    lemma_view_expr_seq,
}

/// The bit width of a type: the stored width for integers, eight for
/// booleans, and nothing for function types, which have no fixed width.
pub open spec fn spec_size(t: TySpec) -> Option<usize> {
    match t {
        TySpec::Int(n) => Some(n),
        TySpec::Uint(n) => Some(n),
        TySpec::Bool => Some(8usize),
        TySpec::Func(_, _) => None,
    }
}

/// The type carried by a constant parameter.
pub open spec fn spec_param_ty(p: ParamSpec) -> TySpec {
    match p {
        ParamSpec::Const(_, t) => t,
    }
}

/// The type of a leaf value.
pub open spec fn spec_value_ty(v: ValueSpec) -> TySpec {
    match v {
        ValueSpec::Arg(_, t) => t,
        ValueSpec::Const(_, t) => t,
        ValueSpec::Function(_, t) => t,
        ValueSpec::ConstParam(p) => spec_param_ty(p),
    }
}

/// Whether type derivation is defined on this tree: every `Apply` callee
/// must derive a function type with at least one argument type (whose first
/// slot is the result type), every `Switch` must have a target, and no
/// `Uninitialized` placeholder may be asked for its type.
pub open spec fn spec_ty_defined(e: ExprSpec) -> bool
    decreases e,
{
    match e {
        ExprSpec::Value(_) => true,
        ExprSpec::Apply(f, _) => spec_ty_defined(*f) && (spec_expr_ty(*f) matches TySpec::Func(
            args,
            _,
        ) && args.len() > 0),
        ExprSpec::BinaryOp(op, lhs, _) => spec_is_comparison(op) || spec_ty_defined(*lhs),
        ExprSpec::Switch(_, _, targets) => targets.len() > 0 && spec_ty_defined(targets[0]),
        ExprSpec::Uninitialized => false,
    }
}

/// The type an expression evaluates to, where [`spec_ty_defined`] holds: the
/// type of a leaf, the first argument-type slot of the callee's function
/// type for `Apply`, a boolean for comparisons and the left operand's type
/// otherwise for `BinaryOp`, and the first target's type for `Switch`.
pub open spec fn spec_expr_ty(e: ExprSpec) -> TySpec
    decreases e,
{
    match e {
        ExprSpec::Value(v) => spec_value_ty(v),
        ExprSpec::Apply(f, _) => match spec_expr_ty(*f) {
            TySpec::Func(args, _) => if args.len() > 0 {
                args[0]
            } else {
                arbitrary()
            },
            _ => arbitrary(),
        },
        ExprSpec::BinaryOp(op, lhs, _) => if spec_is_comparison(op) {
            TySpec::Bool
        } else {
            spec_expr_ty(*lhs)
        },
        ExprSpec::Switch(_, _, targets) => if targets.len() > 0 {
            spec_expr_ty(targets[0])
        } else {
            arbitrary()
        },
        ExprSpec::Uninitialized => arbitrary(),
    }
}

/// True if `t` deep-equals `e` or any sub-expression of `e`.
pub open spec fn spec_contains(e: ExprSpec, t: ExprSpec) -> bool
    decreases e,
{
    e == t || match e {
        ExprSpec::Apply(f, args) => spec_contains(*f, t) || spec_contains_seq(args, t),
        ExprSpec::Switch(v, cases, targets) => spec_contains(*v, t) || spec_contains_seq(cases, t)
            || spec_contains_seq(targets, t),
        ExprSpec::BinaryOp(_, lhs, rhs) => spec_contains(*lhs, t) || spec_contains(*rhs, t),
        _ => false,
    }
}

/// True if `t` occurs in or under some element of `es`.
pub open spec fn spec_contains_seq(es: Seq<ExprSpec>, t: ExprSpec) -> bool
    decreases es,
{
    if es.len() == 0 {
        false
    } else {
        spec_contains_seq(es.drop_last(), t) || spec_contains(es.last(), t)
    }
}

/// A sequence contains a term if and only if one of its elements does.
pub broadcast proof fn lemma_contains_seq(es: Seq<ExprSpec>, t: ExprSpec)
    ensures
        #[trigger] spec_contains_seq(es, t) <==> exists|i: int|
            0 <= i < es.len() && spec_contains(es[i], t),
    decreases es,
{
    if es.len() > 0 {
        lemma_contains_seq(es.drop_last(), t);
        if spec_contains_seq(es, t) {
            if spec_contains(es.last(), t) {
                assert(spec_contains(es[es.len() - 1], t));
            } else {
                let j = choose|j: int|
                    0 <= j < es.drop_last().len() && spec_contains(es.drop_last()[j], t);
                assert(spec_contains(es[j], t));
            }
        }
        if exists|i: int| 0 <= i < es.len() && spec_contains(es[i], t) {
            let i = choose|i: int| 0 <= i < es.len() && spec_contains(es[i], t);
            if i == es.len() - 1 {
                assert(spec_contains(es.last(), t));
            } else {
                assert(spec_contains(es.drop_last()[i], t));
                assert(spec_contains_seq(es.drop_last(), t));
            }
        }
    }
}

/// The tree `e` with every outermost occurrence of `t` replaced by `s`: a
/// node equal to `t` becomes `s` and is not descended into further; any
/// other node keeps its shape and its children are rewritten.
pub open spec fn spec_replace(e: ExprSpec, t: ExprSpec, s: ExprSpec) -> ExprSpec
    decreases e,
{
    if e == t {
        s
    } else {
        match e {
            ExprSpec::Apply(f, args) => ExprSpec::Apply(
                Box::new(spec_replace(*f, t, s)),
                spec_replace_seq(args, t, s),
            ),
            ExprSpec::Switch(v, cases, targets) => ExprSpec::Switch(
                Box::new(spec_replace(*v, t, s)),
                spec_replace_seq(cases, t, s),
                spec_replace_seq(targets, t, s),
            ),
            ExprSpec::BinaryOp(op, lhs, rhs) => ExprSpec::BinaryOp(
                op,
                Box::new(spec_replace(*lhs, t, s)),
                Box::new(spec_replace(*rhs, t, s)),
            ),
            _ => e,
        }
    }
}

/// The elementwise [`spec_replace`] over a sequence of trees.
pub open spec fn spec_replace_seq(es: Seq<ExprSpec>, t: ExprSpec, s: ExprSpec) -> Seq<ExprSpec>
    decreases es,
{
    if es.len() == 0 {
        Seq::empty()
    } else {
        spec_replace_seq(es.drop_last(), t, s).push(spec_replace(es.last(), t, s))
    }
}

/// Substitution over a sequence acts element by element.
pub broadcast proof fn lemma_replace_seq(es: Seq<ExprSpec>, t: ExprSpec, s: ExprSpec)
    ensures
        (#[trigger] spec_replace_seq(es, t, s)).len() == es.len(),
        forall|i: int|
            0 <= i < es.len() ==> spec_replace_seq(es, t, s)[i] == spec_replace(es[i], t, s),
    decreases es,
{
    if es.len() > 0 {
        lemma_replace_seq(es.drop_last(), t, s);
    }
}

/// A function is recursive when its body holds a type-tagged reference to
/// the function's own identity.
pub open spec fn spec_is_recursive(f: FuncDefSpec) -> bool {
    spec_contains(f.body, ExprSpec::Value(ValueSpec::Function(f.def_id, f.ty)))
}

impl Ty {
    /// The bit width of this type: `Some` for the scalar types (booleans
    /// are eight bits wide for sizing purposes), `None` for function types.
    pub fn size(&self) -> (r: Option<usize>)
        ensures
            r == spec_size(self@),
    {
        match self {
            Ty::Int(n) => Some(*n),
            Ty::Uint(n) => Some(*n),
            Ty::Bool => Some(8),
            Ty::Func(_, _) => None,
        }
    }
}

fn eq_ty(a: &Ty, b: &Ty) -> (r: bool)
    ensures
        r == (a@ == b@),
    decreases *a,
{
    match (a, b) {
        (Ty::Int(n1), Ty::Int(n2)) => n1 == n2,
        (Ty::Uint(n1), Ty::Uint(n2)) => n1 == n2,
        (Ty::Bool, Ty::Bool) => true,
        (Ty::Func(args1, params1), Ty::Func(args2, params2)) => {
            eq_ty_vec(args1, args2) && eq_param_vec(params1, params2)
        },
        _ => false,
    }
}

#[verifier::loop_isolation(false)]
fn eq_ty_vec(x: &Vec<Ty>, y: &Vec<Ty>) -> (r: bool)
    ensures
        r == (view_ty_seq(x@) == view_ty_seq(y@)),
    decreases *x,
{
    broadcast use group_view_seq;

    if x.len() != y.len() {
        return false;
    }
    let mut i: usize = 0;
    while i < x.len()
        invariant
            i <= x.len(),
            x@.len() == y@.len(),
            forall|j: int| 0 <= j < i ==> view_ty(x@[j]) == view_ty(y@[j]),
        decreases x@.len() - i,
    {
        if !eq_ty(&x[i], &y[i]) {
            assert(view_ty_seq(x@)[i as int] != view_ty_seq(y@)[i as int]);
            return false;
        }
        i += 1;
    }
    proof {
        assert(view_ty_seq(x@) =~= view_ty_seq(y@));
    }
    true
}

fn eq_param(a: &Param, b: &Param) -> (r: bool)
    ensures
        r == (a@ == b@),
    decreases *a,
{
    match (a, b) {
        (Param::Const(i1, t1), Param::Const(i2, t2)) => i1 == i2 && eq_ty(t1, t2),
    }
}

#[verifier::loop_isolation(false)]
fn eq_param_vec(x: &Vec<Param>, y: &Vec<Param>) -> (r: bool)
    ensures
        r == (view_param_seq(x@) == view_param_seq(y@)),
    decreases *x,
{
    broadcast use group_view_seq;

    if x.len() != y.len() {
        return false;
    }
    let mut i: usize = 0;
    while i < x.len()
        invariant
            i <= x.len(),
            x@.len() == y@.len(),
            forall|j: int| 0 <= j < i ==> view_param(x@[j]) == view_param(y@[j]),
        decreases x@.len() - i,
    {
        if !eq_param(&x[i], &y[i]) {
            assert(view_param_seq(x@)[i as int] != view_param_seq(y@)[i as int]);
            return false;
        }
        i += 1;
    }
    proof {
        assert(view_param_seq(x@) =~= view_param_seq(y@));
    }
    true
}

fn eq_value(a: &Value, b: &Value) -> (r: bool)
    ensures
        r == (a@ == b@),
{
    match (a, b) {
        (Value::Arg(i1, t1), Value::Arg(i2, t2)) => i1 == i2 && eq_ty(t1, t2),
        (Value::Const(c1, t1), Value::Const(c2, t2)) => c1 == c2 && eq_ty(t1, t2),
        (Value::Function(d1, t1), Value::Function(d2, t2)) => d1 == d2 && eq_ty(t1, t2),
        (Value::ConstParam(p1), Value::ConstParam(p2)) => eq_param(p1, p2),
        _ => false,
    }
}

fn eq_expr(a: &Expr, b: &Expr) -> (r: bool)
    ensures
        r == (a@ == b@),
    decreases *a,
{
    match (a, b) {
        (Expr::Value(v1), Expr::Value(v2)) => eq_value(v1, v2),
        (Expr::Apply(f1, args1), Expr::Apply(f2, args2)) => {
            eq_expr(f1, f2) && eq_expr_vec(args1, args2)
        },
        (Expr::BinaryOp(op1, l1, r1), Expr::BinaryOp(op2, l2, r2)) => {
            *op1 == *op2 && eq_expr(l1, l2) && eq_expr(r1, r2)
        },
        (Expr::Switch(v1, c1, t1), Expr::Switch(v2, c2, t2)) => {
            eq_expr(v1, v2) && eq_expr_vec(c1, c2) && eq_expr_vec(t1, t2)
        },
        (Expr::Uninitialized, Expr::Uninitialized) => true,
        _ => false,
    }
}

#[verifier::loop_isolation(false)]
fn eq_expr_vec(x: &Vec<Expr>, y: &Vec<Expr>) -> (r: bool)
    ensures
        r == (view_expr_seq(x@) == view_expr_seq(y@)),
    decreases *x,
{
    broadcast use group_view_seq;

    if x.len() != y.len() {
        return false;
    }
    let mut i: usize = 0;
    while i < x.len()
        invariant
            i <= x.len(),
            x@.len() == y@.len(),
            forall|j: int| 0 <= j < i ==> view_expr(x@[j]) == view_expr(y@[j]),
        decreases x@.len() - i,
    {
        if !eq_expr(&x[i], &y[i]) {
            assert(view_expr_seq(x@)[i as int] != view_expr_seq(y@)[i as int]);
            return false;
        }
        i += 1;
    }
    proof {
        assert(view_expr_seq(x@) =~= view_expr_seq(y@));
    }
    true
}

impl PartialEq for Ty {
    /// Full structural equality of types.
    fn eq(&self, other: &Ty) -> (r: bool) {
        eq_ty(self, other)
    }
}

impl Eq for Ty {

}

impl vstd::std_specs::cmp::PartialEqSpecImpl for Ty {
    open spec fn obeys_eq_spec() -> bool {
        true
    }

    open spec fn eq_spec(&self, other: &Ty) -> bool {
        self@ == other@
    }
}

impl PartialEq for Param {
    /// Constant parameters are equal when both index and type match.
    fn eq(&self, other: &Param) -> (r: bool) {
        eq_param(self, other)
    }
}

impl Eq for Param {

}

impl vstd::std_specs::cmp::PartialEqSpecImpl for Param {
    open spec fn obeys_eq_spec() -> bool {
        true
    }

    open spec fn eq_spec(&self, other: &Param) -> bool {
        self@ == other@
    }
}

impl PartialEq for Value {
    /// Full structural equality of leaf values.
    fn eq(&self, other: &Value) -> (r: bool) {
        eq_value(self, other)
    }
}

impl Eq for Value {

}

impl vstd::std_specs::cmp::PartialEqSpecImpl for Value {
    open spec fn obeys_eq_spec() -> bool {
        true
    }

    open spec fn eq_spec(&self, other: &Value) -> bool {
        self@ == other@
    }
}

impl PartialEq for Expr {
    /// Full structural (deep) equality of expression trees.
    fn eq(&self, other: &Expr) -> (r: bool) {
        eq_expr(self, other)
    }
}

impl Eq for Expr {

}

impl vstd::std_specs::cmp::PartialEqSpecImpl for Expr {
    open spec fn obeys_eq_spec() -> bool {
        true
    }

    open spec fn eq_spec(&self, other: &Expr) -> bool {
        self@ == other@
    }
}

#[verifier::loop_isolation(false)]
fn clone_ty_vec(x: &Vec<Ty>) -> (r: Vec<Ty>)
    ensures
        view_ty_seq(r@) == view_ty_seq(x@),
    decreases *x,
{
    broadcast use group_view_seq;

    let mut out: Vec<Ty> = Vec::new();
    let mut i: usize = 0;
    while i < x.len()
        invariant
            i <= x.len(),
            out@.len() == i,
            forall|j: int| 0 <= j < i ==> view_ty(out@[j]) == view_ty(x@[j]),
        decreases x@.len() - i,
    {
        out.push(x[i].clone());
        i += 1;
    }
    proof {
        assert(view_ty_seq(out@) =~= view_ty_seq(x@));
    }
    out
}

#[verifier::loop_isolation(false)]
fn clone_param_vec(x: &Vec<Param>) -> (r: Vec<Param>)
    ensures
        view_param_seq(r@) == view_param_seq(x@),
    decreases *x,
{
    broadcast use group_view_seq;

    let mut out: Vec<Param> = Vec::new();
    let mut i: usize = 0;
    while i < x.len()
        invariant
            i <= x.len(),
            out@.len() == i,
            forall|j: int| 0 <= j < i ==> view_param(out@[j]) == view_param(x@[j]),
        decreases x@.len() - i,
    {
        out.push(x[i].clone());
        i += 1;
    }
    proof {
        assert(view_param_seq(out@) =~= view_param_seq(x@));
    }
    out
}

#[verifier::loop_isolation(false)]
fn clone_expr_vec(x: &Vec<Expr>) -> (r: Vec<Expr>)
    ensures
        view_expr_seq(r@) == view_expr_seq(x@),
    decreases *x,
{
    broadcast use group_view_seq;

    let mut out: Vec<Expr> = Vec::new();
    let mut i: usize = 0;
    while i < x.len()
        invariant
            i <= x.len(),
            out@.len() == i,
            forall|j: int| 0 <= j < i ==> view_expr(out@[j]) == view_expr(x@[j]),
        decreases x@.len() - i,
    {
        out.push(x[i].clone());
        i += 1;
    }
    proof {
        assert(view_expr_seq(out@) =~= view_expr_seq(x@));
    }
    out
}

impl Clone for Ty {
    /// A deep copy with the same view.
    fn clone(&self) -> (r: Ty)
        ensures
            r@ == self@,
        decreases *self,
    {
        match self {
            Ty::Int(n) => Ty::Int(*n),
            Ty::Uint(n) => Ty::Uint(*n),
            Ty::Bool => Ty::Bool,
            Ty::Func(args, params) => Ty::Func(clone_ty_vec(args), clone_param_vec(params)),
        }
    }
}

impl Clone for Param {
    /// A deep copy with the same view.
    fn clone(&self) -> (r: Param)
        ensures
            r@ == self@,
        decreases *self,
    {
        match self {
            Param::Const(i, t) => Param::Const(*i, t.clone()),
        }
    }
}

impl Clone for Value {
    /// A deep copy with the same view.
    fn clone(&self) -> (r: Value)
        ensures
            r@ == self@,
    {
        match self {
            Value::Arg(i, t) => Value::Arg(*i, t.clone()),
            Value::Const(c, t) => Value::Const(*c, t.clone()),
            Value::Function(d, t) => Value::Function(*d, t.clone()),
            Value::ConstParam(p) => Value::ConstParam(p.clone()),
        }
    }
}

impl Clone for Expr {
    /// A deep copy with the same view.
    fn clone(&self) -> (r: Expr)
        ensures
            r@ == self@,
        decreases *self,
    {
        match self {
            Expr::Value(v) => Expr::Value(v.clone()),
            Expr::Apply(f, args) => Expr::Apply(Box::new((**f).clone()), clone_expr_vec(args)),
            Expr::BinaryOp(op, lhs, rhs) => Expr::BinaryOp(
                *op,
                Box::new((**lhs).clone()),
                Box::new((**rhs).clone()),
            ),
            Expr::Switch(v, cases, targets) => Expr::Switch(
                Box::new((**v).clone()),
                clone_expr_vec(cases),
                clone_expr_vec(targets),
            ),
            Expr::Uninitialized => Expr::Uninitialized,
        }
    }
}

impl Clone for FuncDef {
    /// A deep copy with the same view.
    fn clone(&self) -> (r: FuncDef)
        ensures
            r@ == self@,
    {
        FuncDef { def_id: self.def_id, body: self.body.clone(), ty: self.ty.clone() }
    }
}

impl Param {
    /// The type carried by this constant parameter.
    pub fn ty(&self) -> (r: Ty)
        ensures
            r@ == spec_param_ty(self@),
    {
        match self {
            Param::Const(_, t) => t.clone(),
        }
    }
}

impl Value {
    /// The type of this leaf value; total over all variants.
    pub fn ty(&self) -> (r: Ty)
        ensures
            r@ == spec_value_ty(self@),
    {
        match self {
            Value::Arg(_, t) => t.clone(),
            Value::Const(_, t) => t.clone(),
            Value::Function(_, t) => t.clone(),
            Value::ConstParam(p) => p.ty(),
        }
    }
}

impl Expr {
    /// Derives the value-type this expression evaluates to.
    ///
    /// Asking the type of a tree on which derivation is undefined (an
    /// `Uninitialized` placeholder, an `Apply` whose callee is not of
    /// function type or has no argument-type slot, a `Switch` without
    /// targets) is a contract violation by the producer, so such trees are
    /// excluded by precondition rather than recovered from.
    pub fn ty(&self) -> (r: Ty)
        requires
            spec_ty_defined(self@),
        ensures
            r@ == spec_expr_ty(self@),
        decreases *self,
    {
        broadcast use group_view_seq;

        match self {
            Expr::Value(v) => v.ty(),
            Expr::Apply(f, _) => {
                let ft = f.ty();
                proof {
                    assert(ft@ == spec_expr_ty(view_expr(**f)));
                }
                match &ft {
                    Ty::Func(args, _) => {
                        proof {
                            assert(view_ty(ft) matches TySpec::Func(a, _) && a
                                == view_ty_seq(args@));
                            assert(view_ty_seq(args@).len() > 0);
                        }
                        let first = args[0].clone();
                        proof {
                            assert(first@ == view_ty_seq(args@)[0]);
                            assert(first@ == spec_expr_ty(self@));
                        }
                        first
                    },
                    _ => unreached(),
                }
            },
            Expr::BinaryOp(op, lhs, _) => {
                if op.is_comparison() {
                    Ty::Bool
                } else {
                    lhs.ty()
                }
            },
            Expr::Switch(_, _, targets) => {
                proof {
                    assert(self@->Switch_2 == view_expr_seq(targets@));
                    assert(targets@.len() > 0);
                    assert(spec_ty_defined(view_expr(targets@[0])));
                }
                let dt = targets[0].ty();
                proof {
                    assert(dt@ == spec_expr_ty(view_expr_seq(targets@)[0]));
                    assert(dt@ == spec_expr_ty(self@));
                }
                dt
            },
            Expr::Uninitialized => unreached(),
        }
    }

    /// True if this tree deep-equals `target` or any sub-expression
    /// (recursively) does.
    pub fn contains(&self, target: &Expr) -> (r: bool)
        ensures
            r == spec_contains(self@, target@),
        decreases *self,
    {
        broadcast use lemma_contains_seq, group_view_seq;

        if eq_expr(self, target) {
            return true;
        }
        match self {
            Expr::Apply(f, args) => f.contains(target) || contains_vec(args, target),
            Expr::Switch(v, cases, targets) => v.contains(target) || contains_vec(cases, target)
                || contains_vec(targets, target),
            Expr::BinaryOp(_, lhs, rhs) => lhs.contains(target) || rhs.contains(target),
            _ => false,
        }
    }

    /// Rewrites this tree in place: every outermost occurrence of `target`
    /// becomes a copy of `substitution`, and the replacement itself is not
    /// descended into.
    pub fn replace(&mut self, target: &Expr, substitution: &Expr)
        ensures
            final(self)@ == spec_replace(old(self)@, target@, substitution@),
    {
        let r = subst_expr(self, target, substitution);
        *self = r;
    }
}

#[verifier::loop_isolation(false)]
fn contains_vec(x: &Vec<Expr>, target: &Expr) -> (r: bool)
    ensures
        r == spec_contains_seq(view_expr_seq(x@), target@),
    decreases *x,
{
    broadcast use lemma_contains_seq, group_view_seq;

    let mut i: usize = 0;
    while i < x.len()
        invariant
            i <= x.len(),
            forall|j: int| 0 <= j < i ==> !spec_contains(view_expr(x@[j]), target@),
        decreases x@.len() - i,
    {
        if x[i].contains(target) {
            assert(spec_contains(view_expr_seq(x@)[i as int], target@));
            return true;
        }
        i += 1;
    }
    false
}

/// The copying form of substitution: the returned tree is `e` with every
/// outermost occurrence of `target` replaced by `substitution`.
fn subst_expr(e: &Expr, target: &Expr, substitution: &Expr) -> (r: Expr)
    ensures
        r@ == spec_replace(e@, target@, substitution@),
    decreases *e,
{
    if eq_expr(e, target) {
        return substitution.clone();
    }
    match e {
        Expr::Apply(f, args) => Expr::Apply(
            Box::new(subst_expr(f, target, substitution)),
            subst_vec(args, target, substitution),
        ),
        Expr::Switch(v, cases, targets) => Expr::Switch(
            Box::new(subst_expr(v, target, substitution)),
            subst_vec(cases, target, substitution),
            subst_vec(targets, target, substitution),
        ),
        Expr::BinaryOp(op, lhs, rhs) => Expr::BinaryOp(
            *op,
            Box::new(subst_expr(lhs, target, substitution)),
            Box::new(subst_expr(rhs, target, substitution)),
        ),
        _ => e.clone(),
    }
}

#[verifier::loop_isolation(false)]
fn subst_vec(x: &Vec<Expr>, target: &Expr, substitution: &Expr) -> (r: Vec<Expr>)
    ensures
        view_expr_seq(r@) == spec_replace_seq(view_expr_seq(x@), target@, substitution@),
    decreases *x,
{
    broadcast use lemma_replace_seq, group_view_seq;

    let mut out: Vec<Expr> = Vec::new();
    let mut i: usize = 0;
    while i < x.len()
        invariant
            i <= x.len(),
            out@.len() == i,
            forall|j: int|
                0 <= j < i ==> view_expr(out@[j]) == spec_replace(
                    view_expr(x@[j]),
                    target@,
                    substitution@,
                ),
        decreases x@.len() - i,
    {
        out.push(subst_expr(&x[i], target, substitution));
        i += 1;
    }
    proof {
        assert(view_expr_seq(out@) =~= spec_replace_seq(view_expr_seq(x@), target@, substitution@));
    }
    out
}

/// The target a switch selects for its scrutinee tree: the target at the
/// first position from `i` upward whose case value deep-equals `v`, or the
/// last target (the default) when no case value from `i` upward matches.
pub open spec fn spec_select_target(
    v: ExprSpec,
    cases: Seq<ExprSpec>,
    targets: Seq<ExprSpec>,
    i: int,
) -> ExprSpec
    decreases cases.len() - i,
{
    if i < 0 || i >= cases.len() {
        targets.last()
    } else if cases[i] == v {
        targets[i]
    } else {
        spec_select_target(v, cases, targets, i + 1)
    }
}

/// The target a switch expression selects, compared by deep equality of the
/// case-value trees against the scrutinee tree.
pub open spec fn spec_switch_target(e: ExprSpec) -> ExprSpec
    recommends
        e is Switch,
{
    match e {
        ExprSpec::Switch(v, cases, targets) => spec_select_target(*v, cases, targets, 0),
        _ => arbitrary(),
    }
}

impl Expr {
    /// The target this switch selects: the case values are compared in
    /// order against the scrutinee tree, the first deep-equal one selects
    /// the target of the same position, and the last target is the default
    /// when none matches.
    #[verifier::loop_isolation(false)]
    pub fn switch_target(&self) -> (r: &Expr)
        requires
            self@ is Switch,
            self@->Switch_2.len() == self@->Switch_1.len() + 1,
        ensures
            r@ == spec_switch_target(self@),
    {
        broadcast use group_view_seq;

        match self {
            Expr::Switch(v, cases, targets) => {
                let ghost vv = view_expr(**v);
                let ghost cs = view_expr_seq(cases@);
                let ghost ts = view_expr_seq(targets@);
                let mut i: usize = 0;
                while i < cases.len()
                    invariant
                        i <= cases@.len(),
                        spec_select_target(vv, cs, ts, 0) == spec_select_target(
                            vv,
                            cs,
                            ts,
                            i as int,
                        ),
                    decreases cases@.len() - i,
                {
                    if eq_expr(&cases[i], v) {
                        return &targets[i];
                    }
                    i += 1;
                }
                &targets[targets.len() - 1]
            },
            _ => unreached(),
        }
    }
}

/// Law: every expression tree contains itself.
pub proof fn lemma_contains_refl(e: ExprSpec)
    ensures
        spec_contains(e, e),
{
}

/// Law: containment is monotone under sub-tree embedding: whatever a
/// sub-expression contains, the whole tree contains as well.
pub proof fn lemma_contains_trans(a: ExprSpec, b: ExprSpec, c: ExprSpec)
    requires
        spec_contains(a, b),
        spec_contains(b, c),
    ensures
        spec_contains(a, c),
    decreases a,
{
    broadcast use lemma_contains_seq;

    if a == b {
    } else {
        match a {
            ExprSpec::Apply(f, args) => {
                if spec_contains(*f, b) {
                    lemma_contains_trans(*f, b, c);
                } else {
                    assert(spec_contains_seq(args, b));
                    let i = choose|i: int| 0 <= i < args.len() && spec_contains(args[i], b);
                    lemma_contains_trans(args[i], b, c);
                    assert(spec_contains_seq(args, c));
                }
            },
            ExprSpec::Switch(v, cases, targets) => {
                if spec_contains(*v, b) {
                    lemma_contains_trans(*v, b, c);
                } else if spec_contains_seq(cases, b) {
                    let i = choose|i: int| 0 <= i < cases.len() && spec_contains(cases[i], b);
                    lemma_contains_trans(cases[i], b, c);
                    assert(spec_contains_seq(cases, c));
                } else {
                    assert(spec_contains_seq(targets, b));
                    let i = choose|i: int| 0 <= i < targets.len() && spec_contains(targets[i], b);
                    lemma_contains_trans(targets[i], b, c);
                    assert(spec_contains_seq(targets, c));
                }
            },
            ExprSpec::BinaryOp(_, lhs, rhs) => {
                if spec_contains(*lhs, b) {
                    lemma_contains_trans(*lhs, b, c);
                } else {
                    lemma_contains_trans(*rhs, b, c);
                }
            },
            _ => {
            },
        }
    }
}

/// Substitution leaves a sequence unchanged when the target occurs in none
/// of its elements.
proof fn lemma_replace_seq_absent(es: Seq<ExprSpec>, t: ExprSpec, s: ExprSpec)
    requires
        !spec_contains_seq(es, t),
    ensures
        spec_replace_seq(es, t, s) == es,
    decreases es,
{
    if es.len() > 0 {
        lemma_replace_seq_absent(es.drop_last(), t, s);
        lemma_replace_absent(es.last(), t, s);
        assert(spec_replace_seq(es, t, s) =~= es);
    } else {
        assert(spec_replace_seq(es, t, s) =~= es);
    }
}

/// Law: substitution is vacuous under non-overlap: if the target does not
/// occur in a tree, replacing it changes nothing.
pub proof fn lemma_replace_absent(e: ExprSpec, t: ExprSpec, s: ExprSpec)
    requires
        !spec_contains(e, t),
    ensures
        spec_replace(e, t, s) == e,
    decreases e,
{
    match e {
        ExprSpec::Apply(f, args) => {
            lemma_replace_absent(*f, t, s);
            lemma_replace_seq_absent(args, t, s);
            assert(spec_replace(e, t, s) =~= e);
        },
        ExprSpec::Switch(v, cases, targets) => {
            lemma_replace_absent(*v, t, s);
            lemma_replace_seq_absent(cases, t, s);
            lemma_replace_seq_absent(targets, t, s);
            assert(spec_replace(e, t, s) =~= e);
        },
        ExprSpec::BinaryOp(_, lhs, rhs) => {
            lemma_replace_absent(*lhs, t, s);
            lemma_replace_absent(*rhs, t, s);
            assert(spec_replace(e, t, s) =~= e);
        },
        _ => {
        },
    }
}

/// Law: substituting a call site's callee. For an application whose callee
/// deep-equals the target and whose arguments do not contain the target,
/// substitution puts the replacement exactly in callee position and leaves
/// the arguments untouched. (If an argument did contain the target, that
/// argument would be rewritten as well.)
pub proof fn lemma_replace_callee(
    target: ExprSpec,
    args: Seq<ExprSpec>,
    g: ExprSpec,
)
    requires
        target !is Apply,
        forall|i: int| 0 <= i < args.len() ==> !spec_contains(args[i], target),
    ensures
        spec_replace(ExprSpec::Apply(Box::new(target), args), target, g) == ExprSpec::Apply(
            Box::new(g),
            args,
        ),
{
    broadcast use lemma_contains_seq;

    let e = ExprSpec::Apply(Box::new(target), args);
    assert(!spec_contains_seq(args, target));
    lemma_replace_seq_absent(args, target, g);
    assert(spec_replace(target, target, g) == g);
    assert(spec_replace(e, target, g) =~= ExprSpec::Apply(Box::new(g), args));
}

impl FuncDef {
    /// True when the body holds a reference to this function's own identity
    /// with its own type: purely syntactic direct recursion. Indirect
    /// (mutual) recursion, or a self-reference hidden behind an unresolved
    /// constant parameter, is not detected.
    pub fn is_recursive(&self) -> (r: bool)
        ensures
            r == spec_is_recursive(self@),
    {
        self.body.contains(&Expr::Value(Value::Function(self.def_id, self.ty.clone())))
    }
}

/// The number of nodes in a tree: the measure by which the rendering
/// functions recurse.
pub open spec fn size_expr(e: ExprSpec) -> nat
    decreases e,
{
    match e {
        ExprSpec::Value(_) => 1,
        ExprSpec::Apply(f, args) => 1 + size_expr(*f) + size_seq(args),
        ExprSpec::BinaryOp(_, lhs, rhs) => 1 + size_expr(*lhs) + size_expr(*rhs),
        ExprSpec::Switch(v, cases, targets) => 1 + size_expr(*v) + size_seq(cases) + size_seq(
            targets,
        ),
        ExprSpec::Uninitialized => 1,
    }
}

/// The total number of nodes in a sequence of trees.
pub open spec fn size_seq(es: Seq<ExprSpec>) -> nat
    decreases es,
{
    if es.len() == 0 {
        0
    } else {
        size_seq(es.drop_last()) + size_expr(es.last())
    }
}

/// Every element of a sequence is at most as large as the whole sequence.
proof fn lemma_size_seq_bound(es: Seq<ExprSpec>, i: int)
    requires
        0 <= i < es.len(),
    ensures
        size_expr(es[i]) <= size_seq(es),
    decreases es,
{
    if i == es.len() - 1 {
        assert(es.last() == es[i]);
    } else {
        lemma_size_seq_bound(es.drop_last(), i);
        assert(es.drop_last()[i] == es[i]);
    }
}

/// The canonical rendering of a type: `(int W)`, `(uint W)`, `bool`, or,
/// for a function type, the space-joined rendering of its argument types
/// only (constant parameters are omitted from a bare type rendering).
pub open spec fn spec_render_ty(t: TySpec) -> Seq<char>
    decreases t, 0int,
{
    match t {
        TySpec::Int(n) => "(int "@ + dec_str(n as nat) + ")"@,
        TySpec::Uint(n) => "(uint "@ + dec_str(n as nat) + ")"@,
        TySpec::Bool => "bool"@,
        TySpec::Func(args, _) => spec_render_ty_list(args, 0),
    }
}

/// The renderings of the types from position `i` on, joined by one space.
pub open spec fn spec_render_ty_list(ts: Seq<TySpec>, i: int) -> Seq<char>
    decreases ts, ts.len() - i,
{
    if i < 0 || i >= ts.len() {
        Seq::empty()
    } else if i == ts.len() - 1 {
        spec_render_ty(ts[i])
    } else {
        spec_render_ty(ts[i]) + " "@ + spec_render_ty_list(ts, i + 1)
    }
}

/// The canonical rendering of a constant parameter: `(pI TY)`.
pub open spec fn spec_render_param(p: ParamSpec) -> Seq<char> {
    match p {
        ParamSpec::Const(i, t) => "(p"@ + dec_str(i as nat) + " "@ + spec_render_ty(t) + ")"@,
    }
}

/// The renderings of the parameters from position `i` on, joined by one
/// space.
pub open spec fn spec_render_param_list(ps: Seq<ParamSpec>, i: int) -> Seq<char>
    decreases ps.len() - i,
{
    if i < 0 || i >= ps.len() {
        Seq::empty()
    } else if i == ps.len() - 1 {
        spec_render_param(ps[i])
    } else {
        spec_render_param(ps[i]) + " "@ + spec_render_param_list(ps, i + 1)
    }
}

/// The canonical rendering of a function identity.
pub open spec fn spec_render_def_id(d: DefId) -> Seq<char> {
    "DefId("@ + dec_str(d.krate as nat) + ":"@ + dec_str(d.index as nat) + ")"@
}

/// The canonical rendering of a leaf value: `_I` for an argument,
/// `(const TY C)` for a constant, the identity text for a function
/// reference, and `pI` for a constant-parameter reference.
pub open spec fn spec_render_value(v: ValueSpec) -> Seq<char> {
    match v {
        ValueSpec::Arg(i, _) => "_"@ + dec_str(i as nat),
        ValueSpec::Const(c, t) => "(const "@ + spec_render_ty(t) + " "@ + dec_str(c as nat)
            + ")"@,
        ValueSpec::Function(d, _) => spec_render_def_id(d),
        ValueSpec::ConstParam(p) => match p {
            ParamSpec::Const(i, _) => "p"@ + dec_str(i as nat),
        },
    }
}

/// Whether the canonical rendering is defined on this tree: every `Switch`
/// node must carry exactly one more target than case values.
pub open spec fn spec_renderable(e: ExprSpec) -> bool
    decreases e,
{
    match e {
        ExprSpec::Value(_) => true,
        ExprSpec::Apply(f, args) => spec_renderable(*f) && spec_renderable_seq(args),
        ExprSpec::BinaryOp(_, lhs, rhs) => spec_renderable(*lhs) && spec_renderable(*rhs),
        ExprSpec::Switch(v, cases, targets) => targets.len() == cases.len() + 1
            && spec_renderable(*v) && spec_renderable_seq(cases) && spec_renderable_seq(targets),
        ExprSpec::Uninitialized => true,
    }
}

/// Whether every element of a sequence is renderable.
pub open spec fn spec_renderable_seq(es: Seq<ExprSpec>) -> bool
    decreases es,
{
    if es.len() == 0 {
        true
    } else {
        spec_renderable_seq(es.drop_last()) && spec_renderable(es.last())
    }
}

/// A sequence is renderable if and only if each of its elements is.
pub broadcast proof fn lemma_renderable_seq(es: Seq<ExprSpec>)
    ensures
        #[trigger] spec_renderable_seq(es) <==> forall|i: int|
            0 <= i < es.len() ==> spec_renderable(es[i]),
    decreases es,
{
    if es.len() > 0 {
        lemma_renderable_seq(es.drop_last());
        assert forall|i: int|
            0 <= i < es.len() && spec_renderable_seq(es) implies spec_renderable(es[i]) by {
            if i < es.len() - 1 {
                assert(es.drop_last()[i] == es[i]);
            } else {
                assert(es.last() == es[i]);
            }
        }
        if forall|i: int| 0 <= i < es.len() ==> spec_renderable(es[i]) {
            assert forall|i: int|
                0 <= i < es.drop_last().len() implies spec_renderable(es.drop_last()[i]) by {
                assert(es.drop_last()[i] == es[i]);
            }
            assert(spec_renderable(es[es.len() - 1]));
        }
    }
}

/// The canonical, fully parenthesised rendering of an expression tree.
pub open spec fn spec_render_expr(e: ExprSpec) -> Seq<char>
    decreases size_expr(e), 0int,
{
    match e {
        ExprSpec::Value(v) => spec_render_value(v),
        ExprSpec::Apply(f, args) => "("@ + spec_render_expr(*f) + " "@ + spec_render_expr_list(
            args,
            0,
        ) + ")"@,
        ExprSpec::BinaryOp(op, lhs, rhs) => "("@ + spec_op_symbol(op) + " "@ + spec_render_expr(
            *lhs,
        ) + " "@ + spec_render_expr(*rhs) + ")"@,
        ExprSpec::Switch(v, cases, targets) => if targets.len() == 0 {
            arbitrary()
        } else {
            "(switch "@ + spec_render_expr(*v) + " "@ + spec_render_pairs(cases, targets, 0)
                + " (else -> "@ + spec_render_expr(targets.last()) + "))"@
        },
        ExprSpec::Uninitialized => "uninitialized"@,
    }
}

/// The renderings of the trees from position `i` on, joined by one space.
pub open spec fn spec_render_expr_list(es: Seq<ExprSpec>, i: int) -> Seq<char>
    decreases size_seq(es), es.len() - i,
    via spec_render_expr_list_decreases
{
    if i < 0 || i >= es.len() {
        Seq::empty()
    } else if i == es.len() - 1 {
        spec_render_expr(es[i])
    } else {
        spec_render_expr(es[i]) + " "@ + spec_render_expr_list(es, i + 1)
    }
}

#[via_fn]
proof fn spec_render_expr_list_decreases(es: Seq<ExprSpec>, i: int) {
    if 0 <= i < es.len() {
        lemma_size_seq_bound(es, i);
    }
}

/// The `(CASE -> TARGET)` pairs of a switch from position `i` on, joined by
/// one space; pairs exist while both a case value and a target remain.
pub open spec fn spec_render_pairs(cs: Seq<ExprSpec>, ts: Seq<ExprSpec>, i: int) -> Seq<char>
    decreases size_seq(cs) + size_seq(ts), cs.len() - i,
    via spec_render_pairs_decreases
{
    if i < 0 || i >= cs.len() || i >= ts.len() {
        Seq::empty()
    } else {
        let head = "("@ + spec_render_expr(cs[i]) + " -> "@ + spec_render_expr(ts[i]) + ")"@;
        if i == cs.len() - 1 || i == ts.len() - 1 {
            head
        } else {
            head + " "@ + spec_render_pairs(cs, ts, i + 1)
        }
    }
}

#[via_fn]
proof fn spec_render_pairs_decreases(cs: Seq<ExprSpec>, ts: Seq<ExprSpec>, i: int) {
    if 0 <= i < cs.len() {
        lemma_size_seq_bound(cs, i);
    }
    if 0 <= i < ts.len() {
        lemma_size_seq_bound(ts, i);
    }
}

/// The canonical rendering of a whole function definition:
/// `(defun ID<PARAMS> TYPE BODY)`.
pub open spec fn spec_render_funcdef(f: FuncDefSpec) -> Seq<char>
    recommends
        f.ty is Func,
{
    match f.ty {
        TySpec::Func(_, params) => "(defun "@ + spec_render_def_id(f.def_id) + "<"@
            + spec_render_param_list(params, 0) + "> "@ + spec_render_ty(f.ty) + " "@
            + spec_render_expr(f.body) + ")"@,
        _ => arbitrary(),
    }
}

fn append_ty(out: &mut String, t: &Ty)
    ensures
        final(out)@ == old(out)@ + spec_render_ty(t@),
    decreases *t, 0int,
{
    match t {
        Ty::Int(n) => {
            out.append("(int ");
            append_dec_usize(out, *n);
            out.append(")");
        },
        Ty::Uint(n) => {
            out.append("(uint ");
            append_dec_usize(out, *n);
            out.append(")");
        },
        Ty::Bool => {
            out.append("bool");
        },
        Ty::Func(args, _) => {
            append_ty_list(out, args, 0);
        },
    }
    proof {
        assert(final(out)@ =~= old(out)@ + spec_render_ty(t@));
    }
}

#[verifier::loop_isolation(false)]
fn append_ty_list(out: &mut String, x: &Vec<Ty>, i: usize)
    ensures
        final(out)@ == old(out)@ + spec_render_ty_list(view_ty_seq(x@), i as int),
    decreases *x, x@.len() - i,
{
    broadcast use group_view_seq;

    if i >= x.len() {
        proof {
            assert(final(out)@ =~= old(out)@ + spec_render_ty_list(view_ty_seq(x@), i as int));
        }
        return ;
    }
    append_ty(out, &x[i]);
    if i + 1 < x.len() {
        out.append(" ");
        append_ty_list(out, x, i + 1);
    }
    proof {
        assert(final(out)@ =~= old(out)@ + spec_render_ty_list(view_ty_seq(x@), i as int));
    }
}

fn append_param(out: &mut String, p: &Param)
    ensures
        final(out)@ == old(out)@ + spec_render_param(p@),
{
    match p {
        Param::Const(i, t) => {
            out.append("(p");
            append_dec_usize(out, *i);
            out.append(" ");
            append_ty(out, t);
            out.append(")");
        },
    }
    proof {
        assert(final(out)@ =~= old(out)@ + spec_render_param(p@));
    }
}

#[verifier::loop_isolation(false)]
fn append_param_list(out: &mut String, x: &Vec<Param>, i: usize)
    ensures
        final(out)@ == old(out)@ + spec_render_param_list(view_param_seq(x@), i as int),
    decreases x@.len() - i,
{
    broadcast use group_view_seq;

    if i >= x.len() {
        proof {
            assert(final(out)@ =~= old(out)@ + spec_render_param_list(
                view_param_seq(x@),
                i as int,
            ));
        }
        return ;
    }
    append_param(out, &x[i]);
    if i + 1 < x.len() {
        out.append(" ");
        append_param_list(out, x, i + 1);
    }
    proof {
        assert(final(out)@ =~= old(out)@ + spec_render_param_list(view_param_seq(x@), i as int));
    }
}

fn append_def_id(out: &mut String, d: &DefId)
    ensures
        final(out)@ == old(out)@ + spec_render_def_id(*d),
{
    out.append("DefId(");
    append_dec(out, d.krate as u128);
    out.append(":");
    append_dec(out, d.index as u128);
    out.append(")");
    proof {
        assert(final(out)@ =~= old(out)@ + spec_render_def_id(*d));
    }
}

fn append_value(out: &mut String, v: &Value)
    ensures
        final(out)@ == old(out)@ + spec_render_value(v@),
{
    match v {
        Value::Arg(i, _) => {
            out.append("_");
            append_dec_usize(out, *i);
        },
        Value::Const(c, t) => {
            out.append("(const ");
            append_ty(out, t);
            out.append(" ");
            append_dec(out, *c);
            out.append(")");
        },
        Value::Function(d, _) => {
            append_def_id(out, d);
        },
        Value::ConstParam(p) => match p {
            Param::Const(i, _) => {
                out.append("p");
                append_dec_usize(out, *i);
            },
        },
    }
    proof {
        assert(final(out)@ =~= old(out)@ + spec_render_value(v@));
    }
}

fn append_expr(out: &mut String, e: &Expr)
    requires
        spec_renderable(e@),
    ensures
        final(out)@ == old(out)@ + spec_render_expr(e@),
    decreases size_expr(view_expr(*e)), 0int,
{
    broadcast use group_view_seq, lemma_renderable_seq;

    match e {
        Expr::Value(v) => {
            append_value(out, v);
        },
        Expr::Apply(f, args) => {
            out.append("(");
            append_expr(out, f);
            out.append(" ");
            append_expr_list(out, args, 0);
            out.append(")");
        },
        Expr::BinaryOp(op, lhs, rhs) => {
            out.append("(");
            out.append(op.symbol());
            out.append(" ");
            append_expr(out, lhs);
            out.append(" ");
            append_expr(out, rhs);
            out.append(")");
        },
        Expr::Switch(v, cases, targets) => {
            out.append("(switch ");
            append_expr(out, v);
            out.append(" ");
            append_pairs(out, cases, targets, 0);
            out.append(" (else -> ");
            proof {
                lemma_size_seq_bound(view_expr_seq(targets@), targets@.len() - 1);
                assert(e@ matches ExprSpec::Switch(vv, cc, tt) && tt == view_expr_seq(targets@)
                    && tt.len() == cc.len() + 1);
                assert(spec_renderable_seq(view_expr_seq(targets@)));
                assert(spec_renderable(view_expr_seq(targets@)[targets@.len() - 1]));
                assert(view_expr_seq(targets@)[targets@.len() - 1] == view_expr(
                    targets@[targets@.len() - 1],
                ));
            }
            append_expr(out, &targets[targets.len() - 1]);
            out.append("))");
        },
        Expr::Uninitialized => {
            out.append("uninitialized");
        },
    }
    proof {
        assert(final(out)@ =~= old(out)@ + spec_render_expr(e@));
    }
}

#[verifier::loop_isolation(false)]
fn append_expr_list(out: &mut String, x: &Vec<Expr>, i: usize)
    requires
        spec_renderable_seq(view_expr_seq(x@)),
    ensures
        final(out)@ == old(out)@ + spec_render_expr_list(view_expr_seq(x@), i as int),
    decreases size_seq(view_expr_seq(x@)), x@.len() - i,
{
    broadcast use group_view_seq, lemma_renderable_seq;

    if i >= x.len() {
        proof {
            assert(final(out)@ =~= old(out)@ + spec_render_expr_list(
                view_expr_seq(x@),
                i as int,
            ));
        }
        return ;
    }
    proof {
        lemma_size_seq_bound(view_expr_seq(x@), i as int);
    }
    append_expr(out, &x[i]);
    if i + 1 < x.len() {
        out.append(" ");
        append_expr_list(out, x, i + 1);
    }
    proof {
        assert(final(out)@ =~= old(out)@ + spec_render_expr_list(view_expr_seq(x@), i as int));
    }
}

#[verifier::loop_isolation(false)]
fn append_pairs(out: &mut String, cases: &Vec<Expr>, targets: &Vec<Expr>, i: usize)
    requires
        spec_renderable_seq(view_expr_seq(cases@)),
        spec_renderable_seq(view_expr_seq(targets@)),
    ensures
        final(out)@ == old(out)@ + spec_render_pairs(
            view_expr_seq(cases@),
            view_expr_seq(targets@),
            i as int,
        ),
    decreases size_seq(view_expr_seq(cases@)) + size_seq(view_expr_seq(targets@)),
        cases@.len() - i,
{
    broadcast use group_view_seq, lemma_renderable_seq;

    if i >= cases.len() || i >= targets.len() {
        proof {
            assert(final(out)@ =~= old(out)@ + spec_render_pairs(
                view_expr_seq(cases@),
                view_expr_seq(targets@),
                i as int,
            ));
        }
        return ;
    }
    proof {
        lemma_size_seq_bound(view_expr_seq(cases@), i as int);
        lemma_size_seq_bound(view_expr_seq(targets@), i as int);
    }
    out.append("(");
    append_expr(out, &cases[i]);
    out.append(" -> ");
    append_expr(out, &targets[i]);
    out.append(")");
    if i + 1 < cases.len() && i + 1 < targets.len() {
        out.append(" ");
        append_pairs(out, cases, targets, i + 1);
    }
    proof {
        assert(final(out)@ =~= old(out)@ + spec_render_pairs(
            view_expr_seq(cases@),
            view_expr_seq(targets@),
            i as int,
        ));
    }
}

impl Ty {
    /// The canonical textual rendering of this type.
    pub fn to_text(&self) -> (r: String)
        ensures
            r@ == spec_render_ty(self@),
    {
        let mut out = String::new();
        append_ty(&mut out, self);
        proof {
            assert(out@ =~= spec_render_ty(self@));
        }
        out
    }
}

impl Param {
    /// The canonical textual rendering of this constant parameter.
    pub fn to_text(&self) -> (r: String)
        ensures
            r@ == spec_render_param(self@),
    {
        let mut out = String::new();
        append_param(&mut out, self);
        proof {
            assert(out@ =~= spec_render_param(self@));
        }
        out
    }
}

impl Value {
    /// The canonical textual rendering of this leaf value.
    pub fn to_text(&self) -> (r: String)
        ensures
            r@ == spec_render_value(self@),
    {
        let mut out = String::new();
        append_value(&mut out, self);
        proof {
            assert(out@ =~= spec_render_value(self@));
        }
        out
    }
}

impl Expr {
    /// The canonical textual rendering of this expression tree; pure, and
    /// deterministic in the tree's structure alone.
    pub fn to_text(&self) -> (r: String)
        requires
            spec_renderable(self@),
        ensures
            r@ == spec_render_expr(self@),
    {
        let mut out = String::new();
        append_expr(&mut out, self);
        proof {
            assert(out@ =~= spec_render_expr(self@));
        }
        out
    }
}

impl FuncDef {
    /// The canonical textual rendering of this function definition.
    pub fn to_text(&self) -> (r: String)
        requires
            self@.ty is Func,
            spec_renderable(self@.body),
        ensures
            r@ == spec_render_funcdef(self@),
    {
        let mut out = String::new();
        match &self.ty {
            Ty::Func(_, params) => {
                out.append("(defun ");
                append_def_id(&mut out, &self.def_id);
                out.append("<");
                append_param_list(&mut out, params, 0);
                out.append("> ");
                append_ty(&mut out, &self.ty);
                out.append(" ");
                append_expr(&mut out, &self.body);
                out.append(")");
            },
            _ => {
                proof {
                    assert(false);
                }
            },
        }
        proof {
            assert(out@ =~= spec_render_funcdef(self@));
        }
        out
    }
}

/// Law: rendering is deterministic, a pure projection of the tree's
/// structure: structurally equal trees render to identical text.
pub proof fn lemma_render_deterministic(a: ExprSpec, b: ExprSpec)
    requires
        a == b,
    ensures
        spec_render_expr(a) == spec_render_expr(b),
{
}


/// Law: rendering separates operators — two binary operations with
/// different operators render to different text, whatever their operands.
pub proof fn lemma_render_binop_distinct(
    a: BinOp,
    b: BinOp,
    al: ExprSpec,
    ar: ExprSpec,
    bl: ExprSpec,
    br: ExprSpec,
)
    requires
        a != b,
    ensures
        spec_render_expr(ExprSpec::BinaryOp(a, Box::new(al), Box::new(ar)))
            != spec_render_expr(ExprSpec::BinaryOp(b, Box::new(bl), Box::new(br))),
{
    reveal_strlit("(");
    reveal_strlit(" ");
    reveal_strlit("+");
    reveal_strlit("-");
    reveal_strlit("*");
    reveal_strlit("/");
    reveal_strlit("%");
    reveal_strlit("=");
    reveal_strlit("<");
    reveal_strlit("<=");
    reveal_strlit("!=");
    reveal_strlit(">=");
    reveal_strlit(">");
    let sa = spec_render_expr(ExprSpec::BinaryOp(a, Box::new(al), Box::new(ar)));
    let sb = spec_render_expr(ExprSpec::BinaryOp(b, Box::new(bl), Box::new(br)));
    // The characters at positions one and two identify the operator: the
    // first symbol character, then either its second character or the
    // separating space.
    lemma_binop_mark(a, al, ar);
    lemma_binop_mark(b, bl, br);
    if sa == sb {
        assert((sa[1], sa[2]) == op_mark(a));
        assert((sb[1], sb[2]) == op_mark(b));
        assert(op_mark(a) != op_mark(b));
    }
}

/// The two characters that follow the opening parenthesis in the rendering
/// of a binary operation; distinct for distinct operators.
spec fn op_mark(op: BinOp) -> (char, char) {
    match op {
        BinOp::Add => ('+', ' '),
        BinOp::Sub => ('-', ' '),
        BinOp::Mul => ('*', ' '),
        BinOp::Div => ('/', ' '),
        BinOp::Rem => ('%', ' '),
        BinOp::Eq => ('=', ' '),
        BinOp::Lt => ('<', ' '),
        BinOp::Le => ('<', '='),
        BinOp::Ne => ('!', '='),
        BinOp::Ge => ('>', '='),
        BinOp::Gt => ('>', ' '),
    }
}

/// The rendering of a binary operation carries its operator's mark at
/// positions one and two.
proof fn lemma_binop_mark(op: BinOp, l: ExprSpec, r: ExprSpec)
    ensures
        ({
            let s = spec_render_expr(ExprSpec::BinaryOp(op, Box::new(l), Box::new(r)));
            s.len() > 2 && s[1] == op_mark(op).0 && s[2] == op_mark(op).1
        }),
{
    reveal_strlit("(");
    reveal_strlit(" ");
    reveal_strlit("+");
    reveal_strlit("-");
    reveal_strlit("*");
    reveal_strlit("/");
    reveal_strlit("%");
    reveal_strlit("=");
    reveal_strlit("<");
    reveal_strlit("<=");
    reveal_strlit("!=");
    reveal_strlit(">=");
    reveal_strlit(">");
}

/// Law: rendering separates constant literals — two constants of the same
/// type but different magnitude render to different text.
pub proof fn lemma_render_const_distinct(c1: u128, c2: u128, t: TySpec)
    requires
        c1 != c2,
    ensures
        spec_render_value(ValueSpec::Const(c1, t)) != spec_render_value(ValueSpec::Const(c2, t)),
{
    let p = "(const "@ + spec_render_ty(t) + " "@;
    let s1 = spec_render_value(ValueSpec::Const(c1, t));
    let s2 = spec_render_value(ValueSpec::Const(c2, t));
    assert(s1 =~= p + dec_str(c1 as nat) + ")"@);
    assert(s2 =~= p + dec_str(c2 as nat) + ")"@);
    if s1 == s2 {
        assert(dec_str(c1 as nat).len() == dec_str(c2 as nat).len());
        assert forall|i: int|
            0 <= i < dec_str(c1 as nat).len() implies dec_str(c1 as nat)[i] == dec_str(
            c2 as nat,
        )[i] by {
            assert(dec_str(c1 as nat)[i] == s1[p.len() + i]);
            assert(dec_str(c2 as nat)[i] == s2[p.len() + i]);
        }
        assert(dec_str(c1 as nat) =~= dec_str(c2 as nat));
        crate::text::lemma_dec_str_injective(c1 as nat, c2 as nat);
    }
}


} // verus!
