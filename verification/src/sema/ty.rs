use vstd::prelude::*;
use crate::common::ast::BinOpKind;

verus! {

/// The types of checked expressions.
#[derive(Debug)]
pub enum Ty {
    Int,
    Float,
    Bool,
    Unit,
    Array(Box<Ty>),
    Func { params: Vec<Ty>, ret: Box<Ty> },
    /// Not yet known: an unannotated parameter.
    Infer,
}

/// The mathematical form of a type.
pub enum SemTy {
    Int,
    Float,
    Bool,
    Unit,
    Array(Box<SemTy>),
    Func { params: Seq<SemTy>, ret: Box<SemTy> },
    Infer,
}

pub open spec fn sem_ty(t: Ty) -> SemTy
    decreases t,
{
    match t {
        Ty::Int => SemTy::Int,
        Ty::Float => SemTy::Float,
        Ty::Bool => SemTy::Bool,
        Ty::Unit => SemTy::Unit,
        Ty::Array(inner) => SemTy::Array(Box::new(sem_ty(*inner))),
        Ty::Func { params, ret } => SemTy::Func { params: sem_tys(params@), ret: Box::new(sem_ty(*ret)) },
        Ty::Infer => SemTy::Infer,
    }
}

pub open spec fn sem_tys(ts: Seq<Ty>) -> Seq<SemTy>
    decreases ts,
{
    Seq::new(ts.len(), |i: int| if 0 <= i < ts.len() { sem_ty(ts[i]) } else { SemTy::Unit })
}

impl View for Ty {
    type V = SemTy;

    open spec fn view(&self) -> SemTy {
        sem_ty(*self)
    }
}

pub open spec fn is_numeric(t: SemTy) -> bool {
    t is Int || t is Float
}

pub open spec fn is_bool(t: SemTy) -> bool {
    t is Bool
}

pub open spec fn is_primitive(t: SemTy) -> bool {
    t is Int || t is Float || t is Bool
}

/// The type of `left op right`, if the operation is allowed: both sides of one type;
/// arithmetic on numbers gives that type; comparisons of numbers, `==` of primitives,
/// and `!=`, `and`, `or` of booleans give `Bool`.
pub open spec fn bin_op_result(op: BinOpKind, left: SemTy, right: SemTy) -> Option<SemTy> {
    if left != right {
        None
    } else {
        match op {
            BinOpKind::Add | BinOpKind::Sub | BinOpKind::Mul | BinOpKind::Div => if is_numeric(left) { Some(left) } else { None },
            BinOpKind::Lt | BinOpKind::Gt | BinOpKind::LtEq | BinOpKind::GtEq => if is_numeric(left) { Some(SemTy::Bool) } else { None },
            BinOpKind::EqEq => if is_primitive(left) { Some(SemTy::Bool) } else { None },
            BinOpKind::And | BinOpKind::Or | BinOpKind::NotEq => if is_bool(left) { Some(SemTy::Bool) } else { None },
        }
    }
}

/// What each operator gives, operator by operator: nothing is allowed between two
/// different types; `+ - * /` of two integers or two floats give that type; `< > <= >=`
/// of two integers or two floats give `Bool`; `==` of two integers, floats or booleans
/// gives `Bool`; `!=`, `and` and `or` of two booleans give `Bool`. So every allowed
/// operation but the arithmetic ones gives `Bool`.
pub proof fn law_bin_op_result(op: BinOpKind, left: SemTy, right: SemTy)
    ensures
        bin_op_result(op, left, right) is Some ==> left == right,
        (op is Add || op is Sub || op is Mul || op is Div) ==> bin_op_result(op, left, right)
            == (if left == right && (left is Int || left is Float) { Some(left) } else { None }),
        (op is Lt || op is Gt || op is LtEq || op is GtEq) ==> bin_op_result(op, left, right)
            == (if left == right && (left is Int || left is Float) { Some(SemTy::Bool) } else { None }),
        op is EqEq ==> bin_op_result(op, left, right)
            == (if left == right && (left is Int || left is Float || left is Bool) { Some(SemTy::Bool) } else { None }),
        (op is NotEq || op is And || op is Or) ==> bin_op_result(op, left, right)
            == (if left == right && left is Bool { Some(SemTy::Bool) } else { None }),
        !(op is Add || op is Sub || op is Mul || op is Div) && bin_op_result(op, left, right) is Some
            ==> bin_op_result(op, left, right) == Some(SemTy::Bool),
{
}

impl Ty {
    pub fn is_numeric(&self) -> (r: bool)
        ensures
            r == is_numeric(self@),
    {
        matches!(self, Ty::Int | Ty::Float)
    }

    pub fn is_bool(&self) -> (r: bool)
        ensures
            r == is_bool(self@),
    {
        matches!(self, Ty::Bool)
    }

    pub fn is_primitive(&self) -> (r: bool)
        ensures
            r == is_primitive(self@),
    {
        matches!(self, Ty::Int | Ty::Float | Ty::Bool)
    }

    /// Whether two types are the same.
    #[verifier::loop_isolation(false)]
    pub fn same(&self, other: &Ty) -> (r: bool)
        ensures
            r == (self@ == other@),
        decreases self,
    {
        match (self, other) {
            (Ty::Int, Ty::Int) => true,
            (Ty::Float, Ty::Float) => true,
            (Ty::Bool, Ty::Bool) => true,
            (Ty::Unit, Ty::Unit) => true,
            (Ty::Infer, Ty::Infer) => true,
            (Ty::Array(a), Ty::Array(b)) => a.same(b),
            (Ty::Func { params: pa, ret: ra }, Ty::Func { params: pb, ret: rb }) => {
                if pa.len() != pb.len() {
                    proof { assert(sem_tys(pa@).len() != sem_tys(pb@).len()); }
                    return false;
                }
                let mut i: usize = 0;
                while i < pa.len()
                    invariant
                        i <= pa@.len() == pb@.len(),
                        forall|j: int| 0 <= j < i ==> sem_ty(pa@[j]) == sem_ty(pb@[j]),
                    decreases pa@.len() - i,
                {
                    proof { assert(decreases_to!(*self => pa@[i as int])); }
                    if !pa[i].same(&pb[i]) {
                        proof {
                            assert(sem_tys(pa@)[i as int] != sem_tys(pb@)[i as int]);
                            assert(sem_tys(pa@) != sem_tys(pb@));
                        }
                        return false;
                    }
                    i = i + 1;
                }
                proof { assert(sem_tys(pa@) =~= sem_tys(pb@)); }
                ra.same(rb)
            },
            _ => false,
        }
    }

    /// A copy of the type.
    #[verifier::loop_isolation(false)]
    pub fn duplicate(&self) -> (r: Ty)
        ensures
            r@ == self@,
        decreases self,
    {
        match self {
            Ty::Int => Ty::Int,
            Ty::Float => Ty::Float,
            Ty::Bool => Ty::Bool,
            Ty::Unit => Ty::Unit,
            Ty::Infer => Ty::Infer,
            Ty::Array(a) => Ty::Array(Box::new(a.duplicate())),
            Ty::Func { params, ret } => {
                let mut ps: Vec<Ty> = Vec::new();
                let mut i: usize = 0;
                while i < params.len()
                    invariant
                        i <= params@.len(),
                        ps@.len() == i,
                        forall|j: int| 0 <= j < i ==> sem_ty(ps@[j]) == sem_ty(params@[j]),
                    decreases params@.len() - i,
                {
                    proof { assert(decreases_to!(*self => params@[i as int])); }
                    ps.push(params[i].duplicate());
                    i = i + 1;
                }
                proof { assert(sem_tys(ps@) =~= sem_tys(params@)); }
                Ty::Func { params: ps, ret: Box::new(ret.duplicate()) }
            },
        }
    }
}

/// A copy of each type of `ts`.
pub fn duplicate_all(ts: &Vec<Ty>) -> (r: Vec<Ty>)
    ensures
        sem_tys(r@) == sem_tys(ts@),
{
    let mut out: Vec<Ty> = Vec::new();
    let mut i: usize = 0;
    while i < ts.len()
        invariant
            i <= ts@.len(),
            out@.len() == i,
            forall|j: int| 0 <= j < i ==> sem_ty(out@[j]) == sem_ty(ts@[j]),
        decreases ts@.len() - i,
    {
        out.push(ts[i].duplicate());
        i = i + 1;
    }
    proof { assert(sem_tys(out@) =~= sem_tys(ts@)); }
    out
}

impl Clone for Ty {
    fn clone(&self) -> (r: Self)
        ensures
            r@ == self@,
    {
        self.duplicate()
    }
}

impl PartialEq for Ty {
    fn eq(&self, other: &Self) -> (r: bool) {
        self.same(other)
    }
}

impl vstd::std_specs::cmp::PartialEqSpecImpl for Ty {
    open spec fn obeys_eq_spec() -> bool {
        true
    }

    open spec fn eq_spec(&self, other: &Ty) -> bool {
        self@ == other@
    }
}

/// The text of a type as it is debug-printed: `Int`, `Array(Int)`,
/// `Func { params: [Int, Bool], ret: Unit }`.
pub open spec fn ty_text(t: SemTy) -> Seq<char>
    decreases t,
{
    match t {
        SemTy::Int => "Int"@,
        SemTy::Float => "Float"@,
        SemTy::Bool => "Bool"@,
        SemTy::Unit => "Unit"@,
        SemTy::Infer => "Infer"@,
        SemTy::Array(inner) => "Array("@ + ty_text(*inner) + ")"@,
        SemTy::Func { params, ret } => "Func { params: ["@ + tys_text(params) + "], ret: "@ + ty_text(*ret) + " }"@,
    }
}

/// The texts of `ts`, separated by `, `.
pub open spec fn tys_text(ts: Seq<SemTy>) -> Seq<char>
    decreases ts,
{
    if ts.len() == 0 {
        Seq::empty()
    } else if ts.len() == 1 {
        ty_text(ts[0])
    } else {
        tys_text(ts.drop_last()) + ", "@ + ty_text(ts.last())
    }
}

impl Ty {
    /// The debug text of the type (see `ty_text`).
    #[verifier::loop_isolation(false)]
    pub fn debug_text(&self) -> (s: String)
        ensures
            s@ == ty_text(self@),
        decreases self,
    {
        match self {
            Ty::Int => String::from_str("Int"),
            Ty::Float => String::from_str("Float"),
            Ty::Bool => String::from_str("Bool"),
            Ty::Unit => String::from_str("Unit"),
            Ty::Infer => String::from_str("Infer"),
            Ty::Array(inner) => {
                let mut s = String::from_str("Array(");
                let t = inner.debug_text();
                s.append(t.as_str());
                s.append(")");
                s
            },
            Ty::Func { params, ret } => {
                let ghost ps = sem_tys(params@);
                let mut s = String::from_str("Func { params: [");
                let mut i: usize = 0;
                while i < params.len()
                    invariant
                        i <= params@.len(),
                        ps == sem_tys(params@),
                        s@ == "Func { params: ["@ + tys_text(ps.take(i as int)),
                    decreases params@.len() - i,
                {
                    proof { assert(decreases_to!(*self => params@[i as int])); }
                    let ghost before = s@;
                    if i > 0 {
                        s.append(", ");
                    }
                    let t = params[i].debug_text();
                    s.append(t.as_str());
                    proof {
                        let p1 = ps.take(i + 1);
                        assert(p1.drop_last() =~= ps.take(i as int));
                        assert(p1.last() == ps[i as int]);
                        if i == 0 {
                            assert(ps.take(0) =~= Seq::<SemTy>::empty());
                            assert(s@ =~= "Func { params: ["@ + tys_text(p1));
                        } else {
                            assert(s@ =~= "Func { params: ["@ + tys_text(p1));
                        }
                    }
                    i = i + 1;
                }
                proof { assert(ps.take(params@.len() as int) =~= ps); }
                s.append("], ret: ");
                let r = ret.debug_text();
                s.append(r.as_str());
                s.append(" }");
                s
            },
        }
    }
}

/// The type of `left op right`, when the operation is allowed on those types.
pub fn bin_op_ty(op: BinOpKind, left: &Ty, right: &Ty) -> (r: Option<Ty>)
    ensures
        match bin_op_result(op, left@, right@) {
            Some(t) => r is Some && r->Some_0@ == t,
            None => r is None,
        },
{
    if !left.same(right) {
        return None;
    }
    match op {
        BinOpKind::Add | BinOpKind::Sub | BinOpKind::Mul | BinOpKind::Div => if left.is_numeric() { Some(left.duplicate()) } else { None },
        BinOpKind::Lt | BinOpKind::Gt | BinOpKind::LtEq | BinOpKind::GtEq => if left.is_numeric() { Some(Ty::Bool) } else { None },
        BinOpKind::EqEq => if left.is_primitive() { Some(Ty::Bool) } else { None },
        BinOpKind::And | BinOpKind::Or | BinOpKind::NotEq => if left.is_bool() { Some(Ty::Bool) } else { None },
    }
}

} // verus!
