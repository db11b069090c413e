use quasm::common::ast::BinOpKind;
use quasm::sema::ty::{bin_op_ty, Ty};

fn func_ty() -> Ty {
    Ty::Func { params: vec![Ty::Int, Ty::Array(Box::new(Ty::Bool))], ret: Box::new(Ty::Unit) }
}

#[test]
fn arithmetic_needs_numbers_of_one_type() {
    assert_eq!(bin_op_ty(BinOpKind::Add, &Ty::Int, &Ty::Int), Some(Ty::Int));
    assert_eq!(bin_op_ty(BinOpKind::Div, &Ty::Float, &Ty::Float), Some(Ty::Float));
    assert_eq!(bin_op_ty(BinOpKind::Mul, &Ty::Int, &Ty::Float), None);
    assert_eq!(bin_op_ty(BinOpKind::Sub, &Ty::Bool, &Ty::Bool), None);
}

#[test]
fn comparisons_give_bool() {
    assert_eq!(bin_op_ty(BinOpKind::Lt, &Ty::Int, &Ty::Int), Some(Ty::Bool));
    assert_eq!(bin_op_ty(BinOpKind::GtEq, &Ty::Float, &Ty::Float), Some(Ty::Bool));
    assert_eq!(bin_op_ty(BinOpKind::Gt, &Ty::Bool, &Ty::Bool), None);
    assert_eq!(bin_op_ty(BinOpKind::EqEq, &Ty::Bool, &Ty::Bool), Some(Ty::Bool));
    assert_eq!(bin_op_ty(BinOpKind::EqEq, &Ty::Int, &Ty::Int), Some(Ty::Bool));
    assert_eq!(bin_op_ty(BinOpKind::EqEq, &Ty::Unit, &Ty::Unit), None);
    assert_eq!(bin_op_ty(BinOpKind::EqEq, &Ty::Int, &Ty::Bool), None);
}

#[test]
fn logic_needs_bools() {
    assert_eq!(bin_op_ty(BinOpKind::And, &Ty::Bool, &Ty::Bool), Some(Ty::Bool));
    assert_eq!(bin_op_ty(BinOpKind::Or, &Ty::Bool, &Ty::Bool), Some(Ty::Bool));
    assert_eq!(bin_op_ty(BinOpKind::NotEq, &Ty::Bool, &Ty::Bool), Some(Ty::Bool));
    assert_eq!(bin_op_ty(BinOpKind::NotEq, &Ty::Int, &Ty::Int), None);
    assert_eq!(bin_op_ty(BinOpKind::And, &Ty::Int, &Ty::Int), None);
}

#[test]
fn type_classes() {
    assert!(Ty::Int.is_numeric() && Ty::Float.is_numeric() && !Ty::Bool.is_numeric());
    assert!(Ty::Bool.is_bool() && !Ty::Int.is_bool());
    assert!(Ty::Bool.is_primitive() && Ty::Float.is_primitive());
    assert!(!Ty::Unit.is_primitive() && !Ty::Infer.is_primitive() && !func_ty().is_primitive());
}

#[test]
fn debug_text_matches_debug_format() {
    for t in [Ty::Int, Ty::Float, Ty::Bool, Ty::Unit, Ty::Infer, Ty::Array(Box::new(Ty::Int)), func_ty(),
        Ty::Func { params: vec![], ret: Box::new(func_ty()) }]
    {
        assert_eq!(t.debug_text(), format!("{:?}", t));
    }
    assert_eq!(func_ty().debug_text(), "Func { params: [Int, Array(Bool)], ret: Unit }");
}

#[test]
fn type_equality_and_copies() {
    assert_eq!(func_ty(), func_ty().clone());
    assert!(func_ty().same(&func_ty().duplicate()));
    assert_ne!(func_ty(), Ty::Func { params: vec![Ty::Int], ret: Box::new(Ty::Unit) });
    assert_ne!(Ty::Array(Box::new(Ty::Int)), Ty::Array(Box::new(Ty::Bool)));
}

#[test]
fn operator_symbols() {
    assert_eq!(BinOpKind::Add.symbol(), "+");
    assert_eq!(BinOpKind::LtEq.symbol(), "<=");
    assert_eq!(BinOpKind::And.symbol(), "&&");
    assert_eq!(BinOpKind::Or.symbol(), "||");
}
