use quasm::sema::symbols::SymbolTable;
use quasm::sema::ty::Ty;

#[test]
fn define_then_lookup_function() {
    let mut t = SymbolTable::new();
    assert_eq!(t.define_func("add", vec![Ty::Int, Ty::Int], Ty::Int), Ok(()));
    assert_eq!(t.define_func("add", vec![Ty::Bool], Ty::Unit), Ok(()));
    let f = t.lookup_func("add", Some(Ty::Int)).unwrap();
    assert_eq!(f.id.0, 0);
    assert_eq!(f.params_ty, vec![Ty::Int, Ty::Int]);
    assert_eq!(f.ret_ty, Ty::Int);
    assert_eq!(t.lookup_func("add", Some(Ty::Bool)).unwrap().id.0, 1);
    assert!(t.lookup_func("add", None).is_none());
    assert!(t.lookup_func("sub", Some(Ty::Int)).is_none());
}

#[test]
fn function_errors() {
    let mut t = SymbolTable::new();
    assert_eq!(t.define_func("Bad", vec![], Ty::Unit), Err("function `Bad` must be snake_case".to_string()));
    assert_eq!(t.define_func("f", vec![], Ty::Unit), Ok(()));
    assert_eq!(t.define_func("f", vec![], Ty::Int), Err("function `f` is already defined".to_string()));
    assert_eq!(t.define_func("g", vec![Ty::Array(Box::new(Ty::Int))], Ty::Unit), Ok(()));
    assert_eq!(
        t.define_func("g", vec![Ty::Array(Box::new(Ty::Int)), Ty::Bool], Ty::Unit),
        Err("function `g(Array(Int)...)` is already defined".to_string())
    );
    // a refused declaration changes nothing
    assert_eq!(t.lookup_func("f", None).unwrap().ret_ty, Ty::Unit);
}

#[test]
fn variables_and_scopes() {
    let mut t = SymbolTable::new();
    t.enter_func();
    assert_eq!(t.define_var("x", Ty::Int).unwrap().0, 0);
    t.enter_scope();
    assert_eq!(t.define_var("x", Ty::Bool).unwrap().0, 1);
    assert_eq!(t.lookup_var("x").unwrap().ty, Ty::Bool);
    t.exit_scope();
    let x = t.lookup_var("x").unwrap();
    assert_eq!(x.id.0, 0);
    assert_eq!(x.ty, Ty::Int);
    assert!(t.lookup_var("y").is_none());
    t.exit_func();
    assert!(t.lookup_var("x").is_none());
}

#[test]
fn variable_errors_still_use_a_number() {
    let mut t = SymbolTable::new();
    t.enter_func();
    assert_eq!(t.define_var("Y", Ty::Int), Err("variable `Y` must be snake_case".to_string()));
    assert_eq!(t.define_var("a", Ty::Int).unwrap().0, 0);
    assert_eq!(t.define_var("a", Ty::Int), Err("variable `a` is already defined".to_string()));
    // the refused `a` took number 1
    assert_eq!(t.define_var("b", Ty::Int).unwrap().0, 2);
    // a new function numbers from zero again
    t.enter_func();
    assert_eq!(t.define_var("c", Ty::Int).unwrap().0, 0);
}

#[test]
fn structs_and_fields() {
    let mut t = SymbolTable::new();
    assert_eq!(t.define_struct("point"), Err("struct `point` must be PascalCase".to_string()));
    assert_eq!(t.define_struct("Point").unwrap().0, 0);
    assert_eq!(t.define_struct("Line").unwrap().0, 1);
    assert_eq!(t.define_struct("Point"), Err("struct Point is already defined".to_string()));
    assert!(t.lookup_struct("Point").is_none());
    let fields = vec![("x".to_string(), Ty::Int), ("y".to_string(), Ty::Float)];
    assert_eq!(t.define_struct_fields("Point", &fields).unwrap().0, 0);
    let s = t.lookup_struct("Point").unwrap();
    assert_eq!(s.id.0, 0);
    let names: Vec<&String> = s.fields.keys().collect();
    assert_eq!(names, vec!["x", "y"]);
    assert_eq!(s.fields["y"], Ty::Float);
    let dup = vec![("a".to_string(), Ty::Int), ("a".to_string(), Ty::Bool)];
    assert_eq!(t.define_struct_fields("Line", &dup), Err("field `a` is already defined".to_string()));
    assert!(t.lookup_struct("Line").is_none());
}
