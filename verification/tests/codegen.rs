use quasm::codegen::{Codegen, ValKind};

#[test]
fn signatures_are_added_once() {
    let mut g = Codegen::new();
    assert_eq!(g.func_sig_index(vec![ValKind::I32, ValKind::I32], vec![ValKind::I32]), 0);
    assert_eq!(g.func_sig_index(vec![], vec![]), 1);
    assert_eq!(g.func_sig_index(vec![ValKind::I32, ValKind::I32], vec![ValKind::I32]), 0);
    assert_eq!(g.func_sig_index(vec![ValKind::F64], vec![ValKind::I64]), 2);
    assert_eq!(g.func_sig_index(vec![], vec![]), 1);
    assert_eq!(g.func_sig_index(vec![ValKind::I64], vec![ValKind::F64]), 3);
}
