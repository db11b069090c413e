pub mod ir;
