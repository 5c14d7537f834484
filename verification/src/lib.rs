pub mod text;
pub mod tokenize;
pub mod syntax_tree;
