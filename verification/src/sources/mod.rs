// Where packages come from.
pub mod git_src;
