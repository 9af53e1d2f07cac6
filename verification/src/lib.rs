//! A minimal command-line toolkit: subcommand dispatch, text joining for
//! `echo`/`cat`/`ls`, a directory-tree model with its renderer, and
//! regex-backed search output for `grep`.

pub mod cli;
pub mod grep;
pub mod tree;
