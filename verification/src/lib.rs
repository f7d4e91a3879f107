//! Lookup of verbal roots by their code in a tab-separated root list.
pub mod errors;
pub mod args;
pub mod text;
pub mod records;
pub mod dhatupatha;
pub mod lemmas;
pub mod prakriya;
pub mod demo;
