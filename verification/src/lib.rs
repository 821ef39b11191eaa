//! gitko: a terminal front end for git. This library holds what gitko
//! decides: how it reads git's answers and what its windows show and do.
pub mod ascii_table;
pub mod calls;
pub mod git;
pub mod gitko;
pub mod render;
pub mod text;
