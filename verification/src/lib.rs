//! Build-orchestration core of a compiler front end: starting from a set of
//! root source files, discover the transitive closure of files reachable
//! through import edges, parse each file exactly once, and report aggregate
//! success or failure.

pub mod ast;
pub mod closure;
pub mod dedup;
pub mod package;
pub mod parser;
pub mod paths;
pub mod props;
pub mod strutil;
pub mod workqueue;
