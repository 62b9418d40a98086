//! A line-filtering pipeline — scan files, keep the lines a pattern matches,
//! print, sort or count them — together with the smaller verified pieces it
//! grew around: big numbers with digit arithmetic, a generic minimum, a
//! bounded queue, a shared counter and a list.

pub mod arith;
pub mod basics;
pub mod bigint;
pub mod config;
pub mod counter;
pub mod decimal;
pub mod digits;
pub mod filter;
pub mod list;
pub mod matcher;
pub mod pipeline;
pub mod queue;
pub mod record;
pub mod sink;
pub mod something;
pub mod source;
pub mod textsearch;
