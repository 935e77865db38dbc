//! The runtime core of a small Python interpreter.

pub mod args;
pub mod asyncio;
pub mod builtins;
pub mod call_map;
pub mod containers;
pub mod duplicate;
pub mod equality;
pub mod equality_laws;
pub mod error;
pub mod error_results;
pub mod exception;
pub mod frame;
pub mod heap;
pub mod heap_laws;
pub mod ids;
pub mod indexing;
pub mod interns;
pub mod iteration;
pub mod list;
pub mod list_laws;
pub mod list_methods;
pub mod list_ownership;
pub mod list_results;
pub mod long_int;
pub mod message_laws;
pub mod messages;
pub mod name_map;
pub mod names;
pub mod namespaces;
pub mod object;
pub mod object_laws;
pub mod ordering;
pub mod ownership;
pub mod print;
pub mod print_laws;
pub mod program_laws;
pub mod ref_counts;
pub mod repr;
pub mod resource;
pub mod resume;
pub mod run;
pub mod run_results;
pub mod slicing;
pub mod small_values;
pub mod sort;
pub mod sort_results;
pub mod text;
pub mod types;
pub mod value;
pub mod value_laws;
pub mod view_laws;
pub mod visited;
pub mod vm;
