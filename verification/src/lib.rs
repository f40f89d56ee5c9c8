//! A small Lisp: a reader from characters to values, persistent collections,
//! scopes, a stack-machine evaluator and a mark-and-sweep collector, all over
//! one object heap addressed by [`gc::Gc`] handles.
pub mod atom;
pub mod boolean;
pub mod builtins;
pub mod context;
pub mod escape;
pub mod eval;
pub mod function;
pub mod function_kind;
pub mod gc;
pub mod gc_allocator;
pub mod handles;
pub mod keyword;
pub mod kind;
pub mod linked_map;
pub mod list;
pub mod map;
pub mod numbers;
pub mod object;
pub mod persistent_list;
pub mod persistent_map;
pub mod persistent_scope;
pub mod persistent_set;
pub mod persistent_vector;
pub mod reach;
pub mod reader;
pub mod module;
pub mod loading;
pub mod scope;
pub mod scope_table;
pub mod set;
pub mod special_form;
pub mod stack;
pub mod symbol;
pub mod vector;
pub mod value;
pub mod entries;
pub mod fault;
pub mod show;
