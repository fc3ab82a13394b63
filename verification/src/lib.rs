//! The core of a small SQL database: the types of columns, the packing of
//! rows, tables in memory, the catalog of definitions, the analysis and
//! planning of statements, their execution, the evaluation of expressions,
//! and the session that prepares, binds and answers.
//!
//! Reading and writing, the parsing of SQL text and the decoding of values
//! from the wire are left to the program around the library.

pub mod analyzer;
pub mod binary;
pub mod binder;
pub mod bytes_order;
pub mod coercion;
pub mod data_manager;
pub mod decimal;
pub mod expr_eval;
pub mod expression;
pub mod in_memory;
pub mod metadata;
pub mod name_index;
pub mod name_map;
pub mod processing;
pub mod protocol;
pub mod query_engine;
pub mod query_executor;
pub mod query_planner;
pub mod sql_types;
pub mod statement;
pub mod table_state;
pub mod text;
