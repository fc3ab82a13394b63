[package]
name = "sql_engine"
version = "0.1.0"
edition = "2021"
publish = false

[dependencies]
bigdecimal = "=0.2.2"
dashmap = "=5.5.3"
log = "=0.4.34"
sql-ast = "=0.8.0"
sqlparser = "=0.6.1"
