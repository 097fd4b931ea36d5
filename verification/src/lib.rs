#![allow(non_snake_case)]
#![allow(non_camel_case_types)]

pub mod lexer;
pub mod numeric;
pub mod syntax;
pub mod grammar;
pub mod parser;
pub mod storage;
pub mod database;
pub mod insert;
pub mod select;
pub mod listing;
pub mod executor;
pub mod theorems;
