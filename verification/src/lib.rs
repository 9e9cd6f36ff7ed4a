//! A small dynamically typed scripting language: lexer, parser, one-pass
//! bytecode compiler and register machine.
//!
//! Numbers are IEEE-754 doubles carried as their 64-bit patterns. The library
//! itself never computes on doubles: the machine hands each arithmetic
//! operation and each native call to the program that drives it.

pub mod common;
pub mod lexer;
pub mod parser;
pub mod vm;
