pub mod ast;
pub mod djinni_fmt;
pub mod grammar;
pub mod keywords;
pub mod lexer;
pub mod parser;
pub mod program;
pub mod round_trip;
pub mod spelling;
pub mod text_laws;
pub mod token;
pub mod token_laws;
pub mod unparse;
