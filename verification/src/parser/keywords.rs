//! The table of reserved words and type keywords.

use crate::parser::token::{DataType, DataTypeView, Token, TokenView};
use crate::text::same_text;
use vstd::prelude::*;
use vstd::string::StringExecFns;

verus! {

/// The token that a word stands for: the fixed token of a reserved word, the
/// kind and spelling of a type keyword, and an identifier for any other word.
pub open spec fn lookup_word(word: Seq<char>) -> TokenView {
    if word == "enum"@ {
        TokenView::Enum
    } else if word == "record"@ {
        TokenView::Record
    } else if word == "interface"@ {
        TokenView::Interface
    } else if word == "import"@ {
        TokenView::Import
    } else if word == "static"@ {
        TokenView::Static
    } else if word == "const"@ {
        TokenView::Const
    } else if word == "deriving"@ {
        TokenView::Dervive
    } else if word == "true"@ {
        TokenView::True
    } else if word == "false"@ {
        TokenView::False
    } else if word == "eq"@ {
        TokenView::Eq
    } else if word == "ord"@ {
        TokenView::Ord
    } else if word == "i8"@ {
        TokenView::Type(DataTypeView::Integer8, "i8"@)
    } else if word == "i16"@ {
        TokenView::Type(DataTypeView::Integer16, "i16"@)
    } else if word == "i32"@ {
        TokenView::Type(DataTypeView::Integer32, "i32"@)
    } else if word == "i64"@ {
        TokenView::Type(DataTypeView::Integer64, "i64"@)
    } else if word == "f32"@ {
        TokenView::Type(DataTypeView::Float32, "f32"@)
    } else if word == "f64"@ {
        TokenView::Type(DataTypeView::Float64, "f64"@)
    } else if word == "list"@ {
        TokenView::Type(DataTypeView::List, "list"@)
    } else if word == "map"@ {
        TokenView::Type(DataTypeView::MapOf, "map"@)
    } else if word == "set"@ {
        TokenView::Type(DataTypeView::SetOf, "set"@)
    } else if word == "date"@ {
        TokenView::Type(DataTypeView::Date, "date"@)
    } else if word == "binary"@ {
        TokenView::Type(DataTypeView::Binary, "binary"@)
    } else if word == "bool"@ {
        TokenView::Type(DataTypeView::Bool, "bool"@)
    } else if word == "optional"@ {
        TokenView::Type(DataTypeView::Optional, "optional"@)
    } else if word == "string"@ {
        TokenView::Type(DataTypeView::String, "string"@)
    } else {
        TokenView::Ident(word)
    }
}

/// The keyword table.
pub struct Keywords;

impl Keywords {
    pub fn new() -> (r: Keywords)
        ensures
            r == (Keywords {  }),
    {
        Keywords {  }
    }

    /// The token that `ident` stands for.
    pub fn lookup_ident(&self, ident: &String) -> (t: Token)
        ensures
            t@ == lookup_word(ident@),
    {
        let word = ident.as_str();
        if same_text(word, "enum") {
            Token::Enum
        } else if same_text(word, "record") {
            Token::Record
        } else if same_text(word, "interface") {
            Token::Interface
        } else if same_text(word, "import") {
            Token::Import
        } else if same_text(word, "static") {
            Token::Static
        } else if same_text(word, "const") {
            Token::Const
        } else if same_text(word, "deriving") {
            Token::Dervive
        } else if same_text(word, "true") {
            Token::True
        } else if same_text(word, "false") {
            Token::False
        } else if same_text(word, "eq") {
            Token::Eq
        } else if same_text(word, "ord") {
            Token::Ord
        } else if same_text(word, "i8") {
            Token::Type(DataType::Integer8, String::from_str("i8"))
        } else if same_text(word, "i16") {
            Token::Type(DataType::Integer16, String::from_str("i16"))
        } else if same_text(word, "i32") {
            Token::Type(DataType::Integer32, String::from_str("i32"))
        } else if same_text(word, "i64") {
            Token::Type(DataType::Integer64, String::from_str("i64"))
        } else if same_text(word, "f32") {
            Token::Type(DataType::Float32, String::from_str("f32"))
        } else if same_text(word, "f64") {
            Token::Type(DataType::Float64, String::from_str("f64"))
        } else if same_text(word, "list") {
            Token::Type(DataType::List, String::from_str("list"))
        } else if same_text(word, "map") {
            Token::Type(DataType::MapOf, String::from_str("map"))
        } else if same_text(word, "set") {
            Token::Type(DataType::SetOf, String::from_str("set"))
        } else if same_text(word, "date") {
            Token::Type(DataType::Date, String::from_str("date"))
        } else if same_text(word, "binary") {
            Token::Type(DataType::Binary, String::from_str("binary"))
        } else if same_text(word, "bool") {
            Token::Type(DataType::Bool, String::from_str("bool"))
        } else if same_text(word, "optional") {
            Token::Type(DataType::Optional, String::from_str("optional"))
        } else if same_text(word, "string") {
            Token::Type(DataType::String, String::from_str("string"))
        } else {
            Token::Ident(ident.clone())
        }
    }
}

} // verus!
