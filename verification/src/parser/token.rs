//! Tokens of the interface-definition language and their models.

use crate::text::same_text;
use vstd::prelude::*;
use vstd::string::StringExecFns;

verus! {

/// The kind of a type named by a type keyword.
#[derive(PartialEq, Eq, Hash, Debug)]
pub enum DataType {
    Nothing,
    Integer8,
    Integer16,
    Integer32,
    Integer64,
    Float32,
    Float64,
    Bool,
    MapOf,
    List,
    String,
    Binary,
    Date,
    SetOf,
    Optional,
    /// A type that the user declared, by name.
    Object(String),
}

/// Mathematical model of a [`DataType`]: a name is a sequence of characters.
pub ghost enum DataTypeView {
    Nothing,
    Integer8,
    Integer16,
    Integer32,
    Integer64,
    Float32,
    Float64,
    Bool,
    MapOf,
    List,
    String,
    Binary,
    Date,
    SetOf,
    Optional,
    Object(Seq<char>),
}

impl View for DataType {
    type V = DataTypeView;

    open spec fn view(&self) -> DataTypeView {
        match *self {
            DataType::Nothing => DataTypeView::Nothing,
            DataType::Integer8 => DataTypeView::Integer8,
            DataType::Integer16 => DataTypeView::Integer16,
            DataType::Integer32 => DataTypeView::Integer32,
            DataType::Integer64 => DataTypeView::Integer64,
            DataType::Float32 => DataTypeView::Float32,
            DataType::Float64 => DataTypeView::Float64,
            DataType::Bool => DataTypeView::Bool,
            DataType::MapOf => DataTypeView::MapOf,
            DataType::List => DataTypeView::List,
            DataType::String => DataTypeView::String,
            DataType::Binary => DataTypeView::Binary,
            DataType::Date => DataTypeView::Date,
            DataType::SetOf => DataTypeView::SetOf,
            DataType::Optional => DataTypeView::Optional,
            DataType::Object(s) => DataTypeView::Object(s@),
        }
    }
}

impl Clone for DataType {
    fn clone(&self) -> (r: DataType)
        ensures
            r == *self,
    {
        match self {
            DataType::Nothing => DataType::Nothing,
            DataType::Integer8 => DataType::Integer8,
            DataType::Integer16 => DataType::Integer16,
            DataType::Integer32 => DataType::Integer32,
            DataType::Integer64 => DataType::Integer64,
            DataType::Float32 => DataType::Float32,
            DataType::Float64 => DataType::Float64,
            DataType::Bool => DataType::Bool,
            DataType::MapOf => DataType::MapOf,
            DataType::List => DataType::List,
            DataType::String => DataType::String,
            DataType::Binary => DataType::Binary,
            DataType::Date => DataType::Date,
            DataType::SetOf => DataType::SetOf,
            DataType::Optional => DataType::Optional,
            DataType::Object(s) => DataType::Object(s.clone()),
        }
    }
}

/// The kind that the type keyword `name` stands for; any other name is the
/// name of a user-declared type.
pub open spec fn data_type_named(name: Seq<char>) -> DataTypeView {
    if name == "i8"@ {
        DataTypeView::Integer8
    } else if name == "i16"@ {
        DataTypeView::Integer16
    } else if name == "i32"@ {
        DataTypeView::Integer32
    } else if name == "i64"@ {
        DataTypeView::Integer64
    } else if name == "f32"@ {
        DataTypeView::Float32
    } else if name == "f64"@ {
        DataTypeView::Float64
    } else if name == "bool"@ {
        DataTypeView::Bool
    } else if name == "map"@ {
        DataTypeView::MapOf
    } else if name == "list"@ {
        DataTypeView::List
    } else if name == "string"@ {
        DataTypeView::String
    } else if name == "binary"@ {
        DataTypeView::Binary
    } else if name == "date"@ {
        DataTypeView::Date
    } else if name == "set"@ {
        DataTypeView::SetOf
    } else if name == "optional"@ {
        DataTypeView::Optional
    } else {
        DataTypeView::Object(name)
    }
}

/// How a kind is written: its keyword, `none` for no type and `object` for
/// a user-declared type.
pub open spec fn data_type_text(d: DataTypeView) -> Seq<char> {
    match d {
        DataTypeView::Nothing => "none"@,
        DataTypeView::Integer8 => "i8"@,
        DataTypeView::Integer16 => "i16"@,
        DataTypeView::Integer32 => "i32"@,
        DataTypeView::Integer64 => "i64"@,
        DataTypeView::Float32 => "f32"@,
        DataTypeView::Float64 => "f64"@,
        DataTypeView::Bool => "bool"@,
        DataTypeView::MapOf => "map"@,
        DataTypeView::List => "list"@,
        DataTypeView::String => "string"@,
        DataTypeView::Binary => "binary"@,
        DataTypeView::Date => "date"@,
        DataTypeView::SetOf => "set"@,
        DataTypeView::Optional => "optional"@,
        DataTypeView::Object(_) => "object"@,
    }
}

impl DataType {
    /// The kind that `name` stands for.
    pub fn new(name: String) -> (r: DataType)
        ensures
            r@ == data_type_named(name@),
    {
        if same_text(name.as_str(), "i8") {
            DataType::Integer8
        } else if same_text(name.as_str(), "i16") {
            DataType::Integer16
        } else if same_text(name.as_str(), "i32") {
            DataType::Integer32
        } else if same_text(name.as_str(), "i64") {
            DataType::Integer64
        } else if same_text(name.as_str(), "f32") {
            DataType::Float32
        } else if same_text(name.as_str(), "f64") {
            DataType::Float64
        } else if same_text(name.as_str(), "bool") {
            DataType::Bool
        } else if same_text(name.as_str(), "map") {
            DataType::MapOf
        } else if same_text(name.as_str(), "list") {
            DataType::List
        } else if same_text(name.as_str(), "string") {
            DataType::String
        } else if same_text(name.as_str(), "binary") {
            DataType::Binary
        } else if same_text(name.as_str(), "date") {
            DataType::Date
        } else if same_text(name.as_str(), "set") {
            DataType::SetOf
        } else if same_text(name.as_str(), "optional") {
            DataType::Optional
        } else {
            DataType::Object(name)
        }
    }

    /// Whether `self` and `other` are the same kind, with the same name.
    pub fn same(&self, other: &DataType) -> (r: bool)
        ensures
            r == (self@ == other@),
    {
        match (self, other) {
            (DataType::Nothing, DataType::Nothing) => true,
            (DataType::Integer8, DataType::Integer8) => true,
            (DataType::Integer16, DataType::Integer16) => true,
            (DataType::Integer32, DataType::Integer32) => true,
            (DataType::Integer64, DataType::Integer64) => true,
            (DataType::Float32, DataType::Float32) => true,
            (DataType::Float64, DataType::Float64) => true,
            (DataType::Bool, DataType::Bool) => true,
            (DataType::MapOf, DataType::MapOf) => true,
            (DataType::List, DataType::List) => true,
            (DataType::String, DataType::String) => true,
            (DataType::Binary, DataType::Binary) => true,
            (DataType::Date, DataType::Date) => true,
            (DataType::SetOf, DataType::SetOf) => true,
            (DataType::Optional, DataType::Optional) => true,
            (DataType::Object(s), DataType::Object(t)) => *s == *t,
            _ => false,
        }
    }

    /// The text of this kind.
    pub fn render(&self) -> (r: String)
        ensures
            r@ == data_type_text(self@),
    {
        match self {
            DataType::Nothing => String::from_str("none"),
            DataType::Integer8 => String::from_str("i8"),
            DataType::Integer16 => String::from_str("i16"),
            DataType::Integer32 => String::from_str("i32"),
            DataType::Integer64 => String::from_str("i64"),
            DataType::Float32 => String::from_str("f32"),
            DataType::Float64 => String::from_str("f64"),
            DataType::Bool => String::from_str("bool"),
            DataType::MapOf => String::from_str("map"),
            DataType::List => String::from_str("list"),
            DataType::String => String::from_str("string"),
            DataType::Binary => String::from_str("binary"),
            DataType::Date => String::from_str("date"),
            DataType::SetOf => String::from_str("set"),
            DataType::Optional => String::from_str("optional"),
            DataType::Object(_) => String::from_str("object"),
        }
    }
}

/// A token of the language.
#[derive(PartialEq, Eq, Hash, Debug)]
pub enum Token {
    /// A character that starts no token.
    Illegal,
    /// The end of the input.
    Eof,
    Import,
    /// A name that is no reserved word.
    Ident(String),
    Enum,
    Record,
    Interface,
    Colon,
    /// A `#` comment; holds the text after the `#`.
    Comment(String),
    Semicolon,
    Comma,
    LBrace,
    RBrace,
    LParen,
    RParen,
    Lt,
    Gt,
    Equal,
    /// A quoted string; holds the text between the quotes.
    StringToken(String),
    /// A run of digits and dots.
    Number(String),
    /// A type keyword: its kind and its spelling.
    Type(DataType, String),
    True,
    False,
    AtSign,
    Static,
    Const,
    /// The word `deriving`.
    Dervive,
    Eq,
    Ord,
    /// The tag `+j`.
    JavaInterface,
    /// The tag `+o`.
    ObjCInterface,
    /// The tag `+c`.
    CppInterface,
}

/// Mathematical model of a [`Token`].
pub ghost enum TokenView {
    Illegal,
    Eof,
    Import,
    Ident(Seq<char>),
    Enum,
    Record,
    Interface,
    Colon,
    Comment(Seq<char>),
    Semicolon,
    Comma,
    LBrace,
    RBrace,
    LParen,
    RParen,
    Lt,
    Gt,
    Equal,
    StringToken(Seq<char>),
    Number(Seq<char>),
    Type(DataTypeView, Seq<char>),
    True,
    False,
    AtSign,
    Static,
    Const,
    Dervive,
    Eq,
    Ord,
    JavaInterface,
    ObjCInterface,
    CppInterface,
}

impl View for Token {
    type V = TokenView;

    open spec fn view(&self) -> TokenView {
        match *self {
            Token::Illegal => TokenView::Illegal,
            Token::Eof => TokenView::Eof,
            Token::Import => TokenView::Import,
            Token::Ident(s) => TokenView::Ident(s@),
            Token::Enum => TokenView::Enum,
            Token::Record => TokenView::Record,
            Token::Interface => TokenView::Interface,
            Token::Colon => TokenView::Colon,
            Token::Comment(s) => TokenView::Comment(s@),
            Token::Semicolon => TokenView::Semicolon,
            Token::Comma => TokenView::Comma,
            Token::LBrace => TokenView::LBrace,
            Token::RBrace => TokenView::RBrace,
            Token::LParen => TokenView::LParen,
            Token::RParen => TokenView::RParen,
            Token::Lt => TokenView::Lt,
            Token::Gt => TokenView::Gt,
            Token::Equal => TokenView::Equal,
            Token::StringToken(s) => TokenView::StringToken(s@),
            Token::Number(s) => TokenView::Number(s@),
            Token::Type(d, s) => TokenView::Type(d@, s@),
            Token::True => TokenView::True,
            Token::False => TokenView::False,
            Token::AtSign => TokenView::AtSign,
            Token::Static => TokenView::Static,
            Token::Const => TokenView::Const,
            Token::Dervive => TokenView::Dervive,
            Token::Eq => TokenView::Eq,
            Token::Ord => TokenView::Ord,
            Token::JavaInterface => TokenView::JavaInterface,
            Token::ObjCInterface => TokenView::ObjCInterface,
            Token::CppInterface => TokenView::CppInterface,
        }
    }
}

impl Clone for Token {
    fn clone(&self) -> (r: Token)
        ensures
            r == *self,
    {
        match self {
            Token::Illegal => Token::Illegal,
            Token::Eof => Token::Eof,
            Token::Import => Token::Import,
            Token::Ident(s) => Token::Ident(s.clone()),
            Token::Enum => Token::Enum,
            Token::Record => Token::Record,
            Token::Interface => Token::Interface,
            Token::Colon => Token::Colon,
            Token::Comment(s) => Token::Comment(s.clone()),
            Token::Semicolon => Token::Semicolon,
            Token::Comma => Token::Comma,
            Token::LBrace => Token::LBrace,
            Token::RBrace => Token::RBrace,
            Token::LParen => Token::LParen,
            Token::RParen => Token::RParen,
            Token::Lt => Token::Lt,
            Token::Gt => Token::Gt,
            Token::Equal => Token::Equal,
            Token::StringToken(s) => Token::StringToken(s.clone()),
            Token::Number(s) => Token::Number(s.clone()),
            Token::Type(d, s) => Token::Type(d.clone(), s.clone()),
            Token::True => Token::True,
            Token::False => Token::False,
            Token::AtSign => Token::AtSign,
            Token::Static => Token::Static,
            Token::Const => Token::Const,
            Token::Dervive => Token::Dervive,
            Token::Eq => Token::Eq,
            Token::Ord => Token::Ord,
            Token::JavaInterface => Token::JavaInterface,
            Token::ObjCInterface => Token::ObjCInterface,
            Token::CppInterface => Token::CppInterface,
        }
    }
}

/// How a token is shown: a fixed token by its spelling, a comment with its
/// `#`, a string or a number by its content, a type keyword by the text of its
/// kind, and a name inside `Ident(..)`.
pub open spec fn token_text(t: TokenView) -> Seq<char> {
    match t {
        TokenView::Illegal => "Illegal"@,
        TokenView::Eof => "EOF"@,
        TokenView::Import => "import"@,
        TokenView::Ident(s) => "Ident("@ + s + ")"@,
        TokenView::Enum => "enum"@,
        TokenView::Record => "record"@,
        TokenView::Interface => "interface"@,
        TokenView::Colon => ":"@,
        TokenView::Comment(s) => "#"@ + s,
        TokenView::Semicolon => ";"@,
        TokenView::Comma => ","@,
        TokenView::LBrace => "{"@,
        TokenView::RBrace => "}"@,
        TokenView::LParen => "("@,
        TokenView::RParen => ")"@,
        TokenView::Lt => "<"@,
        TokenView::Gt => ">"@,
        TokenView::Equal => "="@,
        TokenView::StringToken(s) => s,
        TokenView::Number(s) => s,
        TokenView::Type(d, _) => data_type_text(d),
        TokenView::True => "true"@,
        TokenView::False => "false"@,
        TokenView::AtSign => "@"@,
        TokenView::Static => "static"@,
        TokenView::Const => "const"@,
        TokenView::Dervive => "deriving"@,
        TokenView::Eq => "eq"@,
        TokenView::Ord => "ord"@,
        TokenView::JavaInterface => "+j"@,
        TokenView::ObjCInterface => "+o"@,
        TokenView::CppInterface => "+c"@,
    }
}

/// The name that a token gives to a declaration: the name itself for an
/// identifier, the shown text for any other token.
pub open spec fn token_name(t: TokenView) -> Seq<char> {
    match t {
        TokenView::Ident(s) => s,
        _ => token_text(t),
    }
}

impl Token {
    /// Whether `self` and `other` are the same token, with the same content.
    pub fn same(&self, other: &Token) -> (r: bool)
        ensures
            r == (self@ == other@),
    {
        match (self, other) {
            (Token::Illegal, Token::Illegal) => true,
            (Token::Eof, Token::Eof) => true,
            (Token::Import, Token::Import) => true,
            (Token::Ident(s), Token::Ident(t)) => *s == *t,
            (Token::Enum, Token::Enum) => true,
            (Token::Record, Token::Record) => true,
            (Token::Interface, Token::Interface) => true,
            (Token::Colon, Token::Colon) => true,
            (Token::Comment(s), Token::Comment(t)) => *s == *t,
            (Token::Semicolon, Token::Semicolon) => true,
            (Token::Comma, Token::Comma) => true,
            (Token::LBrace, Token::LBrace) => true,
            (Token::RBrace, Token::RBrace) => true,
            (Token::LParen, Token::LParen) => true,
            (Token::RParen, Token::RParen) => true,
            (Token::Lt, Token::Lt) => true,
            (Token::Gt, Token::Gt) => true,
            (Token::Equal, Token::Equal) => true,
            (Token::StringToken(s), Token::StringToken(t)) => *s == *t,
            (Token::Number(s), Token::Number(t)) => *s == *t,
            (Token::Type(d, s), Token::Type(e, t)) => d.same(e) && *s == *t,
            (Token::True, Token::True) => true,
            (Token::False, Token::False) => true,
            (Token::AtSign, Token::AtSign) => true,
            (Token::Static, Token::Static) => true,
            (Token::Const, Token::Const) => true,
            (Token::Dervive, Token::Dervive) => true,
            (Token::Eq, Token::Eq) => true,
            (Token::Ord, Token::Ord) => true,
            (Token::JavaInterface, Token::JavaInterface) => true,
            (Token::ObjCInterface, Token::ObjCInterface) => true,
            (Token::CppInterface, Token::CppInterface) => true,
            _ => false,
        }
    }

    /// The shown text of this token.
    pub fn render(&self) -> (r: String)
        ensures
            r@ == token_text(self@),
    {
        match self {
            Token::Illegal => String::from_str("Illegal"),
            Token::Eof => String::from_str("EOF"),
            Token::Import => String::from_str("import"),
            Token::Ident(s) => String::from_str("Ident(").concat(s.as_str()).concat(")"),
            Token::Enum => String::from_str("enum"),
            Token::Record => String::from_str("record"),
            Token::Interface => String::from_str("interface"),
            Token::Colon => String::from_str(":"),
            Token::Comment(s) => String::from_str("#").concat(s.as_str()),
            Token::Semicolon => String::from_str(";"),
            Token::Comma => String::from_str(","),
            Token::LBrace => String::from_str("{"),
            Token::RBrace => String::from_str("}"),
            Token::LParen => String::from_str("("),
            Token::RParen => String::from_str(")"),
            Token::Lt => String::from_str("<"),
            Token::Gt => String::from_str(">"),
            Token::Equal => String::from_str("="),
            Token::StringToken(s) => s.clone(),
            Token::Number(s) => s.clone(),
            Token::Type(d, _) => d.render(),
            Token::True => String::from_str("true"),
            Token::False => String::from_str("false"),
            Token::AtSign => String::from_str("@"),
            Token::Static => String::from_str("static"),
            Token::Const => String::from_str("const"),
            Token::Dervive => String::from_str("deriving"),
            Token::Eq => String::from_str("eq"),
            Token::Ord => String::from_str("ord"),
            Token::JavaInterface => String::from_str("+j"),
            Token::ObjCInterface => String::from_str("+o"),
            Token::CppInterface => String::from_str("+c"),
        }
    }

    /// The name that this token gives to a declaration.
    pub fn to_str(&self) -> (r: String)
        ensures
            r@ == token_name(self@),
    {
        match self {
            Token::Ident(s) => s.clone(),
            _ => self.render(),
        }
    }
}

} // verus!
