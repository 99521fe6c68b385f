//! How the types of the language are spelled in C++.

use crate::generator::typer::{TypeDefinitionKind, TypeDefinitionKindView};
use crate::parser::ast::{DataTypeStatement, DataTypeStatementView};
use vstd::prelude::*;
use vstd::string::StringExecFns;

verus! {

/// The header that declares the C++ type of a type expression: that of the
/// container for a map, a set or a list, `<string>` for a string, and none
/// for any other type.
pub open spec fn include_of(t: DataTypeStatementView) -> Seq<char> {
    match t {
        DataTypeStatementView::MapOf(_, _) => "<unordered_map>"@,
        DataTypeStatementView::SetOf(_) => "<unordered_set>"@,
        DataTypeStatementView::List(_) => "<vector>"@,
        DataTypeStatementView::String => "<string>"@,
        _ => Seq::empty(),
    }
}

/// The C++ name of a registered type: the standard container or string, the
/// C++ spelling of a primitive, and its own name for a declared type. Any
/// other kind has none.
pub open spec fn cpp_name_of(k: TypeDefinitionKindView) -> Seq<char> {
    match k {
        TypeDefinitionKindView::MapOf => "std::unordered_map"@,
        TypeDefinitionKindView::SetOf => "std::unordered_set"@,
        TypeDefinitionKindView::List => "std::vector"@,
        TypeDefinitionKindView::String => "std::string"@,
        TypeDefinitionKindView::Primitive(_, _, _, cpp, _, _, _, _) => cpp,
        TypeDefinitionKindView::UserObject(name) => name,
        _ => Seq::empty(),
    }
}

pub struct CppMarshaler {}

impl CppMarshaler {
    pub fn new() -> (r: CppMarshaler)
        ensures
            r == (CppMarshaler {  }),
    {
        CppMarshaler {  }
    }

    /// The header to include for the type expression `dts`.
    pub fn include_file(&self, dts: &DataTypeStatement) -> (r: String)
        ensures
            r@ == include_of(dts@),
    {
        match dts {
            DataTypeStatement::MapOf(_, _) => String::from_str("<unordered_map>"),
            DataTypeStatement::SetOf(_) => String::from_str("<unordered_set>"),
            DataTypeStatement::List(_) => String::from_str("<vector>"),
            DataTypeStatement::String => String::from_str("<string>"),
            _ => String::new(),
        }
    }

    /// The C++ name of the registered type `t`.
    pub fn get_type_name(&self, t: TypeDefinitionKind) -> (r: String)
        ensures
            r@ == cpp_name_of(t@),
    {
        match t {
            TypeDefinitionKind::MapOf => String::from_str("std::unordered_map"),
            TypeDefinitionKind::SetOf => String::from_str("std::unordered_set"),
            TypeDefinitionKind::List => String::from_str("std::vector"),
            TypeDefinitionKind::String => String::from_str("std::string"),
            TypeDefinitionKind::Primitive(_, _, _, ct, _, _, _, _) => ct,
            TypeDefinitionKind::UserObject(n) => n,
            _ => String::new(),
        }
    }
}

} // verus!
