//! The type registry: built-in and user-declared types by name, and the
//! checker that finds a name that is declared twice in one scope.

use crate::generator::resolver::{ResolveError, ResolveErrorView};
use crate::parser::ast::{type_head, DataTypeStatement, DataTypeStatementView};
use crate::text::same_text;
use vstd::prelude::*;
use vstd::string::StringExecFns;

verus! {

/// A type by its name and the number of its type parameters.
pub struct TypeDefinition {
    pub identifier: String,
    pub num_params: i8,
}

/// What the registry knows of a type.
#[derive(PartialEq, Eq, Debug, Hash)]
pub enum TypeDefinitionKind {
    /// The name is not registered.
    Nothing,
    /// A primitive: its name in the language, then its spellings as a Java
    /// type, a JNI type, a C++ type, a boxed Java type, a JNI signature, an
    /// Objective-C type and a boxed Objective-C type.
    Primitive(String, String, String, String, String, String, String, String),
    String,
    Binary,
    Optional,
    Date,
    List,
    SetOf,
    MapOf,
    /// A type that the user declared, with its name.
    UserObject(String),
}

/// Model of a [`TypeDefinitionKind`].
pub ghost enum TypeDefinitionKindView {
    Nothing,
    Primitive(
        Seq<char>,
        Seq<char>,
        Seq<char>,
        Seq<char>,
        Seq<char>,
        Seq<char>,
        Seq<char>,
        Seq<char>,
    ),
    String,
    Binary,
    Optional,
    Date,
    List,
    SetOf,
    MapOf,
    UserObject(Seq<char>),
}

impl View for TypeDefinitionKind {
    type V = TypeDefinitionKindView;

    open spec fn view(&self) -> TypeDefinitionKindView {
        match *self {
            TypeDefinitionKind::Nothing => TypeDefinitionKindView::Nothing,
            TypeDefinitionKind::Primitive(a, b, c, d, e, f, g, h) => {
                TypeDefinitionKindView::Primitive(a@, b@, c@, d@, e@, f@, g@, h@)
            },
            TypeDefinitionKind::String => TypeDefinitionKindView::String,
            TypeDefinitionKind::Binary => TypeDefinitionKindView::Binary,
            TypeDefinitionKind::Optional => TypeDefinitionKindView::Optional,
            TypeDefinitionKind::Date => TypeDefinitionKindView::Date,
            TypeDefinitionKind::List => TypeDefinitionKindView::List,
            TypeDefinitionKind::SetOf => TypeDefinitionKindView::SetOf,
            TypeDefinitionKind::MapOf => TypeDefinitionKindView::MapOf,
            TypeDefinitionKind::UserObject(n) => TypeDefinitionKindView::UserObject(n@),
        }
    }
}

impl Clone for TypeDefinitionKind {
    fn clone(&self) -> (r: TypeDefinitionKind)
        ensures
            r == *self,
    {
        match self {
            TypeDefinitionKind::Nothing => TypeDefinitionKind::Nothing,
            TypeDefinitionKind::Primitive(a, b, c, d, e, f, g, h) => TypeDefinitionKind::Primitive(
                a.clone(),
                b.clone(),
                c.clone(),
                d.clone(),
                e.clone(),
                f.clone(),
                g.clone(),
                h.clone(),
            ),
            TypeDefinitionKind::String => TypeDefinitionKind::String,
            TypeDefinitionKind::Binary => TypeDefinitionKind::Binary,
            TypeDefinitionKind::Optional => TypeDefinitionKind::Optional,
            TypeDefinitionKind::Date => TypeDefinitionKind::Date,
            TypeDefinitionKind::List => TypeDefinitionKind::List,
            TypeDefinitionKind::SetOf => TypeDefinitionKind::SetOf,
            TypeDefinitionKind::MapOf => TypeDefinitionKind::MapOf,
            TypeDefinitionKind::UserObject(n) => TypeDefinitionKind::UserObject(n.clone()),
        }
    }
}

/// How many type parameters a kind takes: two for a map, one for a list, a
/// set or an optional, none for any other.
pub open spec fn arity(k: TypeDefinitionKindView) -> int {
    match k {
        TypeDefinitionKindView::MapOf => 2,
        TypeDefinitionKindView::List | TypeDefinitionKindView::SetOf
        | TypeDefinitionKindView::Optional => 1,
        _ => 0,
    }
}

/// How a kind is shown: a primitive by its name in the language, a declared
/// type by its name, any other by its keyword.
pub open spec fn kind_text(k: TypeDefinitionKindView) -> Seq<char> {
    match k {
        TypeDefinitionKindView::Nothing => "none"@,
        TypeDefinitionKindView::Primitive(n, _, _, _, _, _, _, _) => n,
        TypeDefinitionKindView::String => "string"@,
        TypeDefinitionKindView::Binary => "binary"@,
        TypeDefinitionKindView::Optional => "optional"@,
        TypeDefinitionKindView::Date => "date"@,
        TypeDefinitionKindView::List => "list"@,
        TypeDefinitionKindView::SetOf => "set"@,
        TypeDefinitionKindView::MapOf => "map"@,
        TypeDefinitionKindView::UserObject(n) => n,
    }
}

impl TypeDefinitionKind {
    /// The number of type parameters of this kind.
    pub fn num_params(&self) -> (r: i8)
        ensures
            r == arity(self@),
    {
        match self {
            TypeDefinitionKind::MapOf => 2,
            TypeDefinitionKind::List | TypeDefinitionKind::SetOf | TypeDefinitionKind::Optional => 1,
            _ => 0,
        }
    }

    /// The shown text of this kind.
    pub fn render(&self) -> (r: String)
        ensures
            r@ == kind_text(self@),
    {
        match self {
            TypeDefinitionKind::Nothing => String::from_str("none"),
            TypeDefinitionKind::Primitive(n, _, _, _, _, _, _, _) => n.clone(),
            TypeDefinitionKind::String => String::from_str("string"),
            TypeDefinitionKind::Binary => String::from_str("binary"),
            TypeDefinitionKind::Optional => String::from_str("optional"),
            TypeDefinitionKind::Date => String::from_str("date"),
            TypeDefinitionKind::List => String::from_str("list"),
            TypeDefinitionKind::SetOf => String::from_str("set"),
            TypeDefinitionKind::MapOf => String::from_str("map"),
            TypeDefinitionKind::UserObject(n) => n.clone(),
        }
    }
}

/// The model of a primitive from its eight spellings.
pub open spec fn primitive(
    name: Seq<char>,
    java: Seq<char>,
    jni: Seq<char>,
    cpp: Seq<char>,
    java_boxed: Seq<char>,
    jni_signature: Seq<char>,
    objc: Seq<char>,
    objc_boxed: Seq<char>,
) -> TypeDefinitionKindView {
    TypeDefinitionKindView::Primitive(
        name,
        java,
        jni,
        cpp,
        java_boxed,
        jni_signature,
        objc,
        objc_boxed,
    )
}

/// The built-in types: the seven primitives with their spellings in the
/// target languages, and the seven structural kinds.
pub open spec fn builtin_types() -> Map<Seq<char>, TypeDefinitionKindView> {
    Map::<Seq<char>, TypeDefinitionKindView>::empty().insert(
        "i8"@,
        primitive("i8"@, "byte"@, "jbyte"@, "int8_t"@, "Byte"@, "B"@, "int8_t"@, "NSNumber"@),
    ).insert(
        "i16"@,
        primitive("i16"@, "short"@, "short"@, "int16_6"@, "Short"@, "S"@, "int16_t"@, "NSNumber"@),
    ).insert(
        "i32"@,
        primitive("i32"@, "int"@, "jint"@, "int32_t"@, "Integer"@, "I"@, "int32_t"@, "NSNumber"@),
    ).insert(
        "i64"@,
        primitive("i64"@, "long"@, "jlong"@, "int64_t"@, "Long"@, "J"@, "int64_t"@, "NSNumber"@),
    ).insert(
        "f32"@,
        primitive("f32"@, "float"@, "jfloat"@, "float"@, "Float"@, "F"@, "float"@, "NSNumber"@),
    ).insert(
        "f64"@,
        primitive("f64"@, "double"@, "jdouble"@, "double"@, "Double"@, "D"@, "double"@,
            "NSNumber"@),
    ).insert(
        "bool"@,
        primitive(
            "bool"@,
            "boolean"@,
            "jboolean"@,
            "bool"@,
            "Boolean"@,
            "Z"@,
            "BOOL"@,
            "NSNumber"@,
        ),
    ).insert("string"@, TypeDefinitionKindView::String).insert(
        "binary"@,
        TypeDefinitionKindView::Binary,
    ).insert("optional"@, TypeDefinitionKindView::Optional).insert(
        "date"@,
        TypeDefinitionKindView::Date,
    ).insert("list"@, TypeDefinitionKindView::List).insert(
        "set"@,
        TypeDefinitionKindView::SetOf,
    ).insert("map"@, TypeDefinitionKindView::MapOf)
}

/// What `table` holds for `name`: its entry, or the marker of an unknown name.
pub open spec fn lookup(table: Map<Seq<char>, TypeDefinitionKindView>, name: Seq<char>)
    -> TypeDefinitionKindView {
    if table.contains_key(name) {
        table[name]
    } else {
        TypeDefinitionKindView::Nothing
    }
}

/// The lengths and the first characters of the names of the built-in types.
proof fn lemma_builtin_names()
    ensures
        "i8"@.len() == 2,
        "i8"@[0] == 'i',
        "i8"@[1] == '8',
        "i16"@.len() == 3,
        "i16"@[0] == 'i',
        "i16"@[1] == '1',
        "i16"@[2] == '6',
        "i32"@.len() == 3,
        "i32"@[0] == 'i',
        "i32"@[1] == '3',
        "i32"@[2] == '2',
        "i64"@.len() == 3,
        "i64"@[0] == 'i',
        "i64"@[1] == '6',
        "i64"@[2] == '4',
        "f32"@.len() == 3,
        "f32"@[0] == 'f',
        "f32"@[1] == '3',
        "f32"@[2] == '2',
        "f64"@.len() == 3,
        "f64"@[0] == 'f',
        "f64"@[1] == '6',
        "f64"@[2] == '4',
        "bool"@.len() == 4,
        "bool"@[0] == 'b',
        "bool"@[1] == 'o',
        "bool"@[2] == 'o',
        "string"@.len() == 6,
        "string"@[0] == 's',
        "string"@[1] == 't',
        "string"@[2] == 'r',
        "binary"@.len() == 6,
        "binary"@[0] == 'b',
        "binary"@[1] == 'i',
        "binary"@[2] == 'n',
        "optional"@.len() == 8,
        "optional"@[0] == 'o',
        "optional"@[1] == 'p',
        "optional"@[2] == 't',
        "date"@.len() == 4,
        "date"@[0] == 'd',
        "date"@[1] == 'a',
        "date"@[2] == 't',
        "list"@.len() == 4,
        "list"@[0] == 'l',
        "list"@[1] == 'i',
        "list"@[2] == 's',
        "set"@.len() == 3,
        "set"@[0] == 's',
        "set"@[1] == 'e',
        "set"@[2] == 't',
        "map"@.len() == 3,
        "map"@[0] == 'm',
        "map"@[1] == 'a',
        "map"@[2] == 'p',
{
    reveal_strlit("i8");
    reveal_strlit("i16");
    reveal_strlit("i32");
    reveal_strlit("i64");
    reveal_strlit("f32");
    reveal_strlit("f64");
    reveal_strlit("bool");
    reveal_strlit("string");
    reveal_strlit("binary");
    reveal_strlit("optional");
    reveal_strlit("date");
    reveal_strlit("list");
    reveal_strlit("set");
    reveal_strlit("map");
}

/// Every built-in type is found under its name: the table of the built-in
/// types holds one row for each of the fourteen names, and no row hides another.
pub proof fn lemma_builtin_rows()
    ensures
        lookup(builtin_types(), "i8"@)
            == primitive("i8"@, "byte"@, "jbyte"@, "int8_t"@, "Byte"@, "B"@, "int8_t"@,
                "NSNumber"@),
        lookup(builtin_types(), "i16"@)
            == primitive("i16"@, "short"@, "short"@, "int16_6"@, "Short"@, "S"@, "int16_t"@,
                "NSNumber"@),
        lookup(builtin_types(), "i32"@)
            == primitive("i32"@, "int"@, "jint"@, "int32_t"@, "Integer"@, "I"@, "int32_t"@,
                "NSNumber"@),
        lookup(builtin_types(), "i64"@)
            == primitive("i64"@, "long"@, "jlong"@, "int64_t"@, "Long"@, "J"@, "int64_t"@,
                "NSNumber"@),
        lookup(builtin_types(), "f32"@)
            == primitive("f32"@, "float"@, "jfloat"@, "float"@, "Float"@, "F"@, "float"@,
                "NSNumber"@),
        lookup(builtin_types(), "f64"@)
            == primitive("f64"@, "double"@, "jdouble"@, "double"@, "Double"@, "D"@, "double"@,
                "NSNumber"@),
        lookup(builtin_types(), "bool"@)
            == primitive("bool"@, "boolean"@, "jboolean"@, "bool"@, "Boolean"@, "Z"@, "BOOL"@,
                "NSNumber"@),
        lookup(builtin_types(), "string"@) == TypeDefinitionKindView::String,
        lookup(builtin_types(), "binary"@) == TypeDefinitionKindView::Binary,
        lookup(builtin_types(), "optional"@) == TypeDefinitionKindView::Optional,
        lookup(builtin_types(), "date"@) == TypeDefinitionKindView::Date,
        lookup(builtin_types(), "list"@) == TypeDefinitionKindView::List,
        lookup(builtin_types(), "set"@) == TypeDefinitionKindView::SetOf,
        lookup(builtin_types(), "map"@) == TypeDefinitionKindView::MapOf,
{
    lemma_builtin_names();
}

/// How many type arguments a type expression has: two for a map, one for a
/// list or a set, none for any other.
pub open spec fn arguments(t: DataTypeStatementView) -> int {
    match t {
        DataTypeStatementView::MapOf(_, _) => 2,
        DataTypeStatementView::List(_) | DataTypeStatementView::SetOf(_) => 1,
        _ => 0,
    }
}

/// A type expression has as many type arguments as the built-in type of its
/// head takes parameters. A type that the user declared is left out: its
/// name decides what the registry holds for it.
pub proof fn lemma_arguments_match_arity(t: DataTypeStatementView)
    requires
        !(t is Object),
    ensures
        arity(lookup(builtin_types(), type_head(t))) == arguments(t),
{
    lemma_builtin_rows();
    reveal_strlit("none");
    lemma_builtin_names();
    assert("none"@.len() == 4 && "none"@[0] == 'n');
}

/// The table that a sequence of entries stands for: a later entry replaces
/// an earlier one with the same name.
pub open spec fn table_of(entries: Seq<(String, TypeDefinitionKind)>) -> Map<
    Seq<char>,
    TypeDefinitionKindView,
>
    decreases entries.len(),
{
    if entries.len() == 0 {
        Map::empty()
    } else {
        table_of(entries.drop_last()).insert(entries.last().0@, entries.last().1@)
    }
}

/// The entry at index `i` is the last one with the name `name`.
pub open spec fn last_entry_of(entries: Seq<(String, TypeDefinitionKind)>, name: Seq<char>, i: int)
    -> bool {
    &&& 0 <= i < entries.len()
    &&& entries[i].0@ == name
    &&& forall|j: int| i < j < entries.len() ==> (#[trigger] entries[j]).0@ != name
}

/// No entry has the name `name`.
pub open spec fn no_entry_of(entries: Seq<(String, TypeDefinitionKind)>, name: Seq<char>) -> bool {
    forall|j: int| 0 <= j < entries.len() ==> (#[trigger] entries[j]).0@ != name
}

/// A table holds for a name the kind of the last entry with that name.
proof fn lemma_table_of_last(entries: Seq<(String, TypeDefinitionKind)>, name: Seq<char>, i: int)
    requires
        last_entry_of(entries, name, i),
    ensures
        table_of(entries).contains_key(name),
        table_of(entries)[name] == entries[i].1@,
    decreases entries.len(),
{
    if i < entries.len() - 1 {
        let front = entries.drop_last();
        assert(front[i] == entries[i]);
        assert forall|j: int| i < j < front.len() implies (#[trigger] front[j]).0@ != name by {
            assert(front[j] == entries[j]);
        }
        lemma_table_of_last(front, name, i);
        assert(entries[entries.len() - 1].0@ != name);
    }
}

/// A table does not hold a name that no entry has.
proof fn lemma_table_of_absent(entries: Seq<(String, TypeDefinitionKind)>, name: Seq<char>)
    requires
        no_entry_of(entries, name),
    ensures
        !table_of(entries).contains_key(name),
    decreases entries.len(),
{
    if entries.len() > 0 {
        let front = entries.drop_last();
        assert forall|j: int| 0 <= j < front.len() implies (#[trigger] front[j]).0@ != name by {
            assert(front[j] == entries[j]);
        }
        lemma_table_of_absent(front, name);
        assert(entries[entries.len() - 1].0@ != name);
    }
}

/// Replacing the last entry of a name changes the table as an insertion does.
proof fn lemma_table_of_update(
    entries: Seq<(String, TypeDefinitionKind)>,
    i: int,
    entry: (String, TypeDefinitionKind),
)
    requires
        last_entry_of(entries, entry.0@, i),
    ensures
        table_of(entries.update(i, entry)) == table_of(entries).insert(entry.0@, entry.1@),
    decreases entries.len(),
{
    let changed = entries.update(i, entry);
    let front = entries.drop_last();
    if i == entries.len() - 1 {
        assert(changed.drop_last() =~= front);
        assert(table_of(changed) =~= table_of(entries).insert(entry.0@, entry.1@));
    } else {
        assert(front[i] == entries[i]);
        assert forall|j: int| i < j < front.len() implies (#[trigger] front[j]).0@ != entry.0@ by {
            assert(front[j] == entries[j]);
        }
        lemma_table_of_update(front, i, entry);
        assert(changed.drop_last() =~= front.update(i, entry));
        assert(changed.last() == entries.last());
        assert(entries[entries.len() - 1].0@ != entry.0@);
        assert(table_of(changed) =~= table_of(entries).insert(entry.0@, entry.1@));
    }
}

/// The registry of types by name.
pub struct Typer {
    table: Vec<(String, TypeDefinitionKind)>,
}

impl View for Typer {
    type V = Map<Seq<char>, TypeDefinitionKindView>;

    closed spec fn view(&self) -> Map<Seq<char>, TypeDefinitionKindView> {
        table_of(self.table@)
    }
}

impl Typer {
    /// The registry of the built-in types.
    pub fn new() -> (t: Typer)
        ensures
            t@ == builtin_types(),
    {
        let mut t = Typer { table: Vec::new() };
        t.populate_builtin_types();
        assert(t@ =~= builtin_types());
        t
    }

    fn primitive(
        name: &str,
        java: &str,
        jni: &str,
        cpp: &str,
        java_boxed: &str,
        jni_signature: &str,
        objc: &str,
    ) -> (r: TypeDefinitionKind)
        ensures
            r@ == primitive(
                name@,
                java@,
                jni@,
                cpp@,
                java_boxed@,
                jni_signature@,
                objc@,
                "NSNumber"@,
            ),
    {
        TypeDefinitionKind::Primitive(
            String::from_str(name),
            String::from_str(java),
            String::from_str(jni),
            String::from_str(cpp),
            String::from_str(java_boxed),
            String::from_str(jni_signature),
            String::from_str(objc),
            String::from_str("NSNumber"),
        )
    }

    fn insert_named(&mut self, name: &str, td: TypeDefinitionKind)
        ensures
            final(self)@ == old(self)@.insert(name@, td@),
    {
        let key = String::from_str(name);
        let _ = self.insert_type(&key, td);
    }

    fn populate_builtin_types(&mut self)
        ensures
            final(self)@ == old(self)@.union_prefer_right(builtin_types()),
    {
        let ghost start = self@;
        self.insert_named(
            "i8",
            Typer::primitive("i8", "byte", "jbyte", "int8_t", "Byte", "B", "int8_t"),
        );
        self.insert_named(
            "i16",
            Typer::primitive("i16", "short", "short", "int16_6", "Short", "S", "int16_t"),
        );
        self.insert_named(
            "i32",
            Typer::primitive("i32", "int", "jint", "int32_t", "Integer", "I", "int32_t"),
        );
        self.insert_named(
            "i64",
            Typer::primitive("i64", "long", "jlong", "int64_t", "Long", "J", "int64_t"),
        );
        self.insert_named(
            "f32",
            Typer::primitive("f32", "float", "jfloat", "float", "Float", "F", "float"),
        );
        self.insert_named(
            "f64",
            Typer::primitive("f64", "double", "jdouble", "double", "Double", "D", "double"),
        );
        self.insert_named(
            "bool",
            Typer::primitive("bool", "boolean", "jboolean", "bool", "Boolean", "Z", "BOOL"),
        );
        self.insert_named("string", TypeDefinitionKind::String);
        self.insert_named("binary", TypeDefinitionKind::Binary);
        self.insert_named("optional", TypeDefinitionKind::Optional);
        self.insert_named("date", TypeDefinitionKind::Date);
        self.insert_named("list", TypeDefinitionKind::List);
        self.insert_named("set", TypeDefinitionKind::SetOf);
        self.insert_named("map", TypeDefinitionKind::MapOf);
        assert(self@ =~= start.union_prefer_right(builtin_types()));
    }

    /// The index of the last entry of `key`, if there is one.
    fn position(&self, key: &String) -> (r: Option<usize>)
        ensures
            match r {
                Some(i) => last_entry_of(self.table@, key@, i as int),
                None => no_entry_of(self.table@, key@),
            },
    {
        let mut i: usize = self.table.len();
        while i > 0
            invariant
                i <= self.table.len(),
                forall|k: int| i <= k < self.table@.len()
                    ==> (#[trigger] self.table@[k]).0@ != key@,
            decreases i,
        {
            i -= 1;
            if same_text(self.table[i].0.as_str(), key.as_str()) {
                return Some(i);
            }
        }
        None
    }

    /// Registers `td` under the name `key`; an entry that the name had is
    /// replaced. Never fails.
    pub fn insert_type(&mut self, key: &String, td: TypeDefinitionKind) -> (r: Result<
        (),
        ResolveError,
    >)
        ensures
            r is Ok,
            final(self)@ == old(self)@.insert(key@, td@),
    {
        let ghost before = self.table@;
        let entry = (key.clone(), td);
        match self.position(key) {
            Some(i) => {
                proof {
                    lemma_table_of_update(before, i as int, entry);
                }
                self.table.set(i, entry);
            },
            None => {
                self.table.push(entry);
                assert(self.table@.drop_last() =~= before);
            },
        }
        Ok(())
    }

    /// The entry of `key`, or the marker of an unknown name.
    pub fn get(&self, key: &String) -> (r: TypeDefinitionKind)
        ensures
            r@ == lookup(self@, key@),
    {
        match self.position(key) {
            Some(i) => {
                proof {
                    lemma_table_of_last(self.table@, key@, i as int);
                }
                self.table[i].1.clone()
            },
            None => {
                proof {
                    lemma_table_of_absent(self.table@, key@);
                }
                TypeDefinitionKind::Nothing
            },
        }
    }

    /// The entry of the head of a type expression: of its keyword, or of the
    /// name of the declared type.
    pub fn get_from_data_type(&self, dts: &DataTypeStatement) -> (r: TypeDefinitionKind)
        ensures
            r@ == lookup(self@, type_head(dts@)),
    {
        let name = dts.get_name();
        self.get(&name)
    }
}

impl Clone for Typer {
    fn clone(&self) -> (r: Typer)
        ensures
            r@ == self@,
    {
        let mut table: Vec<(String, TypeDefinitionKind)> = Vec::new();
        let mut i: usize = 0;
        while i < self.table.len()
            invariant
                i <= self.table.len(),
                table@ == self.table@.take(i as int),
            decreases self.table.len() - i,
        {
            let name = self.table[i].0.clone();
            let kind = self.table[i].1.clone();
            table.push((name, kind));
            assert(table@ =~= self.table@.take(i + 1));
            i += 1;
        }
        assert(table@ =~= self.table@);
        Typer { table }
    }
}

/// The names in `v` as a set.
pub open spec fn names_of(v: Seq<String>) -> Set<Seq<char>> {
    Set::new(|name: Seq<char>| exists|i: int| 0 <= i < v.len() && (#[trigger] v[i])@ == name)
}

/// The names declared so far in one scope.
pub struct DuplicateChecker {
    identifiers: Vec<String>,
    label: String,
}

impl DuplicateChecker {
    /// The names seen so far.
    pub closed spec fn seen(&self) -> Set<Seq<char>> {
        names_of(self.identifiers@)
    }

    /// The label of the scope.
    pub closed spec fn scope(&self) -> Seq<char> {
        self.label@
    }

    /// A checker for the scope `label` that has seen no name.
    pub fn new(label: String) -> (c: DuplicateChecker)
        ensures
            c.seen() == Set::<Seq<char>>::empty(),
            c.scope() == label@,
    {
        let c = DuplicateChecker { identifiers: Vec::new(), label };
        assert(c.seen() =~= Set::<Seq<char>>::empty());
        c
    }

    /// Takes note of `ident`. A name that was seen before is an error that
    /// holds the label of the scope and the name; the names seen stay as they
    /// were.
    pub fn check(&mut self, ident: &String) -> (r: Result<(), ResolveError>)
        ensures
            final(self).scope() == old(self).scope(),
            old(self).seen().contains(ident@) ==> final(self).seen() == old(self).seen() && (
            r matches Err(e) && e@ == ResolveErrorView::Duplicate(old(self).scope(), ident@)),
            !old(self).seen().contains(ident@) ==> r is Ok && final(self).seen() == old(
                self,
            ).seen().insert(ident@),
    {
        let ghost before = self.identifiers@;
        let mut i: usize = 0;
        while i < self.identifiers.len()
            invariant
                i <= self.identifiers.len(),
                self.identifiers@ == before,
                self.label == old(self).label,
                forall|k: int| 0 <= k < i ==> (#[trigger] before[k])@ != ident@,
            decreases self.identifiers.len() - i,
        {
            if same_text(self.identifiers[i].as_str(), ident.as_str()) {
                return Err(ResolveError::Duplicate(self.label.clone(), ident.clone()));
            }
            i += 1;
        }
        self.identifiers.push(ident.clone());
        assert(self.seen() =~= old(self).seen().insert(ident@)) by {
            let after = self.identifiers@;
            assert(after[after.len() - 1]@ == ident@);
            assert forall|name: Seq<char>| names_of(before).contains(name) implies names_of(
                after,
            ).contains(name) by {
                let k = choose|k: int| 0 <= k < before.len() && (#[trigger] before[k])@ == name;
                assert(after[k] == before[k]);
            }
            assert forall|name: Seq<char>| names_of(after).contains(name) implies names_of(
                before,
            ).insert(ident@).contains(name) by {
                let k = choose|k: int| 0 <= k < after.len() && (#[trigger] after[k])@ == name;
                if k < before.len() {
                    assert(after[k] == before[k]);
                }
            }
        }
        Ok(())
    }
}

} // verus!
