//! Rust struct definitions generated from TypeScript interface declarations.
use vstd::prelude::*;
use crate::ast::{Module, Item};
use crate::text::{push_str, string_from};

verus! {

broadcast use vstd::string::group_string_axioms;

/// A TypeScript keyword type.
pub enum TsKeyword {
    String,
    Number,
    Boolean,
    Any,
    Null,
    Undefined,
    Other,
}

/// A TypeScript type annotation, as far as the generator reads it.
pub enum TsTypeModel {
    Keyword(TsKeyword),
    Array(Box<TsTypeModel>),
    Other,
}

/// A member of an interface body.
pub enum TsMember {
    /// A property signature: its key where it is an identifier, its annotation and
    /// whether it is optional (`key?: type`).
    Property { key: Option<String>, type_ann: Option<TsTypeModel>, optional: bool },
    Other,
}

/// An interface declaration.
pub struct TsInterface {
    pub name: String,
    pub members: Vec<TsMember>,
}

/// The Rust type for a TypeScript type: `string` → `String`, `number` → `f64`,
/// `boolean` → `bool`, `null` and `undefined` → `Option<()>`, `T[]` → `Vec<T>`,
/// anything else `serde_json::Value`.
pub open spec fn rust_type(t: TsTypeModel) -> Seq<char>
    decreases t,
{
    match t {
        TsTypeModel::Keyword(k) => match k {
            TsKeyword::String => "String"@,
            TsKeyword::Number => "f64"@,
            TsKeyword::Boolean => "bool"@,
            TsKeyword::Any => "serde_json::Value"@,
            TsKeyword::Null => "Option<()>"@,
            TsKeyword::Undefined => "Option<()>"@,
            TsKeyword::Other => "serde_json::Value"@,
        },
        TsTypeModel::Array(inner) => "Vec<"@ + rust_type(*inner) + ">"@,
        TsTypeModel::Other => "serde_json::Value"@,
    }
}

/// The field line of a member, where it is a property with an identifier key.
pub open spec fn field_line(m: TsMember) -> Seq<char> {
    match m {
        TsMember::Property { key: Some(k), type_ann, optional } => {
            let t = match type_ann {
                Some(a) => rust_type(a),
                None => "serde_json::Value"@,
            };
            let t = if optional { "Option<"@ + t + ">"@ } else { t };
            "    pub "@ + k@ + ": "@ + t + ",\n"@
        },
        _ => Seq::empty(),
    }
}

/// The field lines of `members[..n]`.
pub open spec fn field_lines(members: Seq<TsMember>, n: int) -> Seq<char>
    decreases n,
{
    if n <= 0 {
        Seq::empty()
    } else {
        field_lines(members, n - 1) + field_line(members[n - 1])
    }
}

/// The struct definition for an interface, with serde derives.
pub open spec fn struct_text(i: TsInterface) -> Seq<char> {
    "#[derive(Debug, Clone, Serialize, Deserialize)]\n"@ + "pub struct "@ + i.name@ + " {\n"@
        + field_lines(i.members@, i.members@.len() as int) + "}\n\n"@
}

/// The Rust type for a TypeScript type.
pub fn ts_type_to_rust(t: &TsTypeModel) -> (r: String)
    ensures
        r@ == rust_type(*t),
    decreases t,
{
    match t {
        TsTypeModel::Keyword(k) => match k {
            TsKeyword::String => string_from("String"),
            TsKeyword::Number => string_from("f64"),
            TsKeyword::Boolean => string_from("bool"),
            TsKeyword::Any => string_from("serde_json::Value"),
            TsKeyword::Null => string_from("Option<()>"),
            TsKeyword::Undefined => string_from("Option<()>"),
            TsKeyword::Other => string_from("serde_json::Value"),
        },
        TsTypeModel::Array(inner) => {
            let it = ts_type_to_rust(inner);
            let mut s = string_from("Vec<");
            push_str(&mut s, it.as_str());
            push_str(&mut s, ">");
            s
        },
        TsTypeModel::Other => string_from("serde_json::Value"),
    }
}

/// Appends the struct definition for `iface` to `output`.
pub fn write_struct(output: &mut String, iface: &TsInterface)
    ensures
        final(output)@ == old(output)@ + struct_text(*iface),
{
    let ghost start = output@;
    push_str(output, "#[derive(Debug, Clone, Serialize, Deserialize)]\n");
    push_str(output, "pub struct ");
    push_str(output, iface.name.as_str());
    push_str(output, " {\n");
    let ghost head = output@;
    let mut i: usize = 0;
    while i < iface.members.len()
        invariant
            i <= iface.members.len(),
            output@ == head + field_lines(iface.members@, i as int),
        decreases iface.members.len() - i,
    {
        if let TsMember::Property { key: Some(k), type_ann, optional } = &iface.members[i] {
            let t = match type_ann {
                Some(a) => ts_type_to_rust(a),
                None => string_from("serde_json::Value"),
            };
            let t = if *optional {
                let mut o = string_from("Option<");
                push_str(&mut o, t.as_str());
                push_str(&mut o, ">");
                o
            } else {
                t
            };
            push_str(output, "    pub ");
            push_str(output, k.as_str());
            push_str(output, ": ");
            push_str(output, t.as_str());
            push_str(output, ",\n");
        }
        proof {
            assert(output@ =~= head + field_lines(iface.members@, i + 1));
        }
        i = i + 1;
    }
    push_str(output, "}\n\n");
    assert(output@ =~= start + struct_text(*iface));
}

/// The struct definitions for the interfaces declared among `items[..n]`, in order.
pub open spec fn items_text(items: Seq<Item>, n: int) -> Seq<char>
    decreases n,
{
    if n <= 0 {
        Seq::empty()
    } else {
        items_text(items, n - 1) + match items[n - 1] {
            Item::TsInterface(i) => struct_text(i),
            _ => Seq::empty(),
        }
    }
}

/// The struct definitions for the interfaces declared in `modules[..n]`, module by
/// module.
pub open spec fn modules_text(modules: Seq<Module>, n: int) -> Seq<char>
    decreases n,
{
    if n <= 0 {
        Seq::empty()
    } else {
        modules_text(modules, n - 1) + items_text(modules[n - 1].body@, modules[n - 1].body@.len() as int)
    }
}

/// The generated file for a set of parsed modules: the serde import, then a struct
/// for each interface declaration, in the order of the modules and of their items.
pub open spec fn module_types_text(modules: Seq<Module>) -> Seq<char> {
    "use serde::{Serialize, Deserialize};\n\n"@ + modules_text(modules, modules.len() as int)
}

/// Appends the struct definitions for the interfaces declared in `items`.
pub fn write_item_structs(output: &mut String, items: &Vec<Item>)
    ensures
        final(output)@ == old(output)@ + items_text(items@, items@.len() as int),
{
    let ghost start = output@;
    let mut i: usize = 0;
    while i < items.len()
        invariant
            i <= items.len(),
            output@ == start + items_text(items@, i as int),
        decreases items.len() - i,
    {
        if let Item::TsInterface(iface) = &items[i] {
            write_struct(output, iface);
        }
        assert(output@ =~= start + items_text(items@, i + 1));
        i = i + 1;
    }
}

/// The generated Rust source for the interfaces declared in the parsed modules.
pub fn generate_module_types(modules: &Vec<Module>) -> (r: String)
    ensures
        r@ == module_types_text(modules@),
{
    let mut output = string_from("use serde::{Serialize, Deserialize};\n\n");
    let ghost head = output@;
    let mut i: usize = 0;
    while i < modules.len()
        invariant
            i <= modules.len(),
            output@ == head + modules_text(modules@, i as int),
        decreases modules.len() - i,
    {
        write_item_structs(&mut output, &modules[i].body);
        assert(output@ =~= head + modules_text(modules@, i + 1));
        i = i + 1;
    }
    output
}

/// TypeScript's `any` holds any JSON value, and is mapped as the types that the
/// generator does not know are: to the one type that holds any JSON value, never to
/// the narrower type of another keyword (`string`, `number`, `boolean`, `null`,
/// `undefined`).
pub proof fn any_is_mapped_as_unknown_types(k: TsKeyword)
    ensures
        rust_type(TsTypeModel::Keyword(TsKeyword::Any)) == rust_type(TsTypeModel::Other),
        rust_type(TsTypeModel::Keyword(TsKeyword::Other)) == rust_type(TsTypeModel::Other),
        !(k is Any) && !(k is Other) ==> rust_type(TsTypeModel::Keyword(k)) != rust_type(TsTypeModel::Keyword(TsKeyword::Any)),
{
    reveal_strlit("serde_json::Value");
    reveal_strlit("String");
    reveal_strlit("f64");
    reveal_strlit("bool");
    reveal_strlit("Option<()>");
    if !(k is Any) && !(k is Other) {
        assert(rust_type(TsTypeModel::Keyword(k)).len() != rust_type(TsTypeModel::Keyword(TsKeyword::Any)).len());
    }
}

} // verus!
