use ts_schema::model::{Prim, TypeRef};
use ts_schema::translate::translate;

fn named(name: &str, args: Vec<TypeRef>) -> TypeRef {
    TypeRef::Named(String::from(name), args)
}

#[test]
fn numeric_widths_collapse() {
    let widths = ["u8", "u16", "u32", "u64", "u128", "usize", "i8", "i16", "i32", "i64", "i128",
        "isize", "f32", "f64"];
    for w in widths.iter() {
        assert_eq!(translate(&named(w, vec![])), "number");
    }
    assert_eq!(translate(&TypeRef::Primitive(Prim::Number)), "number");
    // arguments to a numeric spelling are ignored
    assert_eq!(translate(&named("u32", vec![TypeRef::Opaque])), "number");
}

#[test]
fn primitive_texts() {
    assert_eq!(translate(&TypeRef::Primitive(Prim::Str)), "string");
    assert_eq!(translate(&TypeRef::Primitive(Prim::Boolean)), "boolean");
}

#[test]
fn string_spellings() {
    assert_eq!(translate(&named("String", vec![])), "string");
    assert_eq!(translate(&named("str", vec![])), "string");
    assert_eq!(translate(&named("bool", vec![])), "boolean");
}

#[test]
fn optional_is_nullable_union() {
    let o = named("Option", vec![named("String", vec![])]);
    assert_eq!(translate(&o), "string | null");
}

#[test]
fn optional_rewrap_not_flattened() {
    let inner = named("Option", vec![TypeRef::Primitive(Prim::Str)]);
    let o = named("Option", vec![inner]);
    assert_eq!(translate(&o), "string | null | null");
}

#[test]
fn array_suffix() {
    let a = TypeRef::Array(Box::new(TypeRef::Primitive(Prim::Number)));
    assert_eq!(translate(&a), "number[]");
}

#[test]
fn array_nesting_compositional() {
    let a = TypeRef::Array(Box::new(TypeRef::Array(Box::new(TypeRef::Primitive(Prim::Number)))));
    assert_eq!(translate(&a), "number[][]");
}

#[test]
fn tuple_expression() {
    let t = TypeRef::Tuple(vec![TypeRef::Primitive(Prim::Number), TypeRef::Primitive(Prim::Str)]);
    assert_eq!(translate(&t), "[number, string]");
}

#[test]
fn empty_tuple_expression() {
    assert_eq!(translate(&TypeRef::Tuple(vec![])), "[]");
}

#[test]
fn never_and_opaque() {
    assert_eq!(translate(&TypeRef::Never), "never");
    assert_eq!(translate(&TypeRef::Opaque), "any");
}

#[test]
fn trait_union_bars() {
    let t = TypeRef::TraitUnion(vec![String::from("Read"), String::from("Write")]);
    assert_eq!(translate(&t), "Read | Write");
}

#[test]
fn vec_is_array_of_union() {
    let v = named("Vec", vec![TypeRef::Primitive(Prim::Number)]);
    assert_eq!(translate(&v), "number[]");
}

#[test]
fn vec_without_args_passes_through() {
    assert_eq!(translate(&named("Vec", vec![])), "Vec");
}

#[test]
fn wrappers_are_transparent() {
    for w in ["Box", "Rc", "Arc", "Cow"].iter() {
        let c = named(w, vec![TypeRef::Primitive(Prim::Str)]);
        assert_eq!(translate(&c), "string");
    }
}

#[test]
fn map_and_set() {
    let m = named("HashMap", vec![TypeRef::Primitive(Prim::Str), TypeRef::Primitive(Prim::Number)]);
    assert_eq!(translate(&m), "Map<string, number>");
    let s = named("HashSet", vec![TypeRef::Primitive(Prim::Number)]);
    assert_eq!(translate(&s), "Set<number>");
}

#[test]
fn result_collapses_to_union() {
    let r = named("Result", vec![TypeRef::Primitive(Prim::Number), TypeRef::Primitive(Prim::Str)]);
    assert_eq!(translate(&r), "number | string");
}

#[test]
fn passthrough_without_args() {
    assert_eq!(translate(&named("Duration", vec![])), "Duration");
}

#[test]
fn passthrough_generic_instantiation() {
    let g = named("Wrapper", vec![TypeRef::Primitive(Prim::Number), TypeRef::Primitive(Prim::Str)]);
    assert_eq!(translate(&g), "Wrapper<number, string>");
}
