use ts_schema::export_declaration;
use ts_schema::model::{Container, Field, Prim, Shape, StructShape, TagStrategy, TypeRef, Variant,
    VariantStyle};
use ts_schema::schema::translate_struct;
use ts_schema::self_type_text;
use ts_schema::type_expression;
use ts_schema::type_expression_debug;

fn named(name: &str, args: Vec<TypeRef>) -> TypeRef {
    TypeRef::Named(String::from(name), args)
}

fn field(name: &str, ty: TypeRef) -> Field {
    Field { name: String::from(name), ty }
}

fn container(name: &str, shape: Shape, tag: TagStrategy) -> Container {
    Container { name: String::from(name), lifetimes: vec![], shape, tag }
}

#[test]
fn newtype_struct_is_transparent() {
    let s = StructShape::Newtype(field("0", named("String", vec![])));
    assert_eq!(translate_struct(&s), "string");
}

#[test]
fn unit_struct_is_empty_object() {
    assert_eq!(translate_struct(&StructShape::Unit), "{}");
}

#[test]
fn tuple_struct_is_tuple() {
    let s = StructShape::Tuple(vec![
        field("0", named("f64", vec![])),
        field("1", named("f64", vec![])),
    ]);
    assert_eq!(translate_struct(&s), "[number, number]");
}

#[test]
fn named_struct_is_object() {
    let s = StructShape::Named(vec![
        field("x", named("f64", vec![])),
        field("y", named("String", vec![])),
    ]);
    assert_eq!(translate_struct(&s), "{ x: number, y: string }");
}

#[test]
fn empty_named_struct_normalizes_to_empty_object() {
    let c = container(
        "Empty",
        Shape::Struct(StructShape::Named(vec![])),
        TagStrategy::Fallback,
    );
    assert_eq!(type_expression(&c).unwrap(), "{}");
    assert_eq!(type_expression_debug(&c).unwrap(), "{ }");
}

#[test]
fn unit_variant_fallback_tagging() {
    let c = container(
        "Status",
        Shape::Enum(vec![Variant { name: String::from("Stopped"), style: VariantStyle::Unit }]),
        TagStrategy::Fallback,
    );
    assert_eq!(type_expression(&c).unwrap(), "{ kind: \"Stopped\" }");
}

#[test]
fn tuple_variant_adjacent_tagging() {
    let c = container(
        "Geo",
        Shape::Enum(vec![Variant {
            name: String::from("Point"),
            style: VariantStyle::Tuple(vec![
                field("0", named("f64", vec![])),
                field("1", named("f64", vec![])),
            ]),
        }]),
        TagStrategy::Adjacent { tag: String::from("kind"), content: String::from("data") },
    );
    assert_eq!(type_expression(&c).unwrap(), "{ kind: \"Point\", data: [number, number] }");
}

#[test]
fn struct_variant_internal_tagging() {
    let c = container(
        "Shape",
        Shape::Enum(vec![Variant {
            name: String::from("VariantName"),
            style: VariantStyle::Struct(vec![
                field("x", named("f64", vec![])),
                field("y", named("f64", vec![])),
            ]),
        }]),
        TagStrategy::Internal { tag: String::from("type") },
    );
    assert_eq!(type_expression(&c).unwrap(), "{ type: \"VariantName\", x: number, y: number }");
}

#[test]
fn struct_variant_tag_collision_is_error() {
    let c = container(
        "Shape",
        Shape::Enum(vec![Variant {
            name: String::from("VariantName"),
            style: VariantStyle::Struct(vec![
                field("type", named("f64", vec![])),
                field("y", named("f64", vec![])),
            ]),
        }]),
        TagStrategy::Internal { tag: String::from("type") },
    );
    let e = type_expression(&c).unwrap_err();
    assert_eq!(e.tag, "type");
    assert_eq!(e.container, "Shape");
    assert_eq!(e.variant, "VariantName");
    assert_eq!(
        e.message(),
        "tag \"type\" clashes with field in enum variant \"Shape::VariantName\""
    );
}

#[test]
fn adjacent_struct_variant_nests_payload() {
    let c = container(
        "Msg",
        Shape::Enum(vec![Variant {
            name: String::from("Move"),
            style: VariantStyle::Struct(vec![field("x", named("i32", vec![]))]),
        }]),
        TagStrategy::Adjacent { tag: String::from("t"), content: String::from("c") },
    );
    assert_eq!(type_expression(&c).unwrap(), "{ t: \"Move\", c: { x: number } }");
}

#[test]
fn adjacent_tagging_permits_tag_named_field() {
    // with a content field the payload is nested, so a field named like the
    // tag is not a collision
    let c = container(
        "Msg",
        Shape::Enum(vec![Variant {
            name: String::from("Move"),
            style: VariantStyle::Struct(vec![field("t", named("i32", vec![]))]),
        }]),
        TagStrategy::Adjacent { tag: String::from("t"), content: String::from("c") },
    );
    assert_eq!(type_expression(&c).unwrap(), "{ t: \"Move\", c: { t: number } }");
}

#[test]
fn newtype_variant_internal_uses_fields_member() {
    let c = container(
        "Wrap",
        Shape::Enum(vec![Variant {
            name: String::from("Inner"),
            style: VariantStyle::Newtype(field("0", named("String", vec![]))),
        }]),
        TagStrategy::Fallback,
    );
    assert_eq!(type_expression(&c).unwrap(), "{ kind: \"Inner\", fields: string }");
}

#[test]
fn variants_join_as_union() {
    let c = container(
        "Status",
        Shape::Enum(vec![
            Variant { name: String::from("On"), style: VariantStyle::Unit },
            Variant { name: String::from("Off"), style: VariantStyle::Unit },
        ]),
        TagStrategy::Fallback,
    );
    assert_eq!(type_expression(&c).unwrap(), "{ kind: \"On\" } | { kind: \"Off\" }");
}

#[test]
fn second_variant_collision_reported() {
    let c = container(
        "Mix",
        Shape::Enum(vec![
            Variant { name: String::from("Ok"), style: VariantStyle::Unit },
            Variant {
                name: String::from("Bad"),
                style: VariantStyle::Struct(vec![field("kind", named("u8", vec![]))]),
            },
        ]),
        TagStrategy::Fallback,
    );
    let e = type_expression(&c).unwrap_err();
    assert_eq!(e.tag, "kind");
    assert_eq!(e.container, "Mix");
    assert_eq!(e.variant, "Bad");
}

#[test]
fn export_declaration_wraps_expression() {
    let c = container(
        "Point",
        Shape::Struct(StructShape::Named(vec![
            field("x", named("f64", vec![])),
            field("y", named("f64", vec![])),
        ])),
        TagStrategy::Fallback,
    );
    assert_eq!(export_declaration(&c).unwrap(), "export type Point = { x: number, y: number };");
}

#[test]
fn self_type_without_lifetimes() {
    let c = container("Point", Shape::Struct(StructShape::Unit), TagStrategy::Fallback);
    assert_eq!(self_type_text(&c), "Point");
}

#[test]
fn self_type_erases_lifetimes_to_wildcards() {
    let c = Container {
        name: String::from("Borrowed"),
        lifetimes: vec![String::from("'a"), String::from("'b")],
        shape: Shape::Struct(StructShape::Unit),
        tag: TagStrategy::Fallback,
    };
    assert_eq!(self_type_text(&c), "Borrowed<'_, '_>");
}
