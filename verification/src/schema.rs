//! The field, struct, variant and enum translators.
//!
//! A struct maps to an object, tuple or transparent expression according to
//! its shape. An enum maps to a union of one object expression per variant,
//! every member carrying the tag field as a string-literal-valued member;
//! the payload is placed beside the tag (internal tagging) or under a
//! separate content member (adjacent tagging). Under internal tagging a
//! struct-style variant whose field names include the tag field name is a
//! fatal configuration error.

use vstd::prelude::*;
use crate::model::{ConfigError, Container, Field, Shape, StructShape, TagStrategy, Variant,
    VariantStyle};
use crate::translate::{spec_translate, translate};

verus! {

/// The text of one field member: the resolved name, a colon, the
/// translation of the field's type.
pub open spec fn spec_translate_field(f: Field) -> Seq<char> {
    f.name@ + ": "@ + spec_translate(f.ty)
}

/// The field members of the given fields, joined by `sep`.
pub open spec fn join_fields(fs: Seq<Field>, sep: Seq<char>) -> Seq<char>
    decreases fs,
{
    if fs.len() == 0 {
        Seq::<char>::empty()
    } else if fs.len() == 1 {
        spec_translate_field(fs[0])
    } else {
        spec_translate_field(fs[0]) + sep + join_fields(fs.drop_first(), sep)
    }
}

/// The translations of the types of the given fields (names ignored),
/// joined by `sep`.
pub open spec fn join_field_types(fs: Seq<Field>, sep: Seq<char>) -> Seq<char>
    decreases fs,
{
    if fs.len() == 0 {
        Seq::<char>::empty()
    } else if fs.len() == 1 {
        spec_translate(fs[0].ty)
    } else {
        spec_translate(fs[0].ty) + sep + join_field_types(fs.drop_first(), sep)
    }
}

/// The expression for a struct container: unit structs are the empty
/// object, a newtype struct is transparently its inner type, a tuple
/// struct is a fixed-length tuple expression, named fields form an object
/// expression.
pub open spec fn spec_translate_struct(s: StructShape) -> Seq<char> {
    match s {
        StructShape::Unit => "{}"@,
        StructShape::Newtype(f) => spec_translate(f.ty),
        StructShape::Tuple(fs) => "["@ + join_field_types(fs@, ", "@) + "]"@,
        StructShape::Named(fs) => "{ "@ + join_fields(fs@, ", "@) + " }"@,
    }
}

/// The tag field name that a tagging strategy resolves to: the configured
/// one, or `"kind"` when no strategy is configured.
pub open spec fn resolved_tag(t: TagStrategy) -> Seq<char> {
    match t {
        TagStrategy::Internal { tag } => tag@,
        TagStrategy::Adjacent { tag, content: _ } => tag@,
        TagStrategy::Fallback => "kind"@,
    }
}

/// The content field name that a tagging strategy resolves to, when one is
/// configured (adjacent tagging only).
pub open spec fn resolved_content(t: TagStrategy) -> Option<Seq<char>> {
    match t {
        TagStrategy::Internal { tag: _ } => None,
        TagStrategy::Adjacent { tag: _, content } => Some(content@),
        TagStrategy::Fallback => None,
    }
}

/// The tag member of a variant expression: the tag field name bound to the
/// variant's name as a string literal.
pub open spec fn spec_tag_member(tag: Seq<char>, variant_name: Seq<char>) -> Seq<char> {
    tag + ": \""@ + variant_name + "\""@
}

/// The member name under which an unnamed payload is placed: the configured
/// content field, or the fixed convention `"fields"` under internal
/// tagging.
pub open spec fn payload_key(content: Option<Seq<char>>) -> Seq<char> {
    match content {
        Some(c) => c,
        None => "fields"@,
    }
}

/// The object expression for one enum variant under the resolved tagging.
pub open spec fn spec_translate_variant(
    tag: Seq<char>,
    content: Option<Seq<char>>,
    v: Variant,
) -> Seq<char> {
    match v.style {
        VariantStyle::Unit => "{ "@ + spec_tag_member(tag, v.name@) + " }"@,
        VariantStyle::Newtype(f) => "{ "@ + spec_tag_member(tag, v.name@) + ", "@ + payload_key(
            content,
        ) + ": "@ + spec_translate(f.ty) + " }"@,
        VariantStyle::Tuple(fs) => "{ "@ + spec_tag_member(tag, v.name@) + ", "@ + payload_key(
            content,
        ) + ": ["@ + join_field_types(fs@, ", "@) + "] }"@,
        VariantStyle::Struct(fs) => match content {
            Some(c) => "{ "@ + spec_tag_member(tag, v.name@) + ", "@ + c + ": { "@ + join_fields(
                fs@,
                ", "@,
            ) + " } }"@,
            None => "{ "@ + spec_tag_member(tag, v.name@) + ", "@ + join_fields(fs@, ", "@)
                + " }"@,
        },
    }
}

/// Whether translating this variant is a configuration error: under
/// internal tagging (no content field), a struct-style variant has a field
/// whose resolved name equals the tag field name.
pub open spec fn variant_collides(tag: Seq<char>, content: Option<Seq<char>>, v: Variant) -> bool {
    content is None && match v.style {
        VariantStyle::Struct(fs) => exists|i: int| 0 <= i < fs@.len() && fs@[i].name@ == tag,
        _ => false,
    }
}

/// Whether any variant of the sequence collides with the tag field.
pub open spec fn has_collision(tag: Seq<char>, content: Option<Seq<char>>, vs: Seq<Variant>) -> bool {
    exists|i: int| 0 <= i < vs.len() && variant_collides(tag, content, vs[i])
}

/// The index of the first colliding variant (meaningful only when some
/// variant collides).
pub open spec fn first_collision(tag: Seq<char>, content: Option<Seq<char>>, vs: Seq<Variant>) -> int
    decreases vs,
{
    if vs.len() == 0 {
        0
    } else if variant_collides(tag, content, vs[0]) {
        0
    } else {
        1 + first_collision(tag, content, vs.drop_first())
    }
}

/// The variant expressions of the sequence, joined by the union operator.
pub open spec fn join_variants(
    tag: Seq<char>,
    content: Option<Seq<char>>,
    vs: Seq<Variant>,
) -> Seq<char>
    decreases vs,
{
    if vs.len() == 0 {
        Seq::<char>::empty()
    } else if vs.len() == 1 {
        spec_translate_variant(tag, content, vs[0])
    } else {
        spec_translate_variant(tag, content, vs[0]) + " | "@ + join_variants(
            tag,
            content,
            vs.drop_first(),
        )
    }
}

/// The raw expression for a whole container: the struct expression, or the
/// union of the variant expressions under the container's resolved tagging.
/// Defined for every container; a collision is reported by the executable
/// translator instead of producing this text.
pub open spec fn spec_translate_container(c: Container) -> Seq<char> {
    match c.shape {
        Shape::Struct(s) => spec_translate_struct(s),
        Shape::Enum(vs) => join_variants(resolved_tag(c.tag), resolved_content(c.tag), vs@),
    }
}

/// Whether translating the container fails with a configuration error.
pub open spec fn container_has_collision(c: Container) -> bool {
    match c.shape {
        Shape::Struct(_) => false,
        Shape::Enum(vs) => has_collision(resolved_tag(c.tag), resolved_content(c.tag), vs@),
    }
}

/// The name of the variant that a failing translation reports: the first
/// colliding one, in variant order.
pub open spec fn spec_collision_variant(c: Container) -> Seq<char> {
    match c.shape {
        Shape::Struct(_) => Seq::<char>::empty(),
        Shape::Enum(vs) => vs@[first_collision(
            resolved_tag(c.tag),
            resolved_content(c.tag),
            vs@,
        )].name@,
    }
}

/// A newtype struct is transparent: it translates exactly as its single
/// field's type does, with no object wrapper around it.
pub proof fn lemma_newtype_transparent(s: StructShape, f: Field)
    requires
        s == StructShape::Newtype(f),
    ensures
        spec_translate_struct(s) == spec_translate(f.ty),
{
}

/// Appending one more field to a joined member list extends the join by one
/// separator and one member.
pub proof fn lemma_join_fields_push(fs: Seq<Field>, f: Field, sep: Seq<char>)
    ensures
        join_fields(fs.push(f), sep) == if fs.len() == 0 {
            spec_translate_field(f)
        } else {
            (join_fields(fs, sep) + sep + spec_translate_field(f))
        },
    decreases fs.len(),
{
    let p = fs.push(f);
    if fs.len() == 0 {
        assert(p.len() == 1);
        assert(p[0] == f);
    } else {
        assert(p[0] == fs[0]);
        assert(p.drop_first() =~= fs.drop_first().push(f));
        lemma_join_fields_push(fs.drop_first(), f, sep);
    }
}

/// Appending one more field to a joined type list extends the join by one
/// separator and one translation.
pub proof fn lemma_join_field_types_push(fs: Seq<Field>, f: Field, sep: Seq<char>)
    ensures
        join_field_types(fs.push(f), sep) == if fs.len() == 0 {
            spec_translate(f.ty)
        } else {
            (join_field_types(fs, sep) + sep + spec_translate(f.ty))
        },
    decreases fs.len(),
{
    let p = fs.push(f);
    if fs.len() == 0 {
        assert(p.len() == 1);
        assert(p[0] == f);
    } else {
        assert(p[0] == fs[0]);
        assert(p.drop_first() =~= fs.drop_first().push(f));
        lemma_join_field_types_push(fs.drop_first(), f, sep);
    }
}

/// Appending one more variant to a joined union extends the union by one
/// member.
pub proof fn lemma_join_variants_push(
    tag: Seq<char>,
    content: Option<Seq<char>>,
    vs: Seq<Variant>,
    v: Variant,
)
    ensures
        join_variants(tag, content, vs.push(v)) == if vs.len() == 0 {
            spec_translate_variant(tag, content, v)
        } else {
            (join_variants(tag, content, vs) + " | "@ + spec_translate_variant(tag, content, v))
        },
    decreases vs.len(),
{
    let p = vs.push(v);
    if vs.len() == 0 {
        assert(p.len() == 1);
        assert(p[0] == v);
    } else {
        assert(p[0] == vs[0]);
        assert(p.drop_first() =~= vs.drop_first().push(v));
        lemma_join_variants_push(tag, content, vs.drop_first(), v);
    }
}

/// The first collision is the colliding index before which no variant
/// collides.
pub proof fn lemma_first_collision_at(
    tag: Seq<char>,
    content: Option<Seq<char>>,
    vs: Seq<Variant>,
    j: int,
)
    requires
        0 <= j < vs.len(),
        variant_collides(tag, content, vs[j]),
        forall|i: int| 0 <= i < j ==> !variant_collides(tag, content, vs[i]),
    ensures
        first_collision(tag, content, vs) == j,
    decreases vs.len(),
{
    if j == 0 {
    } else {
        assert(!variant_collides(tag, content, vs[0]));
        assert(vs.drop_first()[j - 1] == vs[j]);
        assert(forall|i: int| 0 <= i < j - 1 ==> vs.drop_first()[i] == vs[i + 1]);
        lemma_first_collision_at(tag, content, vs.drop_first(), j - 1);
    }
}

/// The text of one field member.
pub fn translate_field(f: &Field) -> (r: String)
    ensures
        r@ == spec_translate_field(*f),
{
    let mut r = f.name.clone();
    r.append(": ");
    let t = translate(&f.ty);
    r.append(t.as_str());
    r
}

/// Appends to `out` the members of all of `fs`, joined by `sep`.
fn join_fields_into(out: &mut String, fs: &Vec<Field>, sep: &str)
    ensures
        final(out)@ == old(out)@ + join_fields(fs@, sep@),
{
    let ghost start = out@;
    let mut j: usize = 0;
    while j < fs.len()
        invariant
            j <= fs.len(),
            out@ == start + join_fields(fs@.take(j as int), sep@),
        decreases fs.len() - j,
    {
        if j > 0 {
            out.append(sep);
        }
        let piece = translate_field(&fs[j]);
        out.append(piece.as_str());
        proof {
            lemma_join_fields_push(fs@.take(j as int), fs@[j as int], sep@);
            assert(fs@.take(j + 1 as int) =~= fs@.take(j as int).push(fs@[j as int]));
        }
        j = j + 1;
    }
    proof {
        assert(fs@.take(fs@.len() as int) =~= fs@);
    }
}

/// Appends to `out` the translated types of all of `fs`, joined by `sep`.
fn join_field_types_into(out: &mut String, fs: &Vec<Field>, sep: &str)
    ensures
        final(out)@ == old(out)@ + join_field_types(fs@, sep@),
{
    let ghost start = out@;
    let mut j: usize = 0;
    while j < fs.len()
        invariant
            j <= fs.len(),
            out@ == start + join_field_types(fs@.take(j as int), sep@),
        decreases fs.len() - j,
    {
        if j > 0 {
            out.append(sep);
        }
        let piece = translate(&fs[j].ty);
        out.append(piece.as_str());
        proof {
            lemma_join_field_types_push(fs@.take(j as int), fs@[j as int], sep@);
            assert(fs@.take(j + 1 as int) =~= fs@.take(j as int).push(fs@[j as int]));
        }
        j = j + 1;
    }
    proof {
        assert(fs@.take(fs@.len() as int) =~= fs@);
    }
}

/// The expression for a struct container, by shape.
pub fn translate_struct(s: &StructShape) -> (r: String)
    ensures
        r@ == spec_translate_struct(*s),
{
    match s {
        StructShape::Unit => String::from_str("{}"),
        StructShape::Newtype(f) => translate(&f.ty),
        StructShape::Tuple(fs) => {
            let mut r = String::from_str("[");
            join_field_types_into(&mut r, fs, ", ");
            r.append("]");
            r
        },
        StructShape::Named(fs) => {
            let mut r = String::from_str("{ ");
            join_fields_into(&mut r, fs, ", ");
            r.append(" }");
            r
        },
    }
}

/// The tagging configuration an enum resolves to, once per container.
pub struct TagInfo {
    pub tag: String,
    pub content: Option<String>,
}

/// Resolves the container's tagging strategy: the configured tag and
/// content field names, or the default internal tagging under the tag name
/// `"kind"`.
pub fn resolve_tag(t: &TagStrategy) -> (r: TagInfo)
    ensures
        r.tag@ == resolved_tag(*t),
        r.content is Some <==> resolved_content(*t) is Some,
        r.content is Some ==> r.content->0@ == resolved_content(*t)->0,
{
    match t {
        TagStrategy::Internal { tag } => TagInfo { tag: tag.clone(), content: None },
        TagStrategy::Adjacent { tag, content } => TagInfo {
            tag: tag.clone(),
            content: Some(content.clone()),
        },
        TagStrategy::Fallback => TagInfo { tag: String::from_str("kind"), content: None },
    }
}

/// The content view of a resolved tagging.
pub open spec fn content_view(info: TagInfo) -> Option<Seq<char>> {
    match info.content {
        Some(c) => Some(c@),
        None => None,
    }
}

/// Appends to `out` the tag member of a variant expression.
fn tag_member_into(out: &mut String, tag: &String, variant_name: &String)
    ensures
        final(out)@ == old(out)@ + spec_tag_member(tag@, variant_name@),
{
    out.append(tag.as_str());
    out.append(": \"");
    out.append(variant_name.as_str());
    out.append("\"");
}

/// Appends to `out` the member name under which an unnamed payload goes.
fn payload_key_into(out: &mut String, content: &Option<String>)
    ensures
        final(out)@ == old(out)@ + payload_key(match *content {
            Some(c) => Some(c@),
            None => None,
        }),
{
    match content {
        Some(c) => out.append(c.as_str()),
        None => out.append("fields"),
    }
}

/// The object expression for one enum variant, or the configuration error
/// when the variant's field names collide with the tag field under internal
/// tagging. The error names the enclosing container and the variant.
pub fn translate_variant(container_name: &String, info: &TagInfo, v: &Variant) -> (r: Result<
    String,
    ConfigError,
>)
    ensures
        r is Err <==> variant_collides(info.tag@, content_view(*info), *v),
        r is Ok ==> r->Ok_0@ == spec_translate_variant(info.tag@, content_view(*info), *v),
        r is Err ==> r->Err_0.tag@ == info.tag@ && r->Err_0.container@ == container_name@
            && r->Err_0.variant@ == v.name@,
{
    match &v.style {
        VariantStyle::Unit => {
            let mut r = String::from_str("{ ");
            tag_member_into(&mut r, &info.tag, &v.name);
            r.append(" }");
            Ok(r)
        },
        VariantStyle::Newtype(f) => {
            let mut r = String::from_str("{ ");
            tag_member_into(&mut r, &info.tag, &v.name);
            r.append(", ");
            payload_key_into(&mut r, &info.content);
            r.append(": ");
            let t = translate(&f.ty);
            r.append(t.as_str());
            r.append(" }");
            Ok(r)
        },
        VariantStyle::Tuple(fs) => {
            let mut r = String::from_str("{ ");
            tag_member_into(&mut r, &info.tag, &v.name);
            r.append(", ");
            payload_key_into(&mut r, &info.content);
            r.append(": [");
            join_field_types_into(&mut r, fs, ", ");
            r.append("] }");
            Ok(r)
        },
        VariantStyle::Struct(fs) => match &info.content {
            Some(c) => {
                let mut r = String::from_str("{ ");
                tag_member_into(&mut r, &info.tag, &v.name);
                r.append(", ");
                r.append(c.as_str());
                r.append(": { ");
                join_fields_into(&mut r, fs, ", ");
                r.append(" } }");
                Ok(r)
            },
            None => {
                let mut k: usize = 0;
                while k < fs.len()
                    invariant
                        k <= fs.len(),
                        info.content is None,
                        v.style == VariantStyle::Struct(*fs),
                        forall|i: int| 0 <= i < k ==> fs@[i].name@ != info.tag@,
                    decreases fs.len() - k,
                {
                    if fs[k].name == info.tag {
                        proof {
                            assert(0 <= k < fs@.len() && fs@[k as int].name@ == info.tag@);
                            assert(variant_collides(info.tag@, content_view(*info), *v));
                        }
                        return Err(
                            ConfigError {
                                tag: info.tag.clone(),
                                container: container_name.clone(),
                                variant: v.name.clone(),
                            },
                        );
                    }
                    k = k + 1;
                }
                let mut r = String::from_str("{ ");
                tag_member_into(&mut r, &info.tag, &v.name);
                r.append(", ");
                join_fields_into(&mut r, fs, ", ");
                r.append(" }");
                Ok(r)
            },
        },
    }
}

/// The union expression for an enum, or the configuration error of its
/// first colliding variant. Success exactly when no struct-style variant
/// collides with the resolved tag field.
pub fn translate_enum(container_name: &String, strat: &TagStrategy, vs: &Vec<Variant>) -> (r:
    Result<String, ConfigError>)
    ensures
        r is Err <==> has_collision(resolved_tag(*strat), resolved_content(*strat), vs@),
        r is Ok ==> r->Ok_0@ == join_variants(resolved_tag(*strat), resolved_content(*strat), vs@),
        r is Err ==> r->Err_0.tag@ == resolved_tag(*strat) && r->Err_0.container@
            == container_name@ && r->Err_0.variant@ == vs@[
            first_collision(resolved_tag(*strat), resolved_content(*strat), vs@)
        ].name@,
{
    let info = resolve_tag(strat);
    let ghost tag = resolved_tag(*strat);
    let ghost content = resolved_content(*strat);
    proof {
        assert(content_view(info) == content);
    }
    let mut out = String::new();
    let mut j: usize = 0;
    while j < vs.len()
        invariant
            j <= vs.len(),
            tag == resolved_tag(*strat),
            content == resolved_content(*strat),
            info.tag@ == tag,
            content_view(info) == content,
            out@ == join_variants(tag, content, vs@.take(j as int)),
            forall|i: int| 0 <= i < j ==> !variant_collides(tag, content, vs@[i]),
        decreases vs.len() - j,
    {
        match translate_variant(container_name, &info, &vs[j]) {
            Ok(piece) => {
                if j > 0 {
                    out.append(" | ");
                }
                out.append(piece.as_str());
                proof {
                    lemma_join_variants_push(tag, content, vs@.take(j as int), vs@[j as int]);
                    assert(vs@.take(j + 1 as int) =~= vs@.take(j as int).push(vs@[j as int]));
                }
            },
            Err(e) => {
                proof {
                    assert(variant_collides(tag, content, vs@[j as int]));
                    assert(has_collision(tag, content, vs@));
                    lemma_first_collision_at(tag, content, vs@, j as int);
                }
                return Err(e);
            },
        }
        j = j + 1;
    }
    proof {
        assert(vs@.take(vs@.len() as int) =~= vs@);
    }
    Ok(out)
}

/// The raw expression for a whole container, or the configuration error of
/// its first colliding variant. Success exactly when the container is a
/// struct or an enum free of tag collisions.
pub fn translate_container(c: &Container) -> (r: Result<String, ConfigError>)
    ensures
        r is Err <==> container_has_collision(*c),
        r is Ok ==> r->Ok_0@ == spec_translate_container(*c),
        r is Err ==> r->Err_0.tag@ == resolved_tag(c.tag) && r->Err_0.container@ == c.name@
            && r->Err_0.variant@ == spec_collision_variant(*c),
{
    match &c.shape {
        Shape::Struct(s) => Ok(translate_struct(s)),
        Shape::Enum(vs) => translate_enum(&c.name, &c.tag, vs),
    }
}

} // verus!
