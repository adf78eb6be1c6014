//! The type-reference translator: maps one `TypeRef` to the text of a
//! target type expression, recursively. Total: every type reference has a
//! defined mapping and translation never fails.
//!
//! `Named` references are resolved against a fixed built-in table (numeric
//! and string spellings, growable sequences, copy-on-write wrappers, maps,
//! sets, optionals, result/either types) before falling through to a
//! generic passthrough that keeps the identifier and its translated
//! arguments verbatim.

use vstd::prelude::*;
use crate::model::{Prim, TypeRef};
use crate::text::eq_lit;

verus! {

/// The transparent wrapper spellings of the built-in table: boxes,
/// reference-counted wrappers and copy-on-write wrappers translate as their
/// first argument, discarding the wrapper.
pub open spec fn is_transparent_name(n: Seq<char>) -> bool {
    ||| n == "Box"@
    ||| n == "Rc"@
    ||| n == "Arc"@
    ||| n == "Cow"@
}

/// The numeric spellings of the built-in table: every width and signedness
/// of integer, plus the two floating-point widths, collapse to the one
/// target numeric type.
pub open spec fn is_numeric_name(n: Seq<char>) -> bool {
    ||| n == "u8"@
    ||| n == "u16"@
    ||| n == "u32"@
    ||| n == "u64"@
    ||| n == "u128"@
    ||| n == "usize"@
    ||| n == "i8"@
    ||| n == "i16"@
    ||| n == "i32"@
    ||| n == "i64"@
    ||| n == "i128"@
    ||| n == "isize"@
    ||| n == "f32"@
    ||| n == "f64"@
}

/// The text of a primitive type expression.
pub open spec fn spec_prim(p: Prim) -> Seq<char> {
    match p {
        Prim::Number => "number"@,
        Prim::Str => "string"@,
        Prim::Boolean => "boolean"@,
    }
}

/// The translations of the given type references, joined by `sep`.
pub open spec fn join_types(ts: Seq<TypeRef>, sep: Seq<char>) -> Seq<char>
    decreases ts, 0int,
{
    if ts.len() == 0 {
        Seq::<char>::empty()
    } else if ts.len() == 1 {
        spec_translate(ts[0])
    } else {
        spec_translate(ts[0]) + sep + join_types(ts.drop_first(), sep)
    }
}

/// The given names, joined by `sep`.
pub open spec fn join_names(ns: Seq<String>, sep: Seq<char>) -> Seq<char>
    decreases ns,
{
    if ns.len() == 0 {
        Seq::<char>::empty()
    } else if ns.len() == 1 {
        ns[0]@
    } else {
        ns[0]@ + sep + join_names(ns.drop_first(), sep)
    }
}

/// The built-in table for path-based type references, consulted before the
/// generic passthrough: an ordered lookup from the identifier (and its
/// argument count) to the translation rule.
pub open spec fn spec_named(name: Seq<char>, args: Seq<TypeRef>) -> Seq<char>
    decreases args, 1int,
{
    if is_numeric_name(name) {
        "number"@
    } else if name == "String"@ || name == "str"@ {
        "string"@
    } else if name == "bool"@ {
        "boolean"@
    } else if name == "Vec"@ && args.len() >= 1 {
        join_types(args, " | "@) + "[]"@
    } else if is_transparent_name(name) && args.len() >= 1 {
        spec_translate(args[0])
    } else if name == "HashMap"@ && args.len() >= 2 {
        "Map<"@ + spec_translate(args[0]) + ", "@ + spec_translate(args[1]) + ">"@
    } else if name == "HashSet"@ && args.len() >= 1 {
        "Set<"@ + spec_translate(args[0]) + ">"@
    } else if name == "Option"@ && args.len() >= 1 {
        spec_translate(args[0]) + " | null"@
    } else if name == "Result"@ && args.len() >= 2 {
        spec_translate(args[0]) + " | "@ + spec_translate(args[1])
    } else if args.len() == 0 {
        name
    } else {
        name + "<"@ + join_types(args, ", "@) + ">"@
    }
}

/// The target type expression for a type reference.
pub open spec fn spec_translate(t: TypeRef) -> Seq<char>
    decreases t, 2int,
{
    match t {
        TypeRef::Primitive(p) => spec_prim(p),
        TypeRef::Array(elem) => spec_translate(*elem) + "[]"@,
        TypeRef::Tuple(ts) => "["@ + join_types(ts@, ", "@) + "]"@,
        TypeRef::Never => "never"@,
        TypeRef::Opaque => "any"@,
        TypeRef::TraitUnion(ns) => join_names(ns@, " | "@),
        TypeRef::Named(name, args) => spec_named(name@, args@),
    }
}

/// The spelling `"Option"` is none of the other entries of the built-in
/// table.
proof fn lemma_option_name_facts()
    ensures
        !is_numeric_name("Option"@),
        "Option"@ != "String"@,
        "Option"@ != "str"@,
        "Option"@ != "bool"@,
        "Option"@ != "Vec"@,
        !is_transparent_name("Option"@),
        "Option"@ != "HashMap"@,
        "Option"@ != "HashSet"@,
{
    reveal_strlit("Box");
    reveal_strlit("Rc");
    reveal_strlit("Arc");
    reveal_strlit("Option");
    reveal_strlit("u8");
    reveal_strlit("u16");
    reveal_strlit("u32");
    reveal_strlit("u64");
    reveal_strlit("u128");
    reveal_strlit("usize");
    reveal_strlit("i8");
    reveal_strlit("i16");
    reveal_strlit("i32");
    reveal_strlit("i64");
    reveal_strlit("i128");
    reveal_strlit("isize");
    reveal_strlit("f32");
    reveal_strlit("f64");
    reveal_strlit("String");
    reveal_strlit("str");
    reveal_strlit("bool");
    reveal_strlit("Vec");
    reveal_strlit("Cow");
    reveal_strlit("HashMap");
    reveal_strlit("HashSet");
    assert("Option"@.len() == 6);
    assert("Option"@[0] == 'O');
    assert("String"@[0] == 'S');
    assert("u8"@.len() == 2);
    assert("u16"@.len() == 3);
    assert("u32"@.len() == 3);
    assert("u64"@.len() == 3);
    assert("u128"@.len() == 4);
    assert("usize"@.len() == 5);
    assert("i8"@.len() == 2);
    assert("i16"@.len() == 3);
    assert("i32"@.len() == 3);
    assert("i64"@.len() == 3);
    assert("i128"@.len() == 4);
    assert("isize"@.len() == 5);
    assert("f32"@.len() == 3);
    assert("f64"@.len() == 3);
    assert("str"@.len() == 3);
    assert("bool"@.len() == 4);
    assert("Vec"@.len() == 3);
    assert("Box"@.len() == 3);
    assert("Rc"@.len() == 2);
    assert("Arc"@.len() == 3);
    assert("Cow"@.len() == 3);
    assert("HashMap"@.len() == 7);
    assert("HashSet"@.len() == 7);
}

/// All numeric widths and signednesses collapse to the one target numeric
/// type: a named numeric reference translates exactly as the numeric
/// primitive does, whatever its arguments.
pub proof fn lemma_numeric_widths_collapse(t: TypeRef)
    requires
        t matches TypeRef::Named(name, args) && is_numeric_name(name@),
    ensures
        spec_translate(t) == spec_translate(TypeRef::Primitive(Prim::Number)),
        spec_translate(t) == "number"@,
{
    assert(spec_translate(TypeRef::Primitive(Prim::Number)) == "number"@);
    match t {
        TypeRef::Named(name, args) => {
            assert(spec_translate(t) == spec_named(name@, args@));
            assert(spec_named(name@, args@) == "number"@);
        },
        _ => {
        },
    }
}

/// A known optional reference is the nullable union of its first argument's
/// translation.
pub proof fn lemma_optional_nullable(o: TypeRef, t: TypeRef)
    requires
        o matches TypeRef::Named(name, args) && name@ == "Option"@ && args@.len() >= 1 && args@[0]
            == t,
    ensures
        spec_translate(o) == spec_translate(t) + " | null"@,
{
    lemma_option_name_facts();
    match o {
        TypeRef::Named(name, args) => {
            assert(spec_translate(o) == spec_named(name@, args@));
            assert(spec_named(name@, args@) == spec_translate(args@[0]) + " | null"@);
        },
        _ => {
        },
    }
}

/// Re-wrapping an optional appends one more `| null`: the union is
/// flattenable but never auto-flattened.
pub proof fn lemma_optional_rewrap(o2: TypeRef, o1: TypeRef, t: TypeRef)
    requires
        o2 matches TypeRef::Named(n2, a2) && n2@ == "Option"@ && a2@.len() >= 1 && a2@[0] == o1,
        o1 matches TypeRef::Named(n1, a1) && n1@ == "Option"@ && a1@.len() >= 1 && a1@[0] == t,
    ensures
        spec_translate(o2) == (spec_translate(t) + " | null"@) + " | null"@,
{
    lemma_optional_nullable(o2, o1);
    lemma_optional_nullable(o1, t);
}

/// An array reference is its element's translation followed by one array
/// suffix.
pub proof fn lemma_array_suffix(a: TypeRef, t: TypeRef)
    requires
        a matches TypeRef::Array(elem) && *elem == t,
    ensures
        spec_translate(a) == spec_translate(t) + "[]"@,
{
}

/// Array nesting is compositional: an array of arrays is the innermost
/// element's translation with two array suffixes.
pub proof fn lemma_array_nesting(a2: TypeRef, a1: TypeRef, t: TypeRef)
    requires
        a2 matches TypeRef::Array(e2) && *e2 == a1,
        a1 matches TypeRef::Array(e1) && *e1 == t,
    ensures
        spec_translate(a2) == spec_translate(t) + "[]"@ + "[]"@,
{
    lemma_array_suffix(a2, a1);
    lemma_array_suffix(a1, t);
}

/// Appending one more type to a joined list extends the join by one
/// separator and one translation.
pub proof fn lemma_join_types_push(ts: Seq<TypeRef>, t: TypeRef, sep: Seq<char>)
    ensures
        join_types(ts.push(t), sep) == if ts.len() == 0 {
            spec_translate(t)
        } else {
            (join_types(ts, sep) + sep + spec_translate(t))
        },
    decreases ts.len(),
{
    let p = ts.push(t);
    if ts.len() == 0 {
        assert(p.len() == 1);
        assert(p[0] == t);
    } else {
        assert(p.len() >= 2);
        assert(p[0] == ts[0]);
        assert(p.drop_first() =~= ts.drop_first().push(t));
        lemma_join_types_push(ts.drop_first(), t, sep);
    }
}

/// Appending one more name to a joined list extends the join by one
/// separator and one name.
pub proof fn lemma_join_names_push(ns: Seq<String>, n: String, sep: Seq<char>)
    ensures
        join_names(ns.push(n), sep) == if ns.len() == 0 {
            n@
        } else {
            (join_names(ns, sep) + sep + n@)
        },
    decreases ns.len(),
{
    let p = ns.push(n);
    if ns.len() == 0 {
        assert(p.len() == 1);
        assert(p[0] == n);
    } else {
        assert(p.len() >= 2);
        assert(p[0] == ns[0]);
        assert(p.drop_first() =~= ns.drop_first().push(n));
        lemma_join_names_push(ns.drop_first(), n, sep);
    }
}

/// Appends to `out` the translations of all of `ts`, joined by `sep`.
fn join_types_into(out: &mut String, ts: &Vec<TypeRef>, sep: &str)
    ensures
        final(out)@ == old(out)@ + join_types(ts@, sep@),
    decreases ts@, 0int,
{
    let ghost start = out@;
    let mut j: usize = 0;
    while j < ts.len()
        invariant
            j <= ts.len(),
            out@ == start + join_types(ts@.take(j as int), sep@),
        decreases ts.len() - j,
    {
        if j > 0 {
            out.append(sep);
        }
        let piece = translate(&ts[j]);
        out.append(piece.as_str());
        proof {
            lemma_join_types_push(ts@.take(j as int), ts@[j as int], sep@);
            assert(ts@.take(j + 1 as int) =~= ts@.take(j as int).push(ts@[j as int]));
        }
        j = j + 1;
    }
    proof {
        assert(ts@.take(ts@.len() as int) =~= ts@);
    }
}

/// The target type expression for a type reference, as text.
pub fn translate(t: &TypeRef) -> (r: String)
    ensures
        r@ == spec_translate(*t),
    decreases *t, 2int,
{
    match t {
        TypeRef::Primitive(p) => match p {
            Prim::Number => String::from_str("number"),
            Prim::Str => String::from_str("string"),
            Prim::Boolean => String::from_str("boolean"),
        },
        TypeRef::Array(elem) => {
            let mut r = translate(&**elem);
            r.append("[]");
            r
        },
        TypeRef::Tuple(ts) => {
            let mut r = String::from_str("[");
            join_types_into(&mut r, ts, ", ");
            r.append("]");
            r
        },
        TypeRef::Never => String::from_str("never"),
        TypeRef::Opaque => String::from_str("any"),
        TypeRef::TraitUnion(ns) => {
            let mut r = String::new();
            let mut j: usize = 0;
            while j < ns.len()
                invariant
                    j <= ns.len(),
                    r@ == join_names(ns@.take(j as int), " | "@),
                decreases ns.len() - j,
            {
                if j > 0 {
                    r.append(" | ");
                }
                r.append(ns[j].as_str());
                proof {
                    lemma_join_names_push(ns@.take(j as int), ns@[j as int], " | "@);
                    assert(ns@.take(j + 1 as int) =~= ns@.take(j as int).push(ns@[j as int]));
                }
                j = j + 1;
            }
            proof {
                assert(ns@.take(ns@.len() as int) =~= ns@);
            }
            r
        },
        TypeRef::Named(name, args) => translate_named(name, args),
    }
}

/// Resolves a path-based type reference against the built-in table, then
/// falls through to the generic passthrough.
fn translate_named(name: &String, args: &Vec<TypeRef>) -> (r: String)
    ensures
        r@ == spec_named(name@, args@),
    decreases args@, 1int,
{
    if is_numeric_name_exec(name) {
        String::from_str("number")
    } else if eq_lit(name, "String") || eq_lit(name, "str") {
        String::from_str("string")
    } else if eq_lit(name, "bool") {
        String::from_str("boolean")
    } else if eq_lit(name, "Vec") && args.len() >= 1 {
        let mut r = String::new();
        join_types_into(&mut r, args, " | ");
        r.append("[]");
        r
    } else if is_transparent_name_exec(name) && args.len() >= 1 {
        translate(&args[0])
    } else if eq_lit(name, "HashMap") && args.len() >= 2 {
        let mut r = String::from_str("Map<");
        let k = translate(&args[0]);
        r.append(k.as_str());
        r.append(", ");
        let v = translate(&args[1]);
        r.append(v.as_str());
        r.append(">");
        r
    } else if eq_lit(name, "HashSet") && args.len() >= 1 {
        let mut r = String::from_str("Set<");
        let k = translate(&args[0]);
        r.append(k.as_str());
        r.append(">");
        r
    } else if eq_lit(name, "Option") && args.len() >= 1 {
        let mut r = translate(&args[0]);
        r.append(" | null");
        r
    } else if eq_lit(name, "Result") && args.len() >= 2 {
        let mut r = translate(&args[0]);
        r.append(" | ");
        let v = translate(&args[1]);
        r.append(v.as_str());
        r
    } else if args.len() == 0 {
        name.clone()
    } else {
        let mut r = name.clone();
        r.append("<");
        join_types_into(&mut r, args, ", ");
        r.append(">");
        r
    }
}

/// Whether the name is one of the transparent wrapper spellings of the
/// built-in table.
fn is_transparent_name_exec(name: &String) -> (r: bool)
    ensures
        r == is_transparent_name(name@),
{
    eq_lit(name, "Box") || eq_lit(name, "Rc") || eq_lit(name, "Arc") || eq_lit(name, "Cow")
}

/// Whether the name is one of the numeric spellings of the built-in table.
fn is_numeric_name_exec(name: &String) -> (r: bool)
    ensures
        r == is_numeric_name(name@),
{
    eq_lit(name, "u8") || eq_lit(name, "u16") || eq_lit(name, "u32") || eq_lit(name, "u64")
        || eq_lit(name, "u128") || eq_lit(name, "usize") || eq_lit(name, "i8")
        || eq_lit(name, "i16") || eq_lit(name, "i32") || eq_lit(name, "i64")
        || eq_lit(name, "i128") || eq_lit(name, "isize") || eq_lit(name, "f32")
        || eq_lit(name, "f64")
}

} // verus!
