//! A type-schema translator: maps a statically-typed object model (structs
//! and enums with resolved field and variant names, and an enum tagging
//! configuration) to a textual type-algebra expression of a structural
//! target language (unions, discriminated unions, generics, arrays, maps,
//! nullability), mirroring how a serialization layer encodes the type on
//! the wire. A text-normalization pass turns raw expression text into a
//! canonical compact form or a whitespace-stable debug form.

pub mod model;
pub mod normalize;
pub mod schema;
mod text;
pub mod translate;

use vstd::prelude::*;
use crate::model::{ConfigError, Container};
use crate::normalize::{debug_patch_spec, normalize_canonical, normalize_debug, patch_spec};
use crate::schema::{container_has_collision, resolved_tag, spec_collision_variant,
    spec_translate_container, translate_container};

verus! {

/// The canonical type expression for a container: the raw expression text
/// in canonical normal form. Fails exactly on a tag/field-name collision,
/// naming the container and its first colliding variant.
pub fn type_expression(c: &Container) -> (r: Result<String, ConfigError>)
    ensures
        r is Err <==> container_has_collision(*c),
        r is Ok ==> r->Ok_0@ == patch_spec(spec_translate_container(*c)),
        r is Err ==> r->Err_0.tag@ == resolved_tag(c.tag) && r->Err_0.container@ == c.name@
            && r->Err_0.variant@ == spec_collision_variant(*c),
{
    match translate_container(c) {
        Ok(raw) => Ok(normalize_canonical(raw.as_str())),
        Err(e) => Err(e),
    }
}

/// The debug form of the container's type expression: the same raw text in
/// the whitespace-stable normal form, for human comparison.
pub fn type_expression_debug(c: &Container) -> (r: Result<String, ConfigError>)
    ensures
        r is Err <==> container_has_collision(*c),
        r is Ok ==> r->Ok_0@ == debug_patch_spec(spec_translate_container(*c)),
        r is Err ==> r->Err_0.tag@ == resolved_tag(c.tag) && r->Err_0.container@ == c.name@
            && r->Err_0.variant@ == spec_collision_variant(*c),
{
    match translate_container(c) {
        Ok(raw) => Ok(normalize_debug(raw.as_str())),
        Err(e) => Err(e),
    }
}

/// The exported named declaration wrapping the canonical expression.
pub fn export_declaration(c: &Container) -> (r: Result<String, ConfigError>)
    ensures
        r is Err <==> container_has_collision(*c),
        r is Ok ==> r->Ok_0@ == "export type "@ + c.name@ + " = "@ + patch_spec(
            spec_translate_container(*c),
        ) + ";"@,
        r is Err ==> r->Err_0.tag@ == resolved_tag(c.tag) && r->Err_0.container@ == c.name@
            && r->Err_0.variant@ == spec_collision_variant(*c),
{
    match type_expression(c) {
        Ok(expr) => {
            let mut r = String::from_str("export type ");
            r.append(c.name.as_str());
            r.append(" = ");
            r.append(expr.as_str());
            r.append(";");
            Ok(r)
        },
        Err(e) => Err(e),
    }
}

/// The wildcard lifetime markers for `n` lifetime parameters, joined by
/// commas.
pub open spec fn spec_wildcards(n: nat) -> Seq<char>
    decreases n,
{
    if n == 0 {
        Seq::<char>::empty()
    } else if n == 1 {
        "'_"@
    } else {
        "'_"@ + ", "@ + spec_wildcards((n - 1) as nat)
    }
}

/// The container's own type as text: its name, with every generic lifetime
/// parameter erased to a wildcard marker. Lifetimes never influence the
/// expression text itself.
pub open spec fn spec_self_type(c: Container) -> Seq<char> {
    if c.lifetimes@.len() == 0 {
        c.name@
    } else {
        c.name@ + "<"@ + spec_wildcards(c.lifetimes@.len()) + ">"@
    }
}

/// Adding one more lifetime appends one more wildcard marker.
proof fn lemma_wildcards_snoc(n: nat)
    ensures
        spec_wildcards((n + 1) as nat) == if n == 0 {
            "'_"@
        } else {
            (spec_wildcards(n) + ", "@ + "'_"@)
        },
    decreases n,
{
    if n == 0 {
    } else {
        lemma_wildcards_snoc((n - 1) as nat);
        if n == 1 {
            assert(spec_wildcards(2) == "'_"@ + ", "@ + spec_wildcards(1));
        } else {
            assert(spec_wildcards((n + 1) as nat) == "'_"@ + ", "@ + spec_wildcards(n));
            assert(spec_wildcards(n) == "'_"@ + ", "@ + spec_wildcards((n - 1) as nat));
            assert("'_"@ + ", "@ + (spec_wildcards((n - 1) as nat) + ", "@ + "'_"@) =~= ("'_"@
                + ", "@ + spec_wildcards((n - 1) as nat)) + ", "@ + "'_"@);
        }
    }
}

/// The container's own type as text, lifetimes erased to wildcards.
pub fn self_type_text(c: &Container) -> (r: String)
    ensures
        r@ == spec_self_type(*c),
{
    if c.lifetimes.len() == 0 {
        c.name.clone()
    } else {
        let mut r = c.name.clone();
        r.append("<");
        let n = c.lifetimes.len();
        let mut j: usize = 0;
        while j < n
            invariant
                j <= n,
                n == c.lifetimes@.len(),
                r@ == c.name@ + "<"@ + spec_wildcards(j as nat),
            decreases n - j,
        {
            if j > 0 {
                r.append(", ");
            }
            r.append("'_");
            proof {
                lemma_wildcards_snoc(j as nat);
            }
            j = j + 1;
        }
        r.append(">");
        r
    }
}

} // verus!
