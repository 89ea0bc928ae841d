//! The template registry and renderer, an external collaborator: it accepts a
//! named template source and a string-to-value context, and returns rendered
//! text or a render error. The registry's contents are modelled as a mapping
//! from template name to source text.
use vstd::prelude::*;

use crate::context::Variables;

verus! {

#[verifier::external_type_specification]
#[verifier::external_body]
pub struct ExTera(tera::Tera);

#[verifier::external_type_specification]
#[verifier::external_body]
pub struct ExTeraError(tera::Error);

/// The registry's contents: which template sources it holds, by name.
pub uninterp spec fn templates_of(t: tera::Tera) -> Map<Seq<char>, Seq<char>>;

/// Whether the engine accepts `source` registered under `name` into a
/// registry holding `templates`: the source must parse, and the inheritance
/// chains and macro imports of the resulting registry must resolve. All of
/// that is decided by the registry's contents, the name and the source
/// alone.
pub uninterp spec fn tera_accepts(
    templates: Map<Seq<char>, Seq<char>>,
    name: Seq<char>,
    source: Seq<char>,
) -> bool;

/// Relies on `tera::Tera::default` starting with no registered templates.
#[verifier::external_body]
pub(crate) fn tera_new() -> (t: tera::Tera)
    ensures
        templates_of(t).dom() == Set::<Seq<char>>::empty(),
{
    tera::Tera::default()
}

/// Relies on `tera::Tera::add_raw_template`: whether registration succeeds
/// is decided by the registry's contents, the name and the source alone (the
/// source is parsed, then the registry's inheritance chains and macro
/// imports are re-checked). On success the source is registered under the
/// name; a source that fails to parse is not registered, though a failure
/// after insertion (a broken inheritance chain) can leave the new entry in
/// place.
#[verifier::external_body]
pub(crate) fn tera_add_template(t: &mut tera::Tera, name: &str, source: &str) -> (r: Result<
    (),
    tera::Error,
>)
    ensures
        r is Ok <==> tera_accepts(templates_of(*old(t)), name@, source@),
        r is Ok ==> templates_of(*final(t)) == templates_of(*old(t)).insert(name@, source@),
        r is Err ==> templates_of(*final(t)) == templates_of(*old(t)) || templates_of(*final(t))
            == templates_of(*old(t)).insert(name@, source@),
{
    t.add_raw_template(name, source)
}

/// Relies on `tera::Tera::render` returning an error for a template name that
/// is not registered; the registry itself is not changed by rendering.
#[verifier::external_body]
pub(crate) fn tera_render(t: &tera::Tera, name: &str, vars: &Variables) -> (r: Result<
    String,
    tera::Error,
>)
    ensures
        !templates_of(*t).dom().contains(name@) ==> r is Err,
{
    let mut ctx = tera::Context::new();
    for (k, v) in vars.pairs.iter() {
        if let Err(e) = ctx.try_insert(k.as_str(), v) {
            return Err(e);
        }
    }
    t.render(name, &ctx)
}

} // verus!
