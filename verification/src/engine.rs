//! The template engine: rendering a named template with a document, and the
//! filters that the engine is given.

use vstd::prelude::*;
use std::collections::HashMap;
use crate::document::{Document, Node};
use crate::filters::{
    nindent_filter, nindent_result, nindent_text, stripped, yaml_encode_filter, yaml_text,
    FilterError,
};
use vstd::std_specs::hash::{contains_borrowed_key, maps_borrowed_key_to_value, obeys_key_model};
use crate::json::json_content;

verus! {

/// The template engine `tera::Tera`, with the templates and filters that it
/// holds. Nothing of its inside is known here.
#[verifier::external_type_specification]
#[verifier::external_body]
pub struct ExTera(tera::Tera);

/// The bindings `tera::Context` that a template is rendered with. Nothing of
/// its inside is known here.
#[verifier::external_type_specification]
#[verifier::external_body]
pub struct ExContext(tera::Context);

/// The error `tera::Error` of the template engine. Nothing of its inside is
/// known here.
#[verifier::external_type_specification]
#[verifier::external_body]
pub struct ExEngineError(tera::Error);

/// The names of the templates that an engine holds.
pub uninterp spec fn engine_templates(engine: tera::Tera) -> Set<Seq<char>>;

/// The names of the filters that an engine holds.
pub uninterp spec fn engine_filters(engine: tera::Tera) -> Set<Seq<char>>;

/// Why the template engine rendered nothing: its own message, and the
/// message of the error underneath where there is one.
#[derive(Debug)]
pub struct RenderFailure {
    pub message: String,
    pub source: Option<String>,
}

/// Calls `tera::Context::from_value`. Trusted: a context is made exactly
/// where the JSON value holds a table.
#[verifier::external_body]
fn context_from_value(j: serde_json::Value) -> (r: Result<tera::Context, tera::Error>)
    ensures
        r is Ok <==> json_content(j) is Table,
{
    tera::Context::from_value(j)
}

/// Calls `tera::Tera::render`. Trusted: it looks the template up by its
/// name first, and fails where the engine holds no template of that name.
/// Nothing is claimed of what it gives for a template that the engine
/// holds.
#[verifier::external_body]
fn engine_render(engine: &tera::Tera, template_name: &str, context: &tera::Context) -> (r: Result<
    String,
    tera::Error,
>)
    ensures
        !engine_templates(*engine).contains(template_name@) ==> r is Err,
{
    engine.render(template_name, context)
}

/// Formats a `tera::Error` with its `Display`.
#[verifier::external_body]
fn error_message(e: &tera::Error) -> (r: String) {
    format!("{}", e)
}

/// Calls `std::error::Error::source` on a `tera::Error` and formats what is
/// underneath, if anything is, with its alternate `Display`.
#[verifier::external_body]
fn error_source(e: &tera::Error) -> (r: Option<String>) {
    std::error::Error::source(e).map(|source| format!("{:#}", source))
}

/// Calls `tera::Error::msg` for a message.
#[verifier::external_body]
fn engine_error(message: &str) -> (r: tera::Error) {
    tera::Error::msg(message)
}

/// The failure that carries what the engine said of an error: its message,
/// and the message of the error underneath where there is one.
fn failure_of(message: String, source: Option<String>) -> (r: RenderFailure)
    ensures
        r.message == message,
        r.source == source,
{
    RenderFailure { message, source }
}

/// Renders the template `template_name` with a document. A document that is
/// no table is refused, with the message of the engine and nothing
/// underneath; so is a template that the engine does not hold. Whether the
/// engine renders a template that it holds with a table is for the engine
/// to say.
pub(crate) fn render(engine: &tera::Tera, template_name: &str, document: &Node) -> (r: Result<
    String,
    RenderFailure,
>)
    ensures
        !(document@ is Table) ==> r is Err && r->Err_0.source is None,
        !engine_templates(*engine).contains(template_name@) ==> r is Err,
{
    let context = match context_from_value(document.to_json()) {
        Ok(context) => context,
        Err(e) => {
            return Err(failure_of(error_message(&e), None));
        },
    };
    match engine_render(engine, template_name, &context) {
        Ok(text) => Ok(text),
        Err(e) => Err(failure_of(error_message(&e), error_source(&e))),
    }
}

/// The filter `yaml_encode` as the engine calls it. It takes no argument.
pub fn yaml_encode_for_engine(
    value: &serde_json::Value,
    args: &HashMap<String, serde_json::Value>,
) -> (r: Result<serde_json::Value, tera::Error>)
    ensures
        match yaml_text(json_content(*value)) {
            Some(text) => r is Ok && json_content(r->Ok_0) == Document::Text(stripped(text)),
            None => r is Err,
        },
{
    match yaml_encode_filter(value) {
        Ok(encoded) => Ok(encoded),
        Err(cause) => Err(engine_error(cause.as_str())),
    }
}

/// True where a filter gave what was to be given: the document, or a
/// failure.
pub open spec fn filter_gave(
    expected: Result<Document, FilterError>,
    r: Result<serde_json::Value, tera::Error>,
) -> bool {
    match expected {
        Ok(document) => r is Ok && json_content(r->Ok_0) == document,
        Err(_) => r is Err,
    }
}

/// True where a call of the filter `nindent` with the arguments `args` gave
/// what `nindent_result` says for the value and for what `args` holds under
/// `spaces`: for nothing, where `args` has no such key.
pub open spec fn nindent_gave(
    value: serde_json::Value,
    args: Map<String, serde_json::Value>,
    r: Result<serde_json::Value, tera::Error>,
) -> bool {
    ||| !contains_borrowed_key::<String, serde_json::Value, str>(args, "spaces") && filter_gave(
        nindent_result(json_content(value), None),
        r,
    )
    ||| exists|spaces: serde_json::Value| #[trigger]
        maps_borrowed_key_to_value::<String, serde_json::Value, str>(args, "spaces", spaces)
            && filter_gave(nindent_result(json_content(value), Some(json_content(spaces))), r)
}

/// The filter `nindent` as the engine calls it, with the argument `spaces`
/// among `args`. What it gives is what `nindent_filter` gives for the value
/// and for what `args` holds under `spaces`. What a hash map holds under a
/// borrowed key is known only where its keys obey the model of a hash-map
/// key, which is not established for `String`: the last clause holds under
/// that condition.
pub fn nindent_for_engine(
    value: &serde_json::Value,
    args: &HashMap<String, serde_json::Value>,
) -> (r: Result<serde_json::Value, tera::Error>)
    ensures
        !(json_content(*value) is Text) ==> r is Err,
        r is Ok ==> exists|spaces: nat|
            json_content(r->Ok_0) == Document::Text(
                #[trigger] nindent_text(json_content(*value)->Text_0, spaces),
            ),
        obeys_key_model::<String>() ==> nindent_gave(*value, args@, r),
{
    broadcast use vstd::std_specs::hash::axiom_random_state_builds_valid_hashers;

    let spaces = args.get("spaces");
    let r = match nindent_filter(value, spaces) {
        Ok(indented) => Ok(indented),
        Err(e) => Err(engine_error(e.message().as_str())),
    };
    proof {
        if obeys_key_model::<String>() {
            match spaces {
                Some(given) => {
                    assert(maps_borrowed_key_to_value::<String, serde_json::Value, str>(
                        args@,
                        "spaces",
                        *given,
                    ));
                },
                None => {},
            }
        }
    }
    r
}

/// Calls `tera::Tera::register_filter` for each of the two filters, under
/// the given names. Trusted: the engine holds a filter under each of the two
/// names afterwards, besides the filters that it held, and the templates
/// that it held.
#[verifier::external_body]
fn register_filters(engine: &mut tera::Tera, yaml_encode: &str, nindent: &str)
    ensures
        engine_filters(*final(engine)) == engine_filters(*old(engine)).insert(yaml_encode@).insert(
            nindent@,
        ),
        engine_templates(*final(engine)) == engine_templates(*old(engine)),
{
    engine.register_filter(yaml_encode, yaml_encode_for_engine);
    engine.register_filter(nindent, nindent_for_engine);
}

/// Gives the engine the filters `yaml_encode` and `nindent`: it holds them
/// afterwards, besides the filters and the templates that it held.
pub(crate) fn with_filters(engine: tera::Tera) -> (r: tera::Tera)
    ensures
        engine_filters(r) == engine_filters(engine).insert("yaml_encode"@).insert("nindent"@),
        engine_templates(r) == engine_templates(engine),
{
    let mut engine = engine;
    register_filters(&mut engine, "yaml_encode", "nindent");
    engine
}

} // verus!
