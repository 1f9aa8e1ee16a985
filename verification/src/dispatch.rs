//! Request dispatch: lookup, input bounding, and response shaping.
//!
//! One request carries a contract name and an optional raw body.
//! [`prepare`] decides what to do with it: report the contract unknown,
//! reject a body the engine cannot take, or hand back the exact engine
//! invocation — script, key material, and the body text cut at the input
//! cap.  The engine itself is an external collaborator the surrounding
//! process calls; [`shape_response`] then turns the engine's outcome into
//! the fixed JSON response document.

use vstd::prelude::*;
use vstd::utf8::valid_utf8;

use crate::input::bound_body;
use crate::input::bounded_input;
use crate::input::has_nul;
use crate::input::nul_free;
use crate::input::spec_body;
use crate::registry::lookup;
use crate::registry::Registry;

verus! {

/// Why a request whose contract was found still fails with an internal
/// error, never reaching a normal response.
#[derive(Debug)]
pub enum RequestError {
    /// The bounded body bytes are not valid UTF-8 text.
    NotText,
    /// The bounded body holds an embedded NUL byte, which the engine's
    /// string representation cannot carry.
    EmbeddedNul,
    /// The engine's output text is not parseable structured data.
    UnparsableOutput,
}

/// The dispatch decision for one request, taken before the engine runs.
pub enum Prep {
    /// No contract of that name is registered: the not-found outcome, not an
    /// error.
    NotFound,
    /// The contract exists but the request body cannot be handed to the
    /// engine.
    Invalid(RequestError),
    /// Invoke the engine with this script, this key material, and this
    /// input text.
    Run { script: Vec<u8>, keys: Vec<u8>, input: Vec<u8> },
}

/// Turns one request — a contract name and an optional raw body — into the
/// dispatch decision.  The contract is looked up by name; the body is cut at
/// [`crate::input::BODY_CAP`] bytes and must then be NUL-free UTF-8 text.
/// The decision is exact: unknown name, bad input with its reason, or the
/// invocation carrying the contract's bytes and the bounded text.
pub fn prepare(registry: &Registry, name: &String, body: Option<Vec<u8>>) -> (r: Prep)
    ensures
        match r {
            Prep::NotFound => lookup(registry@, name@) is None,
            Prep::Invalid(e) => lookup(registry@, name@) is Some && {
                let text = bounded_input(spec_body(body));
                match e {
                    RequestError::NotText => !valid_utf8(text),
                    RequestError::EmbeddedNul => valid_utf8(text) && !nul_free(text),
                    RequestError::UnparsableOutput => false,
                }
            },
            Prep::Run { script, keys, input } => {
                let text = bounded_input(spec_body(body));
                &&& lookup(registry@, name@) == Option::Some((script@, keys@))
                &&& input@ == text
                &&& valid_utf8(text)
                &&& nul_free(text)
            },
        },
{
    let c = match registry.get(name) {
        Option::None => {
            return Prep::NotFound;
        },
        Option::Some(c) => c,
    };
    let input = bound_body(body);
    if !utf8_ok(input.as_slice()) {
        return Prep::Invalid(RequestError::NotText);
    }
    if has_nul(&input) {
        return Prep::Invalid(RequestError::EmbeddedNul);
    }
    Prep::Run {
        script: crate::input::clone_bytes(&c.script),
        keys: crate::input::clone_bytes(&c.keys),
        input,
    }
}

/// Whether a text parses as structured JSON data — the success of
/// `json::parse`, a function of the text alone.
pub uninterp spec fn json_ok(s: Seq<char>) -> bool;

/// The response document rendered for a given `ret` flag, engine output text
/// and log text: the pretty-printed JSON object holding `ret`, the parsed
/// output under `out`, and the logs under `err`, in that order with
/// four-space indent.  A function of the three values alone: the json crate
/// parses and serializes deterministically.
pub uninterp spec fn response_doc(ret: u64, output: Seq<char>, logs: Seq<char>) -> Seq<char>;

/// Shapes the engine's outcome as the response document: `ret` is 1 on
/// engine-reported success and 0 otherwise, `out` is the parsed structured
/// value of the engine's output text, `err` is the raw log text, and the
/// document is serialized as pretty-printed JSON with four-space indent and
/// that field order — [`response_doc`] of exactly those three values.  It
/// fails exactly when the output text is not well-formed JSON; an
/// engine-reported failure is a normal response, only `ret` reflects it.
pub fn shape_response(succeeded: bool, output: &str, logs: &str) -> (r: Result<
    String,
    RequestError,
>)
    ensures
        r is Ok <==> json_ok(output@),
        r matches Ok(doc) ==> doc@ == response_doc(
            if succeeded { 1u64 } else { 0u64 },
            output@,
            logs@,
        ),
        r matches Err(e) ==> e == RequestError::UnparsableOutput,
{
    let ret_val: u64 = if succeeded {
        1
    } else {
        0
    };
    match render_response(ret_val, output, logs) {
        Option::Some(doc) => Result::Ok(doc),
        Option::None => Result::Err(RequestError::UnparsableOutput),
    }
}

/// Relies on std's `str::from_utf8`: it accepts a byte slice exactly when
/// the bytes are valid UTF-8.
#[verifier::external_body]
fn utf8_ok(bytes: &[u8]) -> (r: bool)
    ensures
        r == valid_utf8(bytes@),
{
    std::str::from_utf8(bytes).is_ok()
}

/// Relies on `json::parse`, `json::object::Object::{new, insert}` and
/// `json::stringify_pretty` of json 0.12: parses the engine output — `None`
/// exactly when it is not well-formed JSON — and renders the fixed
/// ret/out/err document with four-space indent.  Every step is a function of
/// the arguments alone, so the document is [`response_doc`] of them.
#[verifier::external_body]
fn render_response(ret: u64, output: &str, logs: &str) -> (r: Option<String>)
    ensures
        r is Some <==> json_ok(output@),
        r matches Some(doc) ==> doc@ == response_doc(ret, output@, logs@),
{
    let out = match json::parse(output) {
        Ok(v) => v,
        Err(_) => return None,
    };
    let mut doc = json::object::Object::new();
    doc.insert("ret", json::JsonValue::from(ret));
    doc.insert("out", out);
    doc.insert("err", json::JsonValue::from(logs));
    Some(json::stringify_pretty(doc, 4))
}

} // verus!
