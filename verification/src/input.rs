//! Bounding and validation of request-body input.
//!
//! The execution engine receives the request body as a C-string-compatible
//! text buffer.  Three constraints follow: the body is read up to a hard cap
//! of 2 MiB (anything beyond is discarded, not an error), the bytes kept must
//! be valid UTF-8, and they must be free of embedded NUL bytes.

use vstd::prelude::*;

verus! {

/// Hard cap on the number of request-body bytes handed to the engine.
pub const BODY_CAP: usize = 2 * 1024 * 1024;

/// A byte sequence the engine's string representation can carry: no embedded
/// NUL byte.
pub open spec fn nul_free(b: Seq<u8>) -> bool {
    forall|i: int| 0 <= i < b.len() ==> b[i] != 0u8
}

/// The input text the engine receives for a given optional request body:
/// empty when no body is present, otherwise the body cut at [`BODY_CAP`].
pub open spec fn bounded_input(body: Option<Seq<u8>>) -> Seq<u8> {
    match body {
        Option::None => Seq::<u8>::empty(),
        Option::Some(b) => if b.len() <= BODY_CAP { b } else { b.take(BODY_CAP as int) },
    }
}

/// Whether a byte vector holds an embedded NUL byte; decides `nul_free`.
pub fn has_nul(b: &Vec<u8>) -> (r: bool)
    ensures
        r == !nul_free(b@),
{
    let mut i: usize = 0;
    while i < b.len()
        invariant
            0 <= i <= b@.len(),
            forall|j: int| 0 <= j < i ==> b@[j] != 0u8,
        decreases b@.len() - i,
    {
        if b[i] == 0 {
            return true;
        }
        i = i + 1;
    }
    false
}

/// Cuts an optional request body down to the engine's input text:
/// empty for an absent body, at most [`BODY_CAP`] bytes otherwise.
pub fn bound_body(body: Option<Vec<u8>>) -> (r: Vec<u8>)
    ensures
        r@ == bounded_input(spec_body(body)),
{
    match body {
        Option::None => Vec::new(),
        Option::Some(mut b) => {
            if b.len() > BODY_CAP {
                b.truncate(BODY_CAP);
            }
            b
        },
    }
}

/// A copy of a byte vector, equal to its source.
pub fn clone_bytes(v: &Vec<u8>) -> (r: Vec<u8>)
    ensures
        r@ == v@,
{
    let mut r: Vec<u8> = Vec::new();
    let mut i: usize = 0;
    while i < v.len()
        invariant
            0 <= i <= v@.len(),
            r@ == v@.take(i as int),
        decreases v@.len() - i,
    {
        r.push(v[i]);
        proof {
            assert(r@ =~= v@.take(i as int + 1));
        }
        i = i + 1;
    }
    proof {
        assert(v@.take(v@.len() as int) =~= v@);
    }
    r
}

/// The mathematical value of an optional body vector.
pub open spec fn spec_body(body: Option<Vec<u8>>) -> Option<Seq<u8>> {
    match body {
        Option::None => Option::None,
        Option::Some(b) => Option::Some(b@),
    }
}

/// Law: the engine input for an oversized body is cut to exactly
/// [`BODY_CAP`] bytes — the body's first [`BODY_CAP`] bytes, nothing else;
/// a body at or under the cap passes unchanged.
pub proof fn lemma_body_cut_at_cap(b: Seq<u8>)
    ensures
        b.len() > BODY_CAP ==> bounded_input(Option::Some(b)).len() == BODY_CAP,
        b.len() > BODY_CAP ==> forall|i: int| 0 <= i < BODY_CAP ==> bounded_input(
            Option::Some(b),
        )[i] == b[i],
        b.len() <= BODY_CAP ==> bounded_input(Option::Some(b)) == b,
{
}

} // verus!
