//! Re-parse checks over recorded names and type expressions.
//!
//! Registry records carry method names, argument names and type expressions
//! as opaque strings that are later re-spliced into generated code, so both
//! the extractor and the synthesizer insist that every such string still
//! parses as what it claims to be.  What exactly parses is decided by the
//! host-language parser; the library only names the outcome.

use vstd::prelude::*;

verus! {

/// Whether `s` parses as a standalone identifier of the host language.
pub uninterp spec fn parses_as_ident(s: Seq<char>) -> bool;

/// Whether `s` parses as a type expression of the host language.
pub uninterp spec fn parses_as_type(s: Seq<char>) -> bool;

/// Relies on `syn::parse_str::<syn::Ident>`: accepts exactly the standalone
/// Rust identifiers (keywords are rejected), and the outcome is a function
/// of the characters of `s` alone.
#[verifier::external_body]
pub(crate) fn check_ident(s: &str) -> (r: bool)
    ensures
        r == parses_as_ident(s@),
{
    syn::parse_str::<syn::Ident>(s).is_ok()
}

/// Relies on `syn::parse_str::<syn::Type>`: accepts exactly the strings
/// that parse as a Rust type, and the outcome is a function of the
/// characters of `s` alone.
#[verifier::external_body]
pub(crate) fn check_type(s: &str) -> (r: bool)
    ensures
        r == parses_as_type(s@),
{
    syn::parse_str::<syn::Type>(s).is_ok()
}

} // verus!
