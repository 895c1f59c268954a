//! Glob-pattern matching of registry hostnames, done by the `globset`
//! crate behind a small trusted boundary.
//!
//! A pattern is parsed and compiled once into a one-pattern `GlobSet`
//! and texts are then tested against it. `GlobSet` is the fallible way
//! to compile: `GlobSetBuilder::build` returns an error where
//! `Glob::compile_matcher` would abort on an oversized pattern, and
//! `GlobSet::is_match` has no failure path. Both steps are deterministic
//! functions of the pattern (and text), so the contracts below name
//! their results: whether a pattern parses and compiles
//! ([`glob_pattern_ok`]), and whether a pattern matches a text
//! ([`glob_match`]). [`matcher_pattern`] names the one thing a compiled
//! matcher holds: the pattern it was built from.

use vstd::prelude::*;

verus! {

#[verifier::external_type_specification]
#[verifier::external_body]
pub struct ExGlobSet(globset::GlobSet);

/// Whether `globset` accepts this pattern (with default options): it
/// parses under `Glob::new` and its matcher compiles under
/// `GlobSetBuilder::build`.
pub uninterp spec fn glob_pattern_ok(pattern: Seq<char>) -> bool;

/// Whether the matcher compiled from `pattern` matches `text`.
pub uninterp spec fn glob_match(pattern: Seq<char>, text: Seq<char>) -> bool;

/// The pattern the one-pattern `globset::GlobSet` was compiled from.
pub uninterp spec fn matcher_pattern(m: globset::GlobSet) -> Seq<char>;

/// Relies on `globset::Glob::new` and `globset::GlobSetBuilder::build`:
/// each returns an error rather than aborting (parse errors from the
/// former, oversized compiled patterns from the latter), and both are
/// deterministic functions of the pattern.
#[verifier::external_body]
pub fn glob_compile(pattern: &str) -> (r: Option<globset::GlobSet>)
    ensures
        r is Some <==> glob_pattern_ok(pattern@),
        r matches Some(m) ==> matcher_pattern(m) == pattern@,
{
    let glob = match globset::Glob::new(pattern) {
        Ok(g) => g,
        Err(_) => return None,
    };
    let mut builder = globset::GlobSetBuilder::new();
    builder.add(glob);
    builder.build().ok()
}

/// Relies on `globset::GlobSet::is_match`: for a set holding one
/// pattern it reports whether that pattern matches the text, a
/// deterministic function of the two, with no failure path.
#[verifier::external_body]
pub fn glob_is_match(m: &globset::GlobSet, text: &str) -> (r: bool)
    ensures
        r == glob_match(matcher_pattern(*m), text@),
{
    m.is_match(text)
}

} // verus!
