//! Regex-backed search output for `grep`.
//!
//! The toolkit's `grep` compiles the pattern and prints the debug
//! rendering of the capture iterator over the file contents. Compiling
//! is a pure function of the pattern, so success is named exactly; the
//! rendering itself shows internal engine state (among it a cache-pool
//! owner id picked at run time), so nothing is promised of the text
//! beyond when it is produced.

use vstd::prelude::*;

verus! {

/// Whether `regex::Regex::new` accepts the pattern; compilation depends
/// on the pattern characters alone.
pub uninterp spec fn pattern_compiles(pattern: Seq<char>) -> bool;

#[verifier::external_type_specification]
#[verifier::external_body]
pub struct ExRegexError(regex::Error);

/// Relies on regex::Regex::new, which returns `Ok` exactly when the
/// pattern is a valid regex (a function of the pattern alone), and on
/// Regex::captures_iter, whose debug rendering is the raw match-capture
/// output the toolkit prints.
#[verifier::external_body]
fn regex_captures_debug(pattern: &str, contents: &str) -> (r: Result<String, regex::Error>)
    ensures
        (r is Ok) == pattern_compiles(pattern@),
{
    match regex::Regex::new(pattern) {
        Ok(re) => Ok(format!("{:#?}", re.captures_iter(contents))),
        Err(e) => Err(e),
    }
}

/// Why `grep` failed: the pattern did not compile; the underlying regex
/// error is kept for the caller's message.
#[derive(Debug)]
pub enum GrepError {
    InvalidPattern(regex::Error),
}

/// What `grep` prints: the debug rendering of the pattern's capture
/// iterator over the contents. Returns `Ok` exactly when the pattern
/// compiles, and the compile error otherwise; a caller treats the error
/// as fatal.
pub fn grep_output(pattern: &str, contents: &str) -> (r: Result<String, GrepError>)
    ensures
        (r is Ok) == pattern_compiles(pattern@),
        r matches Err(e) ==> e is InvalidPattern,
{
    match regex_captures_debug(pattern, contents) {
        Ok(s) => Ok(s),
        Err(e) => Err(GrepError::InvalidPattern(e)),
    }
}

} // verus!
