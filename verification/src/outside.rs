//! What this crate takes on trust from the code it calls: `regex`, `memchr`
//! and the UTF-8 check of the standard library. Nothing here is proved.

use vstd::prelude::*;
use vstd::string::*;
use vstd::utf8::*;

verus! {

/// `regex::Regex`, a compiled regular expression; nothing is known of what
/// is inside.
#[verifier::external_type_specification]
#[verifier::external_body]
pub struct ExRegex(regex::Regex);

/// `regex::Error`, the reason why a pattern did not compile.
#[verifier::external_type_specification]
#[verifier::external_body]
pub struct ExRegexError(regex::Error);

/// `core::str::Utf8Error`, the place where bytes stop being UTF-8.
#[verifier::external_type_specification]
#[verifier::external_body]
pub struct ExUtf8Error(core::str::Utf8Error);

/// Whether `regex::Regex::new` accepts the pattern.
pub uninterp spec fn pattern_compiles(pattern: Seq<char>) -> bool;

/// The pattern text that a compiled expression was made from, as
/// `regex::Regex::as_str` gives it.
pub uninterp spec fn regex_source(re: regex::Regex) -> Seq<char>;

/// Whether a compiled expression matches somewhere in `haystack`, as
/// `regex::Regex::is_match` answers.
pub uninterp spec fn regex_matches(re: regex::Regex, haystack: Seq<char>) -> bool;

/// `regex::Regex::new` compiles a pattern. Whether it succeeds depends on the
/// pattern alone, and the compiled expression keeps the pattern text it was
/// made from.
pub assume_specification[ regex::Regex::new ](re: &str) -> (r: Result<regex::Regex, regex::Error>)
    ensures
        r is Ok <==> pattern_compiles(re@),
        r matches Ok(compiled) ==> regex_source(compiled) == re@,
;

/// `regex::Regex::as_str` returns the pattern text that the expression was
/// compiled from.
pub assume_specification[ regex::Regex::as_str ](re: &regex::Regex) -> (s: &str)
    ensures
        s@ == regex_source(*re),
;

/// `regex::Regex::is_match` says whether the expression matches anywhere in
/// the haystack. The answer depends on the expression and the haystack alone.
pub assume_specification[ regex::Regex::is_match ](re: &regex::Regex, haystack: &str) -> (b: bool)
    ensures
        b == regex_matches(*re, haystack@),
;

/// `memchr::memchr` returns the index of the first occurrence of `needle` in
/// `haystack`, or `None` where the byte does not occur.
pub assume_specification[ memchr::memchr ](needle: u8, haystack: &[u8]) -> (r: Option<usize>)
    ensures
        match r {
            Some(i) => {
                &&& i < haystack@.len()
                &&& haystack@[i as int] == needle
                &&& forall|j: int| 0 <= j < i ==> haystack@[j] != needle
            },
            None => forall|j: int| 0 <= j < haystack@.len() ==> haystack@[j] != needle,
        },
;

/// `core::str::from_utf8` succeeds exactly on well-formed UTF-8, and the text
/// it returns is the given bytes, unchanged.
pub assume_specification[ core::str::from_utf8 ](v: &[u8]) -> (r: Result<&str, core::str::Utf8Error>)
    ensures
        r is Ok <==> valid_utf8(v@),
        r matches Ok(s) ==> s.spec_bytes() == v@,
;

} // verus!
