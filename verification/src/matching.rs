//! Calls into the `regex` crate, which performs the two text rewrites of the
//! naming rules: removing a credit such as "featuring ..." and removing the
//! characters a clean name may not hold.

use vstd::prelude::*;

use crate::text::{cut_credit, keep_allowed};

verus! {

#[verifier::external_type_specification]
#[verifier::external_body]
pub struct ExRegexError(regex::Error);

/// The pattern that matches one character a clean name may not hold.
pub open spec fn disallowed_chars_pattern() -> Seq<char> {
    "[^a-zA-Z0-9\\-_ &]"@
}

/// The credit keyword that a credit pattern starts with, for the four credit
/// patterns of the naming rules: each matches its keyword and the rest of the
/// line after it.
pub open spec fn credit_keyword_of(pattern: Seq<char>) -> Option<Seq<char>> {
    if pattern == "featuring(.*)"@ {
        Some("featuring"@)
    } else if pattern == "feat\\.(.*)"@ {
        Some("feat."@)
    } else if pattern == " ft (.*)"@ {
        Some(" ft "@)
    } else if pattern == " ft\\.(.*)"@ {
        Some(" ft."@)
    } else {
        None
    }
}

/// What `regex::Regex::replace_all` gives back for a pattern, a text and a
/// replacement.
pub uninterp spec fn regex_replace_all_result(pattern: Seq<char>, text: Seq<char>, rep: Seq<char>) -> Seq<char>;

/// What `regex::Regex::replace` gives back for a pattern built with the given
/// case sensitivity, a text and a replacement.
pub uninterp spec fn regex_replace_first_result(
    pattern: Seq<char>,
    case_insensitive: bool,
    text: Seq<char>,
    rep: Seq<char>,
) -> Seq<char>;

/// Trusted: compiles `pattern` with `regex::Regex::new` and replaces every
/// non-overlapping match in `text` by `rep` with `Regex::replace_all`.
/// Claimed: an `Ok` result is the named result of these arguments; for the
/// negated class `[^a-zA-Z0-9\-_ &]` and an empty replacement the pattern
/// compiles and the result is `text` without the characters outside the
/// class (in Unicode mode a negated class matches any other single `char`).
/// Whether other patterns compile is left unsaid.
#[verifier::external_body]
pub(crate) fn regex_replace_all(pattern: &str, text: &str, rep: &str) -> (res: Result<String, regex::Error>)
    ensures
        res matches Ok(r) ==> r@ == regex_replace_all_result(pattern@, text@, rep@),
        pattern@ == disallowed_chars_pattern() && rep@.len() == 0 ==> res is Ok,
        pattern@ == disallowed_chars_pattern() && rep@.len() == 0 ==> (res matches Ok(r) ==> r@ == keep_allowed(text@)),
{
    match regex::Regex::new(pattern) {
        Ok(re) => Ok(re.replace_all(text, rep).into_owned()),
        Err(e) => Err(e),
    }
}

/// Trusted: builds a regex from `pattern` with `regex::RegexBuilder`, setting
/// `case_insensitive`, and replaces its leftmost-first match in `text` by
/// `rep` with `Regex::replace`.
/// Claimed: an `Ok` result is the named result of these arguments; for the
/// four credit patterns (`featuring(.*)`, `feat\.(.*)`, ` ft (.*)`,
/// ` ft\.(.*)`), built case-insensitively, with an empty replacement, the
/// pattern compiles and the result is `text` without the leftmost occurrence
/// of the keyword and the rest of its line: the match starts at the leftmost
/// case-insensitive occurrence of the keyword, and the greedy `.*` runs up to
/// the next line feed, which `.` does not match. The letters of these
/// keywords have no case-fold partners beyond their ASCII pair in the
/// crate's simple case folding table, so ignoring case there is ignoring
/// ASCII case. Whether other patterns compile is left unsaid.
#[verifier::external_body]
pub(crate) fn regex_replace_first(
    pattern: &str,
    case_insensitive: bool,
    text: &str,
    rep: &str,
) -> (res: Result<String, regex::Error>)
    ensures
        res matches Ok(r) ==> r@ == regex_replace_first_result(pattern@, case_insensitive, text@, rep@),
        case_insensitive && rep@.len() == 0 && credit_keyword_of(pattern@) is Some ==> res is Ok,
        case_insensitive && rep@.len() == 0 && credit_keyword_of(pattern@) is Some ==> (res matches Ok(r) ==> r@ == cut_credit(text@, credit_keyword_of(pattern@)->0)),
{
    match regex::RegexBuilder::new(pattern).case_insensitive(case_insensitive).build() {
        Ok(re) => Ok(re.replace(text, rep).into_owned()),
        Err(e) => Err(e),
    }
}

/// The four credit patterns map to their keywords.
pub proof fn lemma_credit_patterns()
    ensures
        credit_keyword_of("featuring(.*)"@) == Some("featuring"@),
        credit_keyword_of("feat\\.(.*)"@) == Some("feat."@),
        credit_keyword_of(" ft (.*)"@) == Some(" ft "@),
        credit_keyword_of(" ft\\.(.*)"@) == Some(" ft."@),
{
    reveal_strlit("featuring(.*)");
    reveal_strlit("feat\\.(.*)");
    reveal_strlit(" ft (.*)");
    reveal_strlit(" ft\\.(.*)");
    assert("featuring(.*)"@.len() == 13);
    assert("feat\\.(.*)"@.len() == 10);
    assert(" ft (.*)"@.len() == 8);
    assert(" ft\\.(.*)"@.len() == 9);
}

} // verus!
