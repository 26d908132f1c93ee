use vstd::prelude::*;

verus! {

#[verifier::external_type_specification]
#[verifier::external_body]
pub struct ExRegex(regex::Regex);

#[verifier::external_type_specification]
#[verifier::external_body]
pub struct ExRegexSet(regex::RegexSet);

#[verifier::external_type_specification]
#[verifier::external_body]
pub struct ExRegexError(regex::Error);

/// Whether `regex::Regex::new` accepts this pattern.
pub uninterp spec fn regex_accepts(pattern: Seq<char>) -> bool;

/// Whether `regex::RegexSet::new` accepts this list of patterns.
pub uninterp spec fn set_accepts(patterns: Seq<Seq<char>>) -> bool;

/// The pattern that a compiled regular expression was built from.
pub uninterp spec fn regex_source(re: regex::Regex) -> Seq<char>;

/// The patterns that a compiled set was built from, in order.
pub uninterp spec fn set_sources(set: regex::RegexSet) -> Seq<Seq<char>>;

/// Whether the regular expression `pattern` finds a match in `text`, as
/// `RegexSet::matches` reports it for each member and `Regex::captures` for
/// one regex.
pub uninterp spec fn finds_match(pattern: Seq<char>, text: Seq<char>) -> bool;

/// The names of the capture groups of `pattern`, by group index.
pub uninterp spec fn group_names(pattern: Seq<char>) -> Seq<Option<Seq<char>>>;

/// The text that each capture group of `pattern` takes in its match in `text`.
pub uninterp spec fn group_texts(pattern: Seq<char>, text: Seq<char>) -> Seq<Option<Seq<char>>>;

pub open spec fn strings_view(v: Seq<String>) -> Seq<Seq<char>> {
    v.map_values(|s: String| s@)
}

pub open spec fn opt_strings_view(v: Seq<Option<String>>) -> Seq<Option<Seq<char>>> {
    v.map_values(|o: Option<String>| match o {
        Some(s) => Some(s@),
        None => None,
    })
}

/// Relies on `regex::Regex::new`: it succeeds exactly on the patterns it
/// accepts, and the regex remembers its pattern (`Regex::as_str`).
#[verifier::external_body]
pub(crate) fn compile_regex(pattern: &str) -> (r: Result<regex::Regex, regex::Error>)
    ensures
        r.is_ok() == regex_accepts(pattern@),
        r matches Ok(re) ==> regex_source(re) == pattern@,
{
    regex::Regex::new(pattern)
}

/// Relies on `regex::RegexSet::new`: it succeeds exactly on the lists it
/// accepts, and the set remembers its patterns in order (`RegexSet::patterns`).
#[verifier::external_body]
pub(crate) fn compile_set(patterns: &Vec<String>) -> (r: Result<regex::RegexSet, regex::Error>)
    ensures
        r.is_ok() == set_accepts(strings_view(patterns@)),
        r matches Ok(set) ==> set_sources(set) == strings_view(patterns@),
{
    regex::RegexSet::new(patterns)
}

/// Relies on `regex::RegexSet::matches`: the indices of the patterns of the
/// set that match in `text`, in ascending order.
#[verifier::external_body]
pub(crate) fn set_matches(set: &regex::RegexSet, text: &str) -> (r: Vec<usize>)
    ensures
        forall|k: int| 0 <= k < r@.len() ==> #[trigger] r@[k] < set_sources(*set).len(),
        forall|k: int, l: int| 0 <= k < l < r@.len() ==> #[trigger] r@[k] < #[trigger] r@[l],
        forall|i: int|
            0 <= i < set_sources(*set).len() ==> (finds_match(#[trigger] set_sources(*set)[i], text@)
                <==> r@.contains(i as usize)),
{
    set.matches(text).into_iter().collect()
}

/// Relies on `regex::Regex::capture_names`: the name of each capture group,
/// by group index, starting with the unnamed group of the whole match.
#[verifier::external_body]
pub(crate) fn capture_names(re: &regex::Regex) -> (r: Vec<Option<String>>)
    ensures
        opt_strings_view(r@) == group_names(regex_source(*re)),
{
    re.capture_names().map(|n| n.map(|s| s.to_string())).collect()
}

/// Relies on `regex::Regex::captures` and `Captures::iter`: `None` where the
/// regex finds no match, else the text of each capture group by group index,
/// one entry for each group that `capture_names` lists.
#[verifier::external_body]
pub(crate) fn capture_texts(re: &regex::Regex, text: &str) -> (r: Option<Vec<Option<String>>>)
    ensures
        r is Some <==> finds_match(regex_source(*re), text@),
        r matches Some(g) ==> opt_strings_view(g@) == group_texts(regex_source(*re), text@)
            && g@.len() == group_names(regex_source(*re)).len(),
{
    re.captures(text).map(|c| c.iter().map(|m| m.map(|m| m.as_str().to_string())).collect())
}

/// Relies on the `Display` impl of `regex::Error`: a description of why a
/// pattern was refused.
#[verifier::external_body]
pub(crate) fn error_message(e: &regex::Error) -> (r: String) {
    e.to_string()
}

} // verus!
