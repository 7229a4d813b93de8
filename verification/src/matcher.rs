use vstd::prelude::*;

verus! {

// The routing engine matches concrete request paths against registered path
// patterns with the `regex` crate. Everything the rest of the crate knows
// about that crate is stated here: the two compiled-pattern types are
// declared opaque, and the handful of calls the router makes are wrapped with
// contracts phrased over a few named, uninterpreted functions of the pattern
// and the matched text.

#[verifier::external_type_specification]
#[verifier::external_body]
pub struct ExRegex(regex::Regex);

#[verifier::external_type_specification]
#[verifier::external_body]
pub struct ExRegexSet(regex::RegexSet);

/// Whether `regex::Regex::new` accepts the pattern. Compilation with the
/// default configuration depends on the pattern text alone.
pub uninterp spec fn regex_valid(pat: Seq<char>) -> bool;

/// The pattern a compiled regex was built from, as `regex::Regex::as_str`
/// reports it.
pub uninterp spec fn regex_source(re: regex::Regex) -> Seq<char>;

/// Whether the regex denoted by `pat` matches somewhere in `text`, as
/// `regex::Regex::is_match` decides it. The answer depends on the pattern and
/// the text alone.
pub uninterp spec fn regex_match(pat: Seq<char>, text: Seq<char>) -> bool;

/// Whether `regex::RegexSet::new` accepts the list of patterns. Building
/// the combined matcher with the default configuration depends on the
/// pattern texts alone.
pub uninterp spec fn regexset_valid(pats: Seq<Seq<char>>) -> bool;

/// The patterns a compiled set was built from, in the order they were given,
/// as `regex::RegexSet::patterns` reports them.
pub uninterp spec fn regexset_patterns(rs: regex::RegexSet) -> Seq<Seq<char>>;

/// The capture-group names of the regex denoted by `pat`, indexed by capture
/// group, `None` standing for an unnamed group, as `regex::Regex::capture_names`
/// yields them. Group 0 is the implicit group for the whole match.
pub uninterp spec fn regex_group_names(pat: Seq<char>) -> Seq<Option<Seq<char>>>;

/// The text that capture group `i` of the regex denoted by `pat` captures in
/// `text`, `None` when the group takes no part in the match, for a `text`
/// that the regex matches. The answer depends on the pattern, the text and
/// the group index alone.
pub uninterp spec fn regex_group_capture(pat: Seq<char>, text: Seq<char>, i: int) -> Option<
    Seq<char>,
>;

/// Relies on `regex::Regex::new`: it compiles the pattern exactly when the
/// pattern is valid regex syntax (within the default limits), and the
/// compiled value keeps its pattern (`regex::Regex::as_str`).
#[verifier::external_body]
pub(crate) fn compile_regex(pat: &str) -> (r: Option<regex::Regex>)
    ensures
        r is Some <==> regex_valid(pat@),
        r matches Some(re) ==> regex_source(re) == pat@,
{
    regex::Regex::new(pat).ok()
}

/// Relies on `regex::RegexSet::new`: whether the combined matcher builds
/// under the default configuration is decided by the pattern texts alone; it
/// fails whenever one of the patterns fails to compile on its own, and on
/// success the set keeps the patterns in the order given
/// (`regex::RegexSet::patterns`).
#[verifier::external_body]
pub(crate) fn new_regex_set(pats: &Vec<String>) -> (r: Option<regex::RegexSet>)
    ensures
        r is Some <==> regexset_valid(pats@.map_values(|p: String| p@)),
        r matches Some(rs) ==> regexset_patterns(rs) == pats@.map_values(|p: String| p@),
        (exists|i: int| 0 <= i < pats@.len() && !regex_valid(pats@[i]@)) ==> r is None,
{
    regex::RegexSet::new(pats.iter()).ok()
}

/// Relies on `regex::RegexSet::is_match`: it reports whether at least one
/// pattern of the set matches the text.
#[verifier::external_body]
pub(crate) fn regex_set_is_match(rs: &regex::RegexSet, text: &str) -> (r: bool)
    ensures
        r == (exists|i: int|
            0 <= i < regexset_patterns(*rs).len() && regex_match(regexset_patterns(*rs)[i], text@)),
{
    rs.is_match(text)
}

/// Relies on `regex::RegexSet::matches` and `regex::SetMatches::iter`: the
/// iterator yields, in ascending order, exactly the indices of the patterns
/// that match the text, so its first element is the lowest matching index.
#[verifier::external_body]
pub(crate) fn regex_set_first_match(rs: &regex::RegexSet, text: &str) -> (r: Option<usize>)
    ensures
        r matches Some(i) ==> i < regexset_patterns(*rs).len() && regex_match(
            regexset_patterns(*rs)[i as int],
            text@,
        ) && (forall|j: int| 0 <= j < i ==> !regex_match(regexset_patterns(*rs)[j], text@)),
        r is None ==> (forall|j: int|
            0 <= j < regexset_patterns(*rs).len() ==> !regex_match(regexset_patterns(*rs)[j], text@)),
{
    rs.matches(text).iter().next()
}

/// Relies on `regex::Regex::capture_names`: it yields one entry per capture
/// group, in group order, the name of the group or `None` for an unnamed one.
#[verifier::external_body]
pub(crate) fn capture_group_names(re: &regex::Regex) -> (r: Vec<Option<String>>)
    ensures
        r.deep_view() == regex_group_names(regex_source(*re)),
{
    re.capture_names().map(|n| n.map(|s| s.to_string())).collect()
}

/// Relies on `regex::Regex::captures` and `regex::Captures::get`: for a text
/// the regex matches, `captures` finds a match and group `i` of it captures a
/// substring or takes no part, a function of the pattern, the text and the
/// index alone.
#[verifier::external_body]
pub(crate) fn capture_group_value(re: &regex::Regex, text: &str, i: usize) -> (r: Option<String>)
    requires
        regex_match(regex_source(*re), text@),
    ensures
        r.deep_view() == regex_group_capture(regex_source(*re), text@, i as int),
{
    match re.captures(text) {
        Some(caps) => caps.get(i).map(|m| m.as_str().to_string()),
        None => None,
    }
}

/// The named parameters that the first `k` capture groups of the regex
/// denoted by `pat` extract from `text`: each named group that takes part in
/// the match contributes one entry; unnamed groups and groups that take no
/// part contribute nothing.
pub open spec fn named_params_upto(pat: Seq<char>, text: Seq<char>, k: int) -> Map<
    Seq<char>,
    Seq<char>,
>
    decreases k,
{
    if k <= 0 {
        Map::empty()
    } else {
        let m = named_params_upto(pat, text, k - 1);
        match regex_group_names(pat)[k - 1] {
            Some(name) => match regex_group_capture(pat, text, k - 1) {
                Some(v) => m.insert(name, v),
                None => m,
            },
            None => m,
        }
    }
}

/// The named parameters that the regex denoted by `pat` extracts from a
/// `text` it matches.
pub open spec fn named_params(pat: Seq<char>, text: Seq<char>) -> Map<Seq<char>, Seq<char>> {
    named_params_upto(pat, text, regex_group_names(pat).len() as int)
}

/// Relies on `str::starts_with`: a `char` pattern matches a prefix of the
/// slice exactly when the slice's first character is that character.
#[verifier::external_body]
pub(crate) fn str_starts_with_char(s: &str, c: char) -> (r: bool)
    ensures
        r == (s@.len() > 0 && s@[0] == c),
{
    s.starts_with(c)
}

} // verus!
