//! Filter rules that mark crawled files as excluded: the last rule that
//! matches a path decides.

use crate::paths::{lower_of, lowercase};
use crate::text::{is_infix, occurs_at, text_contains, text_ends_with, text_starts_with};
use vstd::prelude::*;

verus! {

/// What a matching rule does to a file.
#[derive(Clone, Copy, Debug, PartialEq, Eq, Structural)]
pub enum FilterAction {
    Include,
    Exclude,
}

/// How a rule's pattern is matched against a path.
#[derive(Clone, Copy, Debug, PartialEq, Eq, Structural)]
pub enum FilterMatchType {
    Contains,
    StartsWith,
    EndsWith,
    Regex,
}

/// One filter rule.
#[derive(Clone, Debug, PartialEq, Eq)]
pub struct FilterRule {
    pub id: String,
    pub action: FilterAction,
    pub match_type: FilterMatchType,
    pub pattern: String,
    pub case_sensitive: bool,
}

/// A folder left out of crawls.
#[derive(Clone, Debug, PartialEq, Eq)]
pub struct FolderExclusion {
    pub id: String,
    pub path: String,
}

/// A file name pattern left out of crawls.
#[derive(Clone, Debug, PartialEq, Eq)]
pub struct FilenameExclusion {
    pub id: String,
    pub pattern: String,
    pub is_regex: bool,
}

/// Whether the regex `pattern` compiles and matches somewhere in `text`.
pub uninterp spec fn regex_matches(pattern: Seq<char>, text: Seq<char>) -> bool;

/// Relies on regex's `Regex::new` and `Regex::is_match`: false where the pattern
/// does not compile, else whether it matches somewhere in `text`.
#[verifier::external_body]
fn pattern_matches(pattern: &str, text: &str) -> (r: bool)
    ensures
        r == regex_matches(pattern@, text@),
{
    regex::Regex::new(pattern).map(|re| re.is_match(text)).unwrap_or(false)
}

/// Whether `rule` matches `path`. Plain patterns compare in lower case unless
/// the rule is case sensitive; a regex is matched as written.
pub open spec fn rule_matches(path: Seq<char>, rule: FilterRule) -> bool {
    let text = if rule.case_sensitive {
        path
    } else {
        lower_of(path)
    };
    let pattern = if rule.case_sensitive {
        rule.pattern@
    } else {
        lower_of(rule.pattern@)
    };
    match rule.match_type {
        FilterMatchType::Contains => is_infix(pattern, text),
        FilterMatchType::StartsWith => occurs_at(text, pattern, 0),
        FilterMatchType::EndsWith => occurs_at(text, pattern, text.len() - pattern.len()),
        FilterMatchType::Regex => regex_matches(rule.pattern@, path),
    }
}

/// Whether `rule` matches `path`.
pub fn matches_rule(path: &str, rule: &FilterRule) -> (r: bool)
    ensures
        r == rule_matches(path@, *rule),
{
    if rule.match_type == FilterMatchType::Regex {
        return pattern_matches(rule.pattern.as_str(), path);
    }
    let text = if rule.case_sensitive {
        String::from_str(path)
    } else {
        lowercase(path)
    };
    let pattern = if rule.case_sensitive {
        rule.pattern.clone()
    } else {
        lowercase(rule.pattern.as_str())
    };
    match rule.match_type {
        FilterMatchType::Contains => text_contains(text.as_str(), pattern.as_str()),
        FilterMatchType::StartsWith => text_starts_with(text.as_str(), pattern.as_str()),
        _ => text_ends_with(text.as_str(), pattern.as_str()),
    }
}

/// Whether `path` is excluded under `rules`: the last matching rule decides,
/// and with none matching the path is kept.
pub open spec fn excluded_by(path: Seq<char>, rules: Seq<FilterRule>) -> bool
    decreases rules.len(),
{
    if rules.len() == 0 {
        false
    } else if rule_matches(path, rules.last()) {
        rules.last().action == FilterAction::Exclude
    } else {
        excluded_by(path, rules.drop_last())
    }
}

/// Whether `path` is excluded under `rules`.
pub fn should_exclude(path: &str, rules: &Vec<FilterRule>) -> (r: bool)
    ensures
        r == excluded_by(path@, rules@),
{
    let mut result = false;
    let mut i: usize = 0;
    while i < rules.len()
        invariant
            i <= rules.len(),
            result == excluded_by(path@, rules@.subrange(0, i as int)),
        decreases rules.len() - i,
    {
        assert(rules@.subrange(0, i + 1).drop_last() =~= rules@.subrange(0, i as int));
        if matches_rule(path, &rules[i]) {
            result = rules[i].action == FilterAction::Exclude;
        }
        i = i + 1;
    }
    assert(rules@.subrange(0, i as int) =~= rules@);
    result
}

} // verus!
