//! The name normalizer: prefix and suffix removal, then case folding.

use crate::text::{chars_of, ends_with, starts_with, string_of, subrange_of};
use vstd::prelude::*;

verus! {

/// How the case of a name is folded.
#[derive(Clone, Copy, Debug, PartialEq, Eq, Structural)]
pub enum CaseMode {
    /// The name keeps its case.
    Preserve,
    /// The name is turned to lowercase.
    Lower,
    /// The name is turned to uppercase.
    Upper,
}

/// The lowercase equivalent of a string, as `str::to_lowercase` gives it.
pub uninterp spec fn lowercase_of(s: Seq<char>) -> Seq<char>;

/// The uppercase equivalent of a string, as `str::to_uppercase` gives it.
pub uninterp spec fn uppercase_of(s: Seq<char>) -> Seq<char>;

/// `str::to_lowercase` returns the lowercase equivalent of the string, by
/// the Unicode case mapping; the result depends on the characters alone.
pub assume_specification[ str::to_lowercase ](s: &str) -> (r: String)
    ensures
        r@ == lowercase_of(s@),
;

/// `str::to_uppercase` returns the uppercase equivalent of the string, by
/// the Unicode case mapping; the result depends on the characters alone.
pub assume_specification[ str::to_uppercase ](s: &str) -> (r: String)
    ensures
        r@ == uppercase_of(s@),
;

/// `name` without `prefix`, where it begins with it; else `name`.
pub open spec fn without_prefix(name: Seq<char>, prefix: Seq<char>) -> Seq<char> {
    if prefix.is_prefix_of(name) {
        name.skip(prefix.len() as int)
    } else {
        name
    }
}

/// `name` without `suffix`, where it ends with it; else `name`.
pub open spec fn without_suffix(name: Seq<char>, suffix: Seq<char>) -> Seq<char> {
    if suffix.is_suffix_of(name) {
        name.take(name.len() - suffix.len())
    } else {
        name
    }
}

/// `name` with its case folded as `mode` says.
pub open spec fn fold_case(name: Seq<char>, mode: CaseMode) -> Seq<char> {
    match mode {
        CaseMode::Preserve => name,
        CaseMode::Lower => lowercase_of(name),
        CaseMode::Upper => uppercase_of(name),
    }
}

/// The normalized form of a name: the prefix removed, then the suffix, then
/// the case folded.
pub open spec fn normalize_spec(
    name: Seq<char>,
    prefix: Seq<char>,
    suffix: Seq<char>,
    mode: CaseMode,
) -> Seq<char> {
    fold_case(without_suffix(without_prefix(name, prefix), suffix), mode)
}

/// Normalizes a raw identifier: removes `prefix` where the name begins with
/// it, then `suffix` where what is left ends with it, then folds the case.
pub fn normalize(name: &str, prefix: &str, suffix: &str, mode: CaseMode) -> (normalized: String)
    ensures
        normalized@ == normalize_spec(name@, prefix@, suffix@, mode),
{
    let name = chars_of(name);
    let prefix = chars_of(prefix);
    let suffix = chars_of(suffix);
    normalize_chars(name.as_slice(), prefix.as_slice(), suffix.as_slice(), mode)
}

/// `normalize` on characters.
pub fn normalize_chars(name: &[char], prefix: &[char], suffix: &[char], mode: CaseMode) -> (normalized:
    String)
    ensures
        normalized@ == normalize_spec(name@, prefix@, suffix@, mode),
{
    let from: usize = if starts_with(name, prefix) {
        prefix.len()
    } else {
        0
    };
    let rest = subrange_of(name, from, name.len());
    assert(rest@ == without_prefix(name@, prefix@));
    let to: usize = if ends_with(rest.as_slice(), suffix) {
        rest.len() - suffix.len()
    } else {
        rest.len()
    };
    let stem = subrange_of(rest.as_slice(), 0, to);
    assert(stem@ == without_suffix(rest@, suffix@));
    let stem = string_of(stem.as_slice());
    match mode {
        CaseMode::Preserve => stem,
        CaseMode::Lower => stem.as_str().to_lowercase(),
        CaseMode::Upper => stem.as_str().to_uppercase(),
    }
}

/// Normalizing a normalized name again gives the same name, provided that
/// the normalized name neither begins with a non-empty prefix to remove nor
/// ends with a non-empty suffix to remove, and that folding its case again
/// leaves it as it is.
pub proof fn lemma_normalize_idempotent(
    name: Seq<char>,
    prefix: Seq<char>,
    suffix: Seq<char>,
    mode: CaseMode,
)
    requires
        ({
            let normalized = normalize_spec(name, prefix, suffix, mode);
            &&& prefix.len() > 0 ==> !prefix.is_prefix_of(normalized)
            &&& suffix.len() > 0 ==> !suffix.is_suffix_of(normalized)
            &&& fold_case(normalized, mode) == normalized
        }),
    ensures
        normalize_spec(normalize_spec(name, prefix, suffix, mode), prefix, suffix, mode)
            == normalize_spec(name, prefix, suffix, mode),
{
    let normalized = normalize_spec(name, prefix, suffix, mode);
    assert(without_prefix(normalized, prefix) =~= normalized);
    assert(without_suffix(normalized, suffix) =~= normalized);
}

/// Without case folding, a name is left as it is by normalization exactly
/// when it neither begins with a non-empty prefix to remove nor ends with a
/// non-empty suffix to remove.
pub proof fn lemma_normalize_fixed_point(name: Seq<char>, prefix: Seq<char>, suffix: Seq<char>)
    ensures
        normalize_spec(name, prefix, suffix, CaseMode::Preserve) == name <==> {
            &&& prefix.len() > 0 ==> !prefix.is_prefix_of(name)
            &&& suffix.len() > 0 ==> !suffix.is_suffix_of(name)
        },
{
    let stem = without_prefix(name, prefix);
    let result = without_suffix(stem, suffix);
    if prefix.len() > 0 && prefix.is_prefix_of(name) {
        assert(result.len() < name.len());
    } else {
        assert(stem =~= name);
        if suffix.len() > 0 && suffix.is_suffix_of(name) {
            assert(result.len() < name.len());
        } else {
            assert(result =~= name);
        }
    }
}

} // verus!
