//! The precedence of versions, and the rule by which a version counts as
//! the latest.
use vstd::prelude::*;
use std::cmp::Ordering;
use crate::ast::{Version, VersionView};

verus! {

/// How one version stands to another.
#[derive(Debug, Clone, Copy, PartialEq, Eq, Structural)]
pub enum Precedence {
    Less,
    Equal,
    Greater,
}

/// How `semver` orders two pre-release tags; nothing where one of them
/// is no pre-release tag.
pub uninterp spec fn prerelease_order(a: Seq<char>, b: Seq<char>) -> Option<Precedence>;

/// `semver::Prerelease::new` and the order of `semver::Prerelease`: how
/// the first tag stands to the second, or nothing where one of the texts
/// is not accepted as a tag.
#[verifier::external_body]
pub(crate) fn compare_prerelease(a: &str, b: &str) -> (r: Option<Precedence>)
    ensures
        r == prerelease_order(a@, b@),
{
    let x = semver::Prerelease::new(a).ok()?;
    let y = semver::Prerelease::new(b).ok()?;
    match x.cmp(&y) {
        Ordering::Less => Some(Precedence::Less),
        Ordering::Equal => Some(Precedence::Equal),
        Ordering::Greater => Some(Precedence::Greater),
    }
}

/// How two numbers stand to each other.
pub open spec fn number_order(a: u64, b: u64) -> Precedence {
    if a < b {
        Precedence::Less
    } else if a == b {
        Precedence::Equal
    } else {
        Precedence::Greater
    }
}

/// The precedence of two versions: that of the first of major, minor and
/// patch number in which they differ; where they agree in all three,
/// that of their pre-release tags, given as `tags`. Build metadata does
/// not count.
pub open spec fn precedence_with(a: VersionView, b: VersionView, tags: Option<Precedence>) -> Option<
    Precedence,
> {
    if a.major != b.major {
        Some(number_order(a.major, b.major))
    } else if a.minor != b.minor {
        Some(number_order(a.minor, b.minor))
    } else if a.patch != b.patch {
        Some(number_order(a.patch, b.patch))
    } else {
        tags
    }
}

/// The precedence of two versions, the pre-release tags ordered by `semver`.
pub open spec fn precedence_of(a: VersionView, b: VersionView) -> Option<Precedence> {
    precedence_with(a, b, prerelease_order(a.pre, b.pre))
}

/// How two numbers stand to each other.
pub fn order_numbers(a: u64, b: u64) -> (r: Precedence)
    ensures
        r == number_order(a, b),
{
    if a < b {
        Precedence::Less
    } else if a == b {
        Precedence::Equal
    } else {
        Precedence::Greater
    }
}

/// The precedence of two versions whose pre-release tags stand to each
/// other as `tags` says.
pub fn precedence_from(a: &Version, b: &Version, tags: Option<Precedence>) -> (r: Option<
    Precedence,
>)
    ensures
        r == precedence_with(a@, b@, tags),
{
    if a.major != b.major {
        Some(order_numbers(a.major, b.major))
    } else if a.minor != b.minor {
        Some(order_numbers(a.minor, b.minor))
    } else if a.patch != b.patch {
        Some(order_numbers(a.patch, b.patch))
    } else {
        tags
    }
}

/// The precedence of two versions; nothing where they agree in their
/// numbers and one of their pre-release tags is not well-formed.
pub fn precedence(a: &Version, b: &Version) -> (r: Option<Precedence>)
    ensures
        r == precedence_of(a@, b@),
{
    if a.major != b.major || a.minor != b.minor || a.patch != b.patch {
        precedence_from(a, b, None)
    } else {
        precedence_from(a, b, compare_prerelease(a.pre.as_str(), b.pre.as_str()))
    }
}

/// Whether a version counts as the latest beside the given ones: none of
/// them has precedence over it.
pub open spec fn latest_among(version: VersionView, existing: Seq<Version>) -> bool {
    forall|i: int|
        0 <= i < existing.len() ==> precedence_of(version, (#[trigger] existing[i])@) != Some(
            Precedence::Less,
        )
}

/// Whether a version counts as the latest beside the given ones.
pub fn is_latest(version: &Version, existing: &Vec<Version>) -> (r: bool)
    ensures
        r == latest_among(version@, existing@),
{
    let mut i: usize = 0;
    while i < existing.len()
        invariant
            i <= existing.len(),
            forall|k: int|
                0 <= k < i ==> precedence_of(version@, (#[trigger] existing@[k])@) != Some(
                    Precedence::Less,
                ),
        decreases existing.len() - i,
    {
        match precedence(version, &existing[i]) {
            Some(Precedence::Less) => {
                return false;
            },
            _ => {},
        }
        i += 1;
    }
    true
}

} // verus!
