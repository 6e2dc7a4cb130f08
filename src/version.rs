//! The version model and its increment policy.
use vstd::prelude::*;

use crate::descriptor::current_or_zero;
use crate::text::is_text;

verus! {

/// How the next version is derived from the current one.
#[derive(Clone, Copy, Debug, PartialEq, Eq, Structural)]
pub enum Increment {
    Major,
    Minor,
    Patch,
    Pre,
    Iota,
}

/// Maturity stage of a pre-release, ordered `Alpha < Beta < ReleaseCandidate`.
#[derive(Clone, Copy, Debug, PartialEq, Eq, PartialOrd, Ord, Hash, Structural)]
pub enum PreRelease {
    Alpha,
    Beta,
    ReleaseCandidate,
}

/// A pre-release stage together with its iteration counter ("alpha 3").
#[derive(Clone, Copy, Debug, PartialEq, Eq, Structural)]
pub struct PreReleaseInfo {
    pub pre_release: PreRelease,
    pub number: usize,
}

/// A semantic version; with a pre-release the triple names the release
/// that the pre-release sequence leads up to.
#[derive(Clone, Copy, Debug, PartialEq, Eq, Structural)]
pub struct Version {
    pub major: usize,
    pub minor: usize,
    pub patch: usize,
    pub pre_release: Option<PreReleaseInfo>,
}

/// Why an increment has no result.
#[derive(Clone, Copy, Debug, PartialEq, Eq, Structural)]
pub enum IncrementError {
    /// `Pre` was asked of a release candidate: no stage follows it.
    NoNextStage,
    /// The component that has to grow is already `usize::MAX`.
    Overflow,
}

/// The token names no increment.
#[derive(Clone, Copy, Debug, PartialEq, Eq, Structural)]
pub struct UnknownIncrement;

/// The descriptor text does not follow the version grammar.
#[derive(Clone, Copy, Debug, PartialEq, Eq, Structural)]
pub struct ParseError;

/// The stage that `Pre` promotes to, if any.
pub open spec fn next_stage(stage: PreRelease) -> Option<PreRelease> {
    match stage {
        PreRelease::Alpha => Some(PreRelease::Beta),
        PreRelease::Beta => Some(PreRelease::ReleaseCandidate),
        PreRelease::ReleaseCandidate => None,
    }
}

/// The first pre-release of the patch after `v`: `Pre` and `Iota` on a stable version.
pub open spec fn first_pre_release(v: Version) -> Result<Version, IncrementError> {
    if v.patch == usize::MAX {
        Err(IncrementError::Overflow)
    } else {
        Ok(
            Version {
                major: v.major,
                minor: v.minor,
                patch: (v.patch + 1) as usize,
                pre_release: Some(PreReleaseInfo { pre_release: PreRelease::Alpha, number: 1 }),
            },
        )
    }
}

/// The transition table of the increment policy.
pub open spec fn incremented(v: Version, op: Increment) -> Result<Version, IncrementError> {
    match op {
        Increment::Major => if v.major == usize::MAX {
            Err(IncrementError::Overflow)
        } else {
            Ok(Version { major: (v.major + 1) as usize, minor: 0, patch: 0, pre_release: None })
        },
        Increment::Minor => if v.minor == usize::MAX {
            Err(IncrementError::Overflow)
        } else {
            Ok(
                Version {
                    major: v.major,
                    minor: (v.minor + 1) as usize,
                    patch: 0,
                    pre_release: None,
                },
            )
        },
        Increment::Patch => if v.patch == usize::MAX {
            Err(IncrementError::Overflow)
        } else {
            Ok(
                Version {
                    major: v.major,
                    minor: v.minor,
                    patch: (v.patch + 1) as usize,
                    pre_release: None,
                },
            )
        },
        Increment::Pre => match v.pre_release {
            None => first_pre_release(v),
            Some(info) => match next_stage(info.pre_release) {
                Some(stage) => Ok(
                    Version {
                        major: v.major,
                        minor: v.minor,
                        patch: v.patch,
                        pre_release: Some(PreReleaseInfo { pre_release: stage, number: 1 }),
                    },
                ),
                None => Err(IncrementError::NoNextStage),
            },
        },
        Increment::Iota => match v.pre_release {
            None => first_pre_release(v),
            Some(info) => if info.number == usize::MAX {
                Err(IncrementError::Overflow)
            } else {
                Ok(
                    Version {
                        major: v.major,
                        minor: v.minor,
                        patch: v.patch,
                        pre_release: Some(
                            PreReleaseInfo {
                                pre_release: info.pre_release,
                                number: (info.number + 1) as usize,
                            },
                        ),
                    },
                )
            },
        },
    }
}

/// The increment that a user-facing token names.
pub open spec fn increment_named(t: Seq<char>) -> Option<Increment> {
    if t == seq!['m', 'a', 'j', 'o', 'r'] {
        Some(Increment::Major)
    } else if t == seq!['m', 'i', 'n', 'o', 'r'] {
        Some(Increment::Minor)
    } else if t == seq!['p', 'a', 't', 'c', 'h'] {
        Some(Increment::Patch)
    } else if t == seq!['p', 'r', 'e'] {
        Some(Increment::Pre)
    } else if t == seq!['i', 'o', 't', 'a'] {
        Some(Increment::Iota)
    } else {
        None
    }
}

impl Increment {
    /// Reads an increment from its token: `major`, `minor`, `patch`, `pre` or `iota`.
    pub fn try_from(value: &str) -> (r: Result<Increment, UnknownIncrement>)
        ensures
            r == (match increment_named(value@) {
                Some(i) => Ok::<Increment, UnknownIncrement>(i),
                None => Err(UnknownIncrement),
            }),
    {
        proof {
            reveal_strlit("major");
            reveal_strlit("minor");
            reveal_strlit("patch");
            reveal_strlit("pre");
            reveal_strlit("iota");
            assert("major"@ =~= seq!['m', 'a', 'j', 'o', 'r']);
            assert("minor"@ =~= seq!['m', 'i', 'n', 'o', 'r']);
            assert("patch"@ =~= seq!['p', 'a', 't', 'c', 'h']);
            assert("pre"@ =~= seq!['p', 'r', 'e']);
            assert("iota"@ =~= seq!['i', 'o', 't', 'a']);
        }
        if is_text(value, "major") {
            Ok(Increment::Major)
        } else if is_text(value, "minor") {
            Ok(Increment::Minor)
        } else if is_text(value, "patch") {
            Ok(Increment::Patch)
        } else if is_text(value, "pre") {
            Ok(Increment::Pre)
        } else if is_text(value, "iota") {
            Ok(Increment::Iota)
        } else {
            Err(UnknownIncrement)
        }
    }
}

impl Version {
    /// The version that `increment` leads to from this one.
    pub fn increment(&self, increment: Increment) -> (r: Result<Version, IncrementError>)
        ensures
            r == incremented(*self, increment),
    {
        let mut major = self.major;
        let mut minor = self.minor;
        let mut patch = self.patch;
        let mut pre_release: Option<PreReleaseInfo> = None;
        match increment {
            Increment::Major => {
                if major == usize::MAX {
                    return Err(IncrementError::Overflow);
                }
                major = major + 1;
                minor = 0;
                patch = 0;
            },
            Increment::Minor => {
                if minor == usize::MAX {
                    return Err(IncrementError::Overflow);
                }
                minor = minor + 1;
                patch = 0;
            },
            Increment::Patch => {
                if patch == usize::MAX {
                    return Err(IncrementError::Overflow);
                }
                patch = patch + 1;
            },
            Increment::Pre => {
                let next = match &self.pre_release {
                    Some(current) => match current.pre_release {
                        PreRelease::Alpha => PreRelease::Beta,
                        PreRelease::Beta => PreRelease::ReleaseCandidate,
                        PreRelease::ReleaseCandidate => {
                            return Err(IncrementError::NoNextStage);
                        },
                    },
                    None => {
                        if patch == usize::MAX {
                            return Err(IncrementError::Overflow);
                        }
                        patch = patch + 1;
                        PreRelease::Alpha
                    },
                };
                pre_release = Some(PreReleaseInfo { pre_release: next, number: 1 });
            },
            Increment::Iota => {
                let next = match &self.pre_release {
                    Some(current) => {
                        if current.number == usize::MAX {
                            return Err(IncrementError::Overflow);
                        }
                        PreReleaseInfo {
                            pre_release: current.pre_release,
                            number: current.number + 1,
                        }
                    },
                    None => {
                        if patch == usize::MAX {
                            return Err(IncrementError::Overflow);
                        }
                        patch = patch + 1;
                        PreReleaseInfo { pre_release: PreRelease::Alpha, number: 1 }
                    },
                };
                pre_release = Some(next);
            },
        }
        Ok(Version { major, minor, patch, pre_release })
    }
}

/// The next version after the descriptor `current_version` under `increment`;
/// a descriptor that does not parse counts as `0.0.0`.
pub fn get_next_version(current_version: &str, increment: Increment) -> (r: Result<
    Version,
    IncrementError,
>)
    ensures
        r == incremented(current_or_zero(current_version@), increment),
{
    let version = match Version::try_from(current_version) {
        Ok(v) => v,
        Err(_) => Version { major: 0, minor: 0, patch: 0, pre_release: None },
    };
    version.increment(increment)
}

/// From a stable version, `Pre` and `Iota` start the same pre-release sequence.
pub proof fn lemma_bootstrap_equivalence(v: Version)
    requires
        v.pre_release is None,
    ensures
        incremented(v, Increment::Pre) == incremented(v, Increment::Iota),
{
}

/// A release candidate has no next stage: `Pre` on it always fails with `NoNextStage`.
pub proof fn lemma_release_candidate_is_terminal(v: Version)
    requires
        v.pre_release matches Some(info) && info.pre_release == PreRelease::ReleaseCandidate,
    ensures
        incremented(v, Increment::Pre) == Err::<Version, IncrementError>(IncrementError::NoNextStage),
{
}

/// A minor increment resets the patch component to zero.
pub proof fn lemma_minor_resets_patch(v: Version)
    requires
        v.minor < usize::MAX,
    ensures
        incremented(v, Increment::Minor) matches Ok(w) && w.patch == 0,
{
}

/// A major increment resets both the minor and the patch component to zero.
pub proof fn lemma_major_resets_minor_and_patch(v: Version)
    requires
        v.major < usize::MAX,
    ensures
        incremented(v, Increment::Major) matches Ok(w) && w.minor == 0 && w.patch == 0,
{
}

} // verus!
