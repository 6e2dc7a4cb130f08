//! The text form of a version: the grammar of the descriptors that
//! `git describe` prints, the parser for it, and the canonical rendering.
use vstd::prelude::*;

use crate::decimal::{
    append_decimal, decimal, decimal_value, digits_from, is_digit, lemma_decimal_reads_back,
    lemma_digit_run, scan_number,
};
use crate::text::{has_text, is_text, text_at};
use crate::version::{ParseError, PreRelease, PreReleaseInfo, Version};

verus! {

// ---------------------------------------------------------------------------
// The descriptor grammar:
//
//   version  := "v" INT "." INT "." INT [ "-"? stage INT ] [ distance ]
//   stage    := "alpha" | "beta" | "rc"
//   distance := "-" INT "-g" HEX{7,9} [ "-wip" | "-dirty" ]
//
// The distance suffix is accepted and carries no information.
// ---------------------------------------------------------------------------

/// The code that names a stage in text.
pub open spec fn stage_code(stage: PreRelease) -> Seq<char> {
    match stage {
        PreRelease::Alpha => seq!['a', 'l', 'p', 'h', 'a'],
        PreRelease::Beta => seq!['b', 'e', 't', 'a'],
        PreRelease::ReleaseCandidate => seq!['r', 'c'],
    }
}

/// The stage whose code starts at position `i` of `s`.
pub open spec fn stage_at(s: Seq<char>, i: int) -> Option<PreRelease> {
    if text_at(s, i, stage_code(PreRelease::Alpha)) {
        Some(PreRelease::Alpha)
    } else if text_at(s, i, stage_code(PreRelease::Beta)) {
        Some(PreRelease::Beta)
    } else if text_at(s, i, stage_code(PreRelease::ReleaseCandidate)) {
        Some(PreRelease::ReleaseCandidate)
    } else {
        None
    }
}

/// Where the run of digits that starts at `i` ends.
pub open spec fn number_end(s: Seq<char>, i: int) -> int {
    i + digits_from(s, i)
}

/// The value of the run of digits that starts at `i`.
pub open spec fn number_at(s: Seq<char>, i: int) -> nat {
    decimal_value(s.subrange(i, number_end(s, i)))
}

/// A non-empty run of digits starts at `i`, and its value fits in `usize`.
pub open spec fn has_number_at(s: Seq<char>, i: int) -> bool {
    digits_from(s, i) > 0 && number_at(s, i) <= usize::MAX
}

pub open spec fn is_hex_digit(c: char) -> bool {
    is_digit(c) || c == 'a' || c == 'b' || c == 'c' || c == 'd' || c == 'e' || c == 'f'
}

/// The number of consecutive lower-case hex digits in `s` from position `i` on.
pub open spec fn hex_digits_from(s: Seq<char>, i: int) -> nat
    decreases s.len() - i,
{
    if 0 <= i < s.len() && is_hex_digit(s[i]) {
        1 + hex_digits_from(s, i + 1)
    } else {
        0
    }
}

/// Nothing, `-wip` or `-dirty`.
pub open spec fn is_state_marker(t: Seq<char>) -> bool {
    t.len() == 0 || t == seq!['-', 'w', 'i', 'p'] || t == seq!['-', 'd', 'i', 'r', 't', 'y']
}

/// From position `i` to its end, `s` holds nothing or a distance suffix
/// `-N-g<hex>` with an optional state marker.
pub open spec fn is_distance_suffix(s: Seq<char>, i: int) -> bool {
    let hash = number_end(s, i + 1) + 2;
    let marker = hash + hex_digits_from(s, hash);
    i == s.len() || (text_at(s, i, seq!['-']) && digits_from(s, i + 1) > 0 && text_at(
        s,
        number_end(s, i + 1),
        seq!['-', 'g'],
    ) && 7 <= hex_digits_from(s, hash) <= 9 && is_state_marker(s.subrange(marker, s.len() as int)))
}

/// Where the stage code stands when a pre-release follows the patch number
/// at `p`: its hyphen is optional.
pub open spec fn stage_start(s: Seq<char>, p: int) -> int {
    if text_at(s, p, seq!['-']) && stage_at(s, p + 1) is Some {
        p + 1
    } else {
        p
    }
}

/// The version that the descriptor `s` denotes, if `s` follows the grammar
/// and its numbers fit in `usize`.
pub open spec fn parsed(s: Seq<char>) -> Option<Version> {
    let a_end = number_end(s, 1);
    let b_end = number_end(s, a_end + 1);
    let c_end = number_end(s, b_end + 1);
    let q = stage_start(s, c_end);
    if text_at(s, 0, seq!['v']) && has_number_at(s, 1) && text_at(s, a_end, seq!['.'])
        && has_number_at(s, a_end + 1) && text_at(s, b_end, seq!['.']) && has_number_at(
        s,
        b_end + 1,
    ) {
        let major = number_at(s, 1) as usize;
        let minor = number_at(s, a_end + 1) as usize;
        let patch = number_at(s, b_end + 1) as usize;
        match stage_at(s, q) {
            Some(stage) => {
                let n = q + stage_code(stage).len();
                if has_number_at(s, n) && is_distance_suffix(s, number_end(s, n)) {
                    Some(
                        Version {
                            major,
                            minor,
                            patch,
                            pre_release: Some(
                                PreReleaseInfo { pre_release: stage, number: number_at(s, n) as usize },
                            ),
                        },
                    )
                } else {
                    None
                }
            },
            None => if is_distance_suffix(s, c_end) {
                Some(Version { major, minor, patch, pre_release: None })
            } else {
                None
            },
        }
    } else {
        None
    }
}


/// The stage whose code is exactly `t`.
pub open spec fn stage_named(t: Seq<char>) -> Option<PreRelease> {
    if t == stage_code(PreRelease::Alpha) {
        Some(PreRelease::Alpha)
    } else if t == stage_code(PreRelease::Beta) {
        Some(PreRelease::Beta)
    } else if t == stage_code(PreRelease::ReleaseCandidate) {
        Some(PreRelease::ReleaseCandidate)
    } else {
        None
    }
}

/// The canonical text of a pre-release: `alpha.3`.
pub open spec fn pre_release_text(info: PreReleaseInfo) -> Seq<char> {
    stage_code(info.pre_release) + seq!['.'] + decimal(info.number as nat)
}

/// The canonical text of a version: `v1.2.3`, or `v1.2.3-rc.2` with a pre-release.
pub open spec fn rendered(v: Version) -> Seq<char> {
    let core = seq!['v'] + decimal(v.major as nat) + seq!['.'] + decimal(v.minor as nat) + seq!['.']
        + decimal(v.patch as nat);
    match v.pre_release {
        None => core,
        Some(info) => core + seq!['-'] + pre_release_text(info),
    }
}

/// `0.0.0` with no pre-release: what a driver starts from when no version is known.
pub open spec fn zero_version() -> Version {
    Version { major: 0, minor: 0, patch: 0, pre_release: None }
}

/// The version that the driver increments: the parsed descriptor, or zero.
pub open spec fn current_or_zero(s: Seq<char>) -> Version {
    match parsed(s) {
        Some(v) => v,
        None => zero_version(),
    }
}

fn is_hex_char(c: char) -> (r: bool)
    ensures
        r == is_hex_digit(c),
{
    match c {
        '0' | '1' | '2' | '3' | '4' | '5' | '6' | '7' | '8' | '9' => true,
        'a' | 'b' | 'c' | 'd' | 'e' | 'f' => true,
        _ => false,
    }
}

/// A maximal run of hex digits from `start` to `end` is what `hex_digits_from` counts.
proof fn lemma_hex_run(s: Seq<char>, start: int, end: int)
    requires
        0 <= start <= end <= s.len(),
        forall|k: int| start <= k < end ==> is_hex_digit(#[trigger] s[k]),
        end == s.len() || !is_hex_digit(s[end]),
    ensures
        hex_digits_from(s, start) == end - start,
    decreases end - start,
{
    if start < end {
        lemma_hex_run(s, start + 1, end);
    }
}

/// Where the run of hex digits that starts at `start` ends.
fn scan_hex(s: &str, len: usize, start: usize) -> (end: usize)
    requires
        len == s@.len(),
        start <= len,
    ensures
        end == start + hex_digits_from(s@, start as int),
        end <= len,
{
    let mut i: usize = start;
    while i < len
        invariant
            len == s@.len(),
            start <= i <= len,
            forall|k: int| start <= k < i ==> is_hex_digit(#[trigger] s@[k]),
        ensures
            start <= i <= len,
            forall|k: int| start <= k < i ==> is_hex_digit(#[trigger] s@[k]),
            i == len || !is_hex_digit(s@[i as int]),
        decreases len - i,
    {
        if !is_hex_char(s.get_char(i)) {
            break;
        }
        i = i + 1;
    }
    proof {
        lemma_hex_run(s@, start as int, i as int);
    }
    i
}

/// Whether the rest of `s` from position `i` is a distance suffix or nothing.
fn distance_suffix_at(s: &str, len: usize, i: usize) -> (r: bool)
    requires
        len == s@.len(),
        i <= len,
    ensures
        r == is_distance_suffix(s@, i as int),
{
    proof {
        reveal_strlit("-");
        reveal_strlit("-g");
        reveal_strlit("-wip");
        reveal_strlit("-dirty");
        assert("-"@ =~= seq!['-']);
        assert("-g"@ =~= seq!['-', 'g']);
        assert("-wip"@ =~= seq!['-', 'w', 'i', 'p']);
        assert("-dirty"@ =~= seq!['-', 'd', 'i', 'r', 't', 'y']);
    }
    if i == len {
        return true;
    }
    if !has_text(s, len, i, "-") {
        return false;
    }
    let (distance_end, _) = scan_number(s, len, i + 1);
    if distance_end == i + 1 || !has_text(s, len, distance_end, "-g") {
        return false;
    }
    let hash = distance_end + 2;
    let marker = scan_hex(s, len, hash);
    if marker - hash < 7 || marker - hash > 9 {
        return false;
    }
    let ghost rest = s@.subrange(marker as int, len as int);
    let r = marker == len || (len - marker == 4 && has_text(s, len, marker, "-wip")) || (len
        - marker == 6 && has_text(s, len, marker, "-dirty"));
    proof {
        if marker + 4 == len {
            assert(s@.subrange(marker as int, marker + 4) =~= rest);
        }
        if marker + 6 == len {
            assert(s@.subrange(marker as int, marker + 6) =~= rest);
        }
    }
    r
}

/// The stage whose code starts at position `i` of `s`.
fn stage_in(s: &str, len: usize, i: usize) -> (r: Option<PreRelease>)
    requires
        len == s@.len(),
        i <= len,
    ensures
        r == stage_at(s@, i as int),
{
    proof {
        reveal_strlit("alpha");
        reveal_strlit("beta");
        reveal_strlit("rc");
        assert("alpha"@ =~= stage_code(PreRelease::Alpha));
        assert("beta"@ =~= stage_code(PreRelease::Beta));
        assert("rc"@ =~= stage_code(PreRelease::ReleaseCandidate));
    }
    if has_text(s, len, i, "alpha") {
        Some(PreRelease::Alpha)
    } else if has_text(s, len, i, "beta") {
        Some(PreRelease::Beta)
    } else if has_text(s, len, i, "rc") {
        Some(PreRelease::ReleaseCandidate)
    } else {
        None
    }
}

/// The length of a stage's code.
fn stage_code_len(stage: PreRelease) -> (r: usize)
    ensures
        r == stage_code(stage).len(),
{
    match stage {
        PreRelease::Alpha => 5,
        PreRelease::Beta => 4,
        PreRelease::ReleaseCandidate => 2,
    }
}


impl PreRelease {
    /// Reads a stage from its code: `alpha`, `beta` or `rc`.
    pub fn try_from(value: &str) -> (r: Result<PreRelease, ParseError>)
        ensures
            r == (match stage_named(value@) {
                Some(stage) => Ok::<PreRelease, ParseError>(stage),
                None => Err(ParseError),
            }),
    {
        proof {
            reveal_strlit("alpha");
            reveal_strlit("beta");
            reveal_strlit("rc");
            assert("alpha"@ =~= stage_code(PreRelease::Alpha));
            assert("beta"@ =~= stage_code(PreRelease::Beta));
            assert("rc"@ =~= stage_code(PreRelease::ReleaseCandidate));
        }
        if is_text(value, "alpha") {
            Ok(PreRelease::Alpha)
        } else if is_text(value, "beta") {
            Ok(PreRelease::Beta)
        } else if is_text(value, "rc") {
            Ok(PreRelease::ReleaseCandidate)
        } else {
            Err(ParseError)
        }
    }

    /// The code of this stage: `alpha`, `beta` or `rc`.
    pub fn as_str(&self) -> (r: &'static str)
        ensures
            r@ == stage_code(*self),
    {
        proof {
            reveal_strlit("alpha");
            reveal_strlit("beta");
            reveal_strlit("rc");
            assert("alpha"@ =~= stage_code(PreRelease::Alpha));
            assert("beta"@ =~= stage_code(PreRelease::Beta));
            assert("rc"@ =~= stage_code(PreRelease::ReleaseCandidate));
        }
        match self {
            PreRelease::Alpha => "alpha",
            PreRelease::Beta => "beta",
            PreRelease::ReleaseCandidate => "rc",
        }
    }

    /// The code of this stage as an owned string.
    pub fn to_string(&self) -> (r: String)
        ensures
            r@ == stage_code(*self),
    {
        String::from_str(self.as_str())
    }
}

impl PreReleaseInfo {
    /// Appends the canonical text of this pre-release to `out`.
    fn append_to(&self, out: &mut String)
        ensures
            final(out)@ == old(out)@ + pre_release_text(*self),
    {
        proof {
            reveal_strlit(".");
            assert("."@ =~= seq!['.']);
        }
        out.append(self.pre_release.as_str());
        out.append(".");
        append_decimal(out, self.number);
        assert(out@ =~= old(out)@ + pre_release_text(*self));
    }

    /// The canonical text of this pre-release, such as `beta.2`.
    pub fn to_string(&self) -> (r: String)
        ensures
            r@ == pre_release_text(*self),
    {
        let mut out = String::new();
        self.append_to(&mut out);
        assert(out@ =~= pre_release_text(*self));
        out
    }
}

impl Version {

    /// The canonical text of this version, such as `v1.2.3` or `v1.2.4-alpha.1`.
    pub fn to_string(&self) -> (r: String)
        ensures
            r@ == rendered(*self),
    {
        proof {
            reveal_strlit("v");
            reveal_strlit(".");
            reveal_strlit("-");
            assert("v"@ =~= seq!['v']);
            assert("."@ =~= seq!['.']);
            assert("-"@ =~= seq!['-']);
        }
        let mut out = String::new();
        out.append("v");
        append_decimal(&mut out, self.major);
        out.append(".");
        append_decimal(&mut out, self.minor);
        out.append(".");
        append_decimal(&mut out, self.patch);
        let ghost core = out@;
        assert(core =~= seq!['v'] + decimal(self.major as nat) + seq!['.'] + decimal(
            self.minor as nat,
        ) + seq!['.'] + decimal(self.patch as nat));
        match &self.pre_release {
            Some(info) => {
                out.append("-");
                info.append_to(&mut out);
                assert(out@ =~= core + seq!['-'] + pre_release_text(*info));
            },
            None => {},
        }
        out
    }

    /// Parses a descriptor such as `v1.2.3-rc1-4-gabcdef1-dirty`.
    pub fn try_from(value: &str) -> (r: Result<Version, ParseError>)
        ensures
            r == (match parsed(value@) {
                Some(v) => Ok::<Version, ParseError>(v),
                None => Err(ParseError),
            }),
    {
        proof {
            reveal_strlit("v");
            reveal_strlit(".");
            reveal_strlit("-");
            assert("v"@ =~= seq!['v']);
            assert("."@ =~= seq!['.']);
            assert("-"@ =~= seq!['-']);
        }
        let s = value;
        let len = s.unicode_len();
        if !has_text(s, len, 0, "v") {
            return Err(ParseError);
        }
        let (a_end, major) = scan_number(s, len, 1);
        if a_end == 1 || major.is_none() || !has_text(s, len, a_end, ".") {
            return Err(ParseError);
        }
        let (b_end, minor) = scan_number(s, len, a_end + 1);
        if b_end == a_end + 1 || minor.is_none() || !has_text(s, len, b_end, ".") {
            return Err(ParseError);
        }
        let (c_end, patch) = scan_number(s, len, b_end + 1);
        if c_end == b_end + 1 || patch.is_none() {
            return Err(ParseError);
        }
        let major = major.unwrap();
        let minor = minor.unwrap();
        let patch = patch.unwrap();
        let q = if has_text(s, len, c_end, "-") && stage_in(s, len, c_end + 1).is_some() {
            c_end + 1
        } else {
            c_end
        };
        match stage_in(s, len, q) {
            Some(stage) => {
                let n = q + stage_code_len(stage);
                let (n_end, number) = scan_number(s, len, n);
                if n_end == n || number.is_none() || !distance_suffix_at(s, len, n_end) {
                    return Err(ParseError);
                }
                let info = PreReleaseInfo { pre_release: stage, number: number.unwrap() };
                Ok(Version { major, minor, patch, pre_release: Some(info) })
            },
            None => {
                if !distance_suffix_at(s, len, c_end) {
                    return Err(ParseError);
                }
                Ok(Version { major, minor, patch, pre_release: None })
            },
        }
    }
}

/// The canonical text of `n` written at position `i` of `s`, and not followed
/// by a digit, is read back as `n`.
proof fn lemma_number_written_at(s: Seq<char>, i: int, n: nat)
    requires
        0 <= i,
        i + decimal(n).len() <= s.len(),
        s.subrange(i, i + decimal(n).len()) == decimal(n),
        i + decimal(n).len() == s.len() || !is_digit(s[i + decimal(n).len()]),
    ensures
        number_end(s, i) == i + decimal(n).len(),
        number_at(s, i) == n,
{
    let end = i + decimal(n).len();
    lemma_decimal_reads_back(n);
    assert forall|k: int| i <= k < end implies is_digit(#[trigger] s[k]) by {
        assert(s[k] == s.subrange(i, end)[k - i]);
    }
    lemma_digit_run(s, i, end);
}

/// Rendering a stable version and parsing the text gives the version back.
pub proof fn lemma_round_trip(v: Version)
    requires
        v.pre_release is None,
    ensures
        parsed(rendered(v)) == Some(v),
{
    let s = rendered(v);
    let d1 = decimal(v.major as nat);
    let d2 = decimal(v.minor as nat);
    let d3 = decimal(v.patch as nat);
    let a_end: int = 1 + d1.len() as int;
    let b_end: int = a_end + 1 + d2.len() as int;
    let c_end: int = b_end + 1 + d3.len() as int;
    assert(s.len() == c_end);
    assert(s.subrange(0, 1) =~= seq!['v']);
    assert(s.subrange(1, a_end) =~= d1);
    assert(s.subrange(a_end, a_end + 1) =~= seq!['.']);
    assert(s.subrange(a_end + 1, b_end) =~= d2);
    assert(s.subrange(b_end, b_end + 1) =~= seq!['.']);
    assert(s.subrange(b_end + 1, c_end) =~= d3);
    lemma_number_written_at(s, 1, v.major as nat);
    lemma_number_written_at(s, a_end + 1, v.minor as nat);
    lemma_number_written_at(s, b_end + 1, v.patch as nat);
    assert(stage_at(s, c_end) is None);
}

} // verus!
