use accoutrements::{
    get_next_version, Increment, IncrementError, ParseError, PreRelease, PreReleaseInfo,
    UnknownIncrement, Version,
};

fn stable(major: usize, minor: usize, patch: usize) -> Version {
    Version { major, minor, patch, pre_release: None }
}

fn pre(major: usize, minor: usize, patch: usize, stage: PreRelease, number: usize) -> Version {
    Version {
        major,
        minor,
        patch,
        pre_release: Some(PreReleaseInfo { pre_release: stage, number }),
    }
}

#[test]
fn test_version() {
    let tests = vec![
        ("v0.0.3beta9-1-ga4578d1", Increment::Iota, "v0.0.3-beta.10"),
        ("v0.0.3beta9-1-ga4578d1", Increment::Iota, "v0.0.3-beta.10"),
        (
            "v0.0.3beta9-1-ga4578d1-wip",
            Increment::Iota,
            "v0.0.3-beta.10",
        ),
        (
            "v0.0.3-beta9-1-ga4578d1-dirty",
            Increment::Iota,
            "v0.0.3-beta.10",
        ),
        ("v10.12.13", Increment::Iota, "v10.12.14-alpha.1"),
        ("v1.2.3alpha1", Increment::Iota, "v1.2.3-alpha.2"),
        ("v1.2.3rc2-1-gabcdef1", Increment::Iota, "v1.2.3-rc.3"),
        ("v0.0.1-3-gef14a4a", Increment::Iota, "v0.0.2-alpha.1"),
        ("v0.1.0-42-g008b8c7b", Increment::Iota, "v0.1.1-alpha.1"),
        ("v0.9.1-rc1", Increment::Patch, "v0.9.2"),
        ("v0.0.3beta9-1-ga4578d1", Increment::Pre, "v0.0.3-rc.1"),
        ("v0.0.3beta9-1-ga4578d1-wip", Increment::Pre, "v0.0.3-rc.1"),
        (
            "v0.0.3-beta9-1-ga4578d1-dirty",
            Increment::Pre,
            "v0.0.3-rc.1",
        ),
        ("v10.12.13", Increment::Pre, "v10.12.14-alpha.1"),
        ("v1.2.3alpha1", Increment::Pre, "v1.2.3-beta.1"),
        ("v0.0.1-3-gef14a4a", Increment::Pre, "v0.0.2-alpha.1"),
        ("v0.1.0-42-g008b8c7b", Increment::Pre, "v0.1.1-alpha.1"),
        ("v0.0.3beta9-1-ga4578d1", Increment::Patch, "v0.0.4"),
        ("v0.0.3beta9-1-ga4578d1-wip", Increment::Patch, "v0.0.4"),
        ("v0.0.3-beta9-1-ga4578d1-dirty", Increment::Patch, "v0.0.4"),
        ("v10.12.13", Increment::Patch, "v10.12.14"),
        ("v1.2.3alpha1", Increment::Patch, "v1.2.4"),
        ("v1.2.3rc2-1-gabcdef1", Increment::Patch, "v1.2.4"),
        ("v0.0.1-3-gef14a4a", Increment::Patch, "v0.0.2"),
        ("v0.1.0-42-g008b8c7b", Increment::Patch, "v0.1.1"),
        ("v0.0.3beta9-1-ga4578d1", Increment::Minor, "v0.1.0"),
        ("v0.0.3beta9-1-ga4578d1-wip", Increment::Minor, "v0.1.0"),
        ("v0.0.3-beta9-1-ga4578d1-dirty", Increment::Minor, "v0.1.0"),
        ("v10.12.13", Increment::Minor, "v10.13.0"),
        ("v1.2.3alpha1", Increment::Minor, "v1.3.0"),
        ("v1.2.3rc2-1-gabcdef1", Increment::Minor, "v1.3.0"),
        ("v0.0.1-3-gef14a4a", Increment::Minor, "v0.1.0"),
        ("v0.1.0-42-g008b8c7b", Increment::Minor, "v0.2.0"),
        ("v0.0.3beta9-1-ga4578d1", Increment::Major, "v1.0.0"),
        ("v0.0.3beta9-1-ga4578d1-wip", Increment::Major, "v1.0.0"),
        ("v0.0.3-beta9-1-ga4578d1-dirty", Increment::Major, "v1.0.0"),
        ("v10.12.13", Increment::Major, "v11.0.0"),
        ("v1.2.3alpha1", Increment::Major, "v2.0.0"),
        ("v1.2.3rc2-1-gabcdef1", Increment::Major, "v2.0.0"),
        ("v0.0.1-3-gef14a4a", Increment::Major, "v1.0.0"),
        ("v0.1.0-42-g008b8c7b", Increment::Major, "v1.0.0"),
    ];

    for (current, increment, expected) in tests {
        let next_version = get_next_version(current, increment).unwrap();

        let next_tag = next_version.to_string();
        assert_eq!(&next_tag, expected);
    }
}

#[test]
fn tolerant_grammar_gives_one_value() {
    let expected = pre(1, 2, 3, PreRelease::Alpha, 1);
    for text in [
        "v1.2.3alpha1",
        "v1.2.3-alpha1",
        "v1.2.3-alpha1-1-gabcdef1",
        "v1.2.3-alpha1-1-gabcdef1-dirty",
        "v1.2.3-alpha1-1-gabcdef1-wip",
    ] {
        assert_eq!(Version::try_from(text), Ok(expected), "{}", text);
    }
}

#[test]
fn scenario_iota_on_beta_descriptor() {
    let next = get_next_version("v0.0.3beta9-1-ga4578d1", Increment::Iota).unwrap();
    assert_eq!(next.to_string(), "v0.0.3-beta.10");
}

#[test]
fn scenario_iota_on_stable() {
    let next = get_next_version("v10.12.13", Increment::Iota).unwrap();
    assert_eq!(next.to_string(), "v10.12.14-alpha.1");
}

#[test]
fn scenario_patch_finalizes_release_candidate() {
    let next = get_next_version("v0.9.1-rc1", Increment::Patch).unwrap();
    assert_eq!(next.to_string(), "v0.9.2");
}

#[test]
fn scenario_pre_on_release_candidate_fails() {
    assert_eq!(
        get_next_version("v1.2.3rc2-1-gabcdef1", Increment::Pre),
        Err(IncrementError::NoNextStage)
    );
}

#[test]
fn scenario_unparsable_descriptor_counts_as_zero() {
    let next = get_next_version("not-a-version", Increment::Patch).unwrap();
    assert_eq!(next.to_string(), "v0.0.1");
}

#[test]
fn scenario_major_from_distance_descriptor() {
    let next = get_next_version("v0.1.0-42-g008b8c7b", Increment::Major).unwrap();
    assert_eq!(next.to_string(), "v1.0.0");
}

#[test]
fn stable_versions_round_trip() {
    for v in [stable(0, 0, 0), stable(1, 2, 3), stable(10, 200, 3000), stable(usize::MAX, 7, 0)] {
        assert_eq!(Version::try_from(v.to_string().as_str()), Ok(v));
    }
}

#[test]
fn rendered_pre_release_has_dotted_counter() {
    let v = pre(1, 2, 3, PreRelease::ReleaseCandidate, 12);
    assert_eq!(v.to_string(), "v1.2.3-rc.12");
    assert_eq!(pre(0, 0, 1, PreRelease::Beta, 1).to_string(), "v0.0.1-beta.1");
    // the grammar takes the counter right after the stage code, without a dot
    assert_eq!(Version::try_from("v1.2.3-rc.12"), Err(ParseError));
}

#[test]
fn pre_and_iota_agree_on_stable_versions() {
    for v in [stable(0, 0, 0), stable(4, 5, 6), stable(1, 0, 99)] {
        assert_eq!(v.increment(Increment::Pre), v.increment(Increment::Iota));
        assert_eq!(v.increment(Increment::Pre), Ok(pre(v.major, v.minor, v.patch + 1, PreRelease::Alpha, 1)));
    }
}

#[test]
fn release_candidate_has_no_next_stage() {
    for n in [1, 2, 50] {
        let v = pre(3, 1, 4, PreRelease::ReleaseCandidate, n);
        assert_eq!(v.increment(Increment::Pre), Err(IncrementError::NoNextStage));
    }
}

#[test]
fn minor_and_major_reset_lower_components() {
    let v = pre(3, 7, 9, PreRelease::Beta, 2);
    assert_eq!(v.increment(Increment::Minor), Ok(stable(3, 8, 0)));
    assert_eq!(v.increment(Increment::Major), Ok(stable(4, 0, 0)));
}

#[test]
fn pre_promotes_stage_and_keeps_patch() {
    assert_eq!(
        pre(1, 2, 3, PreRelease::Alpha, 4).increment(Increment::Pre),
        Ok(pre(1, 2, 3, PreRelease::Beta, 1))
    );
    assert_eq!(
        pre(1, 2, 3, PreRelease::Beta, 4).increment(Increment::Pre),
        Ok(pre(1, 2, 3, PreRelease::ReleaseCandidate, 1))
    );
}

#[test]
fn overflowing_component_is_an_error() {
    assert_eq!(stable(usize::MAX, 0, 0).increment(Increment::Major), Err(IncrementError::Overflow));
    assert_eq!(stable(0, usize::MAX, 0).increment(Increment::Minor), Err(IncrementError::Overflow));
    assert_eq!(stable(0, 0, usize::MAX).increment(Increment::Patch), Err(IncrementError::Overflow));
    assert_eq!(stable(0, 0, usize::MAX).increment(Increment::Pre), Err(IncrementError::Overflow));
    assert_eq!(
        pre(0, 0, 1, PreRelease::Alpha, usize::MAX).increment(Increment::Iota),
        Err(IncrementError::Overflow)
    );
}

#[test]
fn malformed_descriptors_are_rejected() {
    for text in [
        "",
        "1.2.3",
        "v1.2",
        "v1..3",
        "v1.2.3-",
        "v1.2.3-gamma1",
        "v1.2.3alpha",
        "v1.2.3-alpha1-1-gabcdef",
        "v1.2.3-alpha1-1-gabcdef1234",
        "v1.2.3-1-gabcdef1-clean",
        "v1.2.3-1-gABCDEF1",
        "v1.2.3 ",
        "v99999999999999999999999.0.0",
    ] {
        assert_eq!(Version::try_from(text), Err(ParseError), "{}", text);
    }
}

#[test]
fn stable_descriptor_with_distance_suffix() {
    assert_eq!(Version::try_from("v0.0.1-3-gef14a4a"), Ok(stable(0, 0, 1)));
    assert_eq!(Version::try_from("v7.8.9-10-g123456789-wip"), Ok(stable(7, 8, 9)));
    assert_eq!(Version::try_from("v007.0.10"), Ok(stable(7, 0, 10)));
}

#[test]
fn increment_tokens() {
    assert_eq!(Increment::try_from("major"), Ok(Increment::Major));
    assert_eq!(Increment::try_from("minor"), Ok(Increment::Minor));
    assert_eq!(Increment::try_from("patch"), Ok(Increment::Patch));
    assert_eq!(Increment::try_from("pre"), Ok(Increment::Pre));
    assert_eq!(Increment::try_from("iota"), Ok(Increment::Iota));
    assert_eq!(Increment::try_from("Major"), Err(UnknownIncrement));
    assert_eq!(Increment::try_from("v1.2.3"), Err(UnknownIncrement));
}

#[test]
fn stage_codes() {
    assert_eq!(PreRelease::try_from("alpha"), Ok(PreRelease::Alpha));
    assert_eq!(PreRelease::try_from("beta"), Ok(PreRelease::Beta));
    assert_eq!(PreRelease::try_from("rc"), Ok(PreRelease::ReleaseCandidate));
    assert_eq!(PreRelease::try_from("alphax"), Err(ParseError));
    assert_eq!(PreRelease::ReleaseCandidate.to_string(), "rc");
    assert_eq!(PreRelease::Beta.as_str(), "beta");
    let info = PreReleaseInfo { pre_release: PreRelease::Alpha, number: 30 };
    assert_eq!(info.to_string(), "alpha.30");
}
