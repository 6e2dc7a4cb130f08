use accoutrements::{
    build_remote_branch_set, checkout_new_development_branch, choose_master_branch,
    choose_upstream_remote, clone_directory, collect_stale_branches, create_tag, detect_master_branch, detect_stale_branches,
    detect_upstream_remote, get_current_version, has_signing_key, has_working_changes, push_tag,
    GitError,
};

fn strings(items: &[&str]) -> Vec<String> {
    items.iter().map(|s| s.to_string()).collect()
}

#[test]
fn current_version_is_trimmed() {
    assert_eq!(get_current_version("v1.2.3-4-gabcdef1\n"), "v1.2.3-4-gabcdef1");
    assert_eq!(get_current_version("  v0.1.0 \r\n"), "v0.1.0");
}

#[test]
fn upstream_is_preferred_over_origin() {
    assert_eq!(detect_upstream_remote("origin\nupstream\n"), Ok("upstream"));
    assert_eq!(detect_upstream_remote("  origin \r\nfork\n"), Ok("origin"));
    assert_eq!(detect_upstream_remote("fork\nupstreams\n"), Err(GitError::NoUpstreamRemote));
    assert_eq!(detect_upstream_remote(""), Err(GitError::NoUpstreamRemote));
}

const REMOTE_BRANCHES: &str = "  origin/HEAD -> origin/main\n  origin/main\n  origin/feat/new-thing\n  upstream/trunk\n  upstream/master\n";

#[test]
fn master_branch_follows_preference_order() {
    assert_eq!(detect_master_branch("upstream", REMOTE_BRANCHES), Ok("master"));
    assert_eq!(detect_master_branch("origin", REMOTE_BRANCHES), Ok("main"));
    assert_eq!(detect_master_branch("fork", REMOTE_BRANCHES), Err(GitError::NoMasterBranch));
    // a line without leading white space is not a branch of the listing
    assert_eq!(detect_master_branch("origin", "origin/main\n"), Err(GitError::NoMasterBranch));
}

#[test]
fn stale_branches_are_those_with_gone_upstream() {
    let output = "* main        1a2b3c4 [origin/main] latest\n  feat/old    abcdef0 [origin/feat/old: gone] old work\n  fix/x.y     0123456 [origin/fix/x.y: ahead 1] wip\n  chore-1     fedcba9 [origin/chore-1: gone] done\n";
    assert_eq!(detect_stale_branches(output), strings(&["feat/old", "chore-1"]));
    assert_eq!(detect_stale_branches(""), Vec::<String>::new());
}

#[test]
fn tag_is_signed_only_with_a_key() {
    assert_eq!(create_tag("v1.0.0", Some("ABCD1234\n")), strings(&["tag", "-s", "v1.0.0", "-m", "v1.0.0"]));
    assert_eq!(create_tag("v1.0.0", Some("  \n")), strings(&["tag", "-a", "v1.0.0", "-m", "v1.0.0"]));
    assert_eq!(create_tag("v1.0.0", None), strings(&["tag", "-a", "v1.0.0", "-m", "v1.0.0"]));
    assert!(has_signing_key(Some(" key ")));
    assert!(!has_signing_key(Some("\n")));
    assert!(!has_signing_key(None));
}

#[test]
fn push_tag_arguments() {
    assert_eq!(push_tag("origin", "v2.0.0"), strings(&["push", "origin", "v2.0.0"]));
}

#[test]
fn failed_diff_means_changes() {
    assert!(has_working_changes(false));
    assert!(!has_working_changes(true));
}

#[test]
fn development_branch_plan() {
    let plan = checkout_new_development_branch(
        "feat",
        strings(&["add", "login", "page"]),
        true,
        "origin\nupstream\n",
        REMOTE_BRANCHES,
    )
    .unwrap();
    assert_eq!(
        plan,
        vec![
            strings(&["fetch", "upstream", "-p"]),
            strings(&["checkout", "-b", "feat/add-login-page"]),
            strings(&["reset", "--hard", "upstream/master"]),
        ]
    );
}

#[test]
fn development_branch_plan_refusals() {
    let names = strings(&["x"]);
    assert_eq!(
        checkout_new_development_branch("fix", names.clone(), false, "origin\n", REMOTE_BRANCHES),
        Err(GitError::WorkingCopyHasChanges)
    );
    assert_eq!(
        checkout_new_development_branch("fix", names.clone(), true, "fork\n", REMOTE_BRANCHES),
        Err(GitError::NoUpstreamRemote)
    );
    assert_eq!(
        checkout_new_development_branch("fix", names, true, "origin\n", "  origin/dev\n"),
        Err(GitError::NoMasterBranch)
    );
    let plan = checkout_new_development_branch("fix", Vec::new(), true, "origin\n", REMOTE_BRANCHES).unwrap();
    assert_eq!(plan[1], strings(&["checkout", "-b", "fix/"]));
}

#[test]
fn clone_directory_of_ssh_urls() {
    assert_eq!(clone_directory("git@github.com:acme/widgets.git"), Some("widgets".to_string()));
    assert_eq!(clone_directory("git@host/a/b/c.git"), Some("a/b/c".to_string()));
    assert_eq!(clone_directory("git@host/.git"), Some("".to_string()));
    assert_eq!(clone_directory("https://github.com/acme/widgets.git"), None);
    assert_eq!(clone_directory("git@github.com:widgets.git"), None);
    assert_eq!(clone_directory("git@host/a\nb.git"), None);
    assert_eq!(clone_directory("git@host/widgets"), None);
}

#[test]
fn remote_choice_on_given_names() {
    assert_eq!(choose_upstream_remote(&strings(&["origin", "upstream"])), Ok("upstream"));
    assert_eq!(choose_upstream_remote(&strings(&["fork", "origin"])), Ok("origin"));
    assert_eq!(choose_upstream_remote(&strings(&[" origin"])), Err(GitError::NoUpstreamRemote));
    assert_eq!(choose_upstream_remote(&Vec::new()), Err(GitError::NoUpstreamRemote));
}

#[test]
fn remote_branches_on_given_lines() {
    let listing = strings(&[
        "  origin/HEAD -> origin/main",
        "  origin/main",
        "\torigin/feat/a-b_c",
        "  upstream/main",
        "  origin/",
        "  origin/bad name",
        "origin/no-indent",
    ]);
    assert_eq!(build_remote_branch_set("origin", &listing), strings(&["main", "feat/a-b_c"]));
    assert_eq!(build_remote_branch_set("upstream", &listing), strings(&["main"]));
    assert_eq!(build_remote_branch_set("orig", &listing), Vec::<String>::new());
}

#[test]
fn master_choice_on_given_branches() {
    assert_eq!(choose_master_branch(&strings(&["trunk", "main", "master"])), Ok("master"));
    assert_eq!(choose_master_branch(&strings(&["trunk", "main"])), Ok("main"));
    assert_eq!(choose_master_branch(&strings(&["dev", "trunk"])), Ok("trunk"));
    assert_eq!(choose_master_branch(&strings(&["dev", "mainline"])), Err(GitError::NoMasterBranch));
}

#[test]
fn stale_branches_on_given_lines() {
    let listing = strings(&[
        "  feat/old 0a1b2c3 [origin/feat/old: gone] message",
        "  keep     0a1b2c3 [origin/keep] message",
        "  v1.x     deadbee [upstream/v1.x: gone]",
        "  nohash   [origin/nohash: gone]",
        "* current  0a1b2c3 [origin/current: gone]",
    ]);
    assert_eq!(collect_stale_branches(&listing), strings(&["feat/old", "v1.x"]));
}

#[test]
fn remote_branches_with_unicode_names() {
    assert_eq!(build_remote_branch_set("o", &strings(&[" o/é"])), strings(&["é"]));
    let listing = strings(&[
        "\u{3000}origin/feat/résumé",
        "  origin/fix/naïve-ü_2",
        "  dépôt/main",
        "  origin/bad\u{2003}name",
    ]);
    assert_eq!(build_remote_branch_set("origin", &listing), strings(&["feat/résumé", "fix/naïve-ü_2"]));
    assert_eq!(build_remote_branch_set("dépôt", &listing), strings(&["main"]));
}

#[test]
fn stale_branches_with_unicode_names() {
    assert_eq!(collect_stale_branches(&strings(&[" é a [o: gone]"])), strings(&["é"]));
    let output = "  feat/résumé\u{a0}0a1b2c3 [origin/feat/résumé: gone] old\n  garçon.v2   fedcba9 [origin/garçon.v2: gone]\n  naïve       0a1b2c3 [origin/naïve] kept\n";
    assert_eq!(detect_stale_branches(output), strings(&["feat/résumé", "garçon.v2"]));
}

#[test]
fn unicode_white_space_is_trimmed() {
    assert_eq!(get_current_version("\u{a0}v1.0.0\u{2003}\n"), "v1.0.0");
    assert_eq!(detect_upstream_remote("\u{3000}upstream\u{a0}\r\norigin"), Ok("upstream"));
    assert_eq!(detect_upstream_remote("origin\r"), Ok("origin"));
}
