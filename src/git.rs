//! What the helpers decide from git's output, and the git argument lists
//! they hand back to be run.
use vstd::prelude::*;

use crate::decimal::is_digit;
use crate::text::{has_text, is_text, text_at};

verus! {

/// Why a git helper cannot go on.
#[derive(Clone, Copy, Debug, PartialEq, Eq, Structural)]
pub enum GitError {
    /// Neither an `upstream` nor an `origin` remote is configured.
    NoUpstreamRemote,
    /// The remote has none of the branches `master`, `main` and `trunk`.
    NoMasterBranch,
    /// The working copy has uncommitted changes.
    WorkingCopyHasChanges,
}

/// The line of `s` from `start` to the line feed at `end`, without a
/// carriage return just before that line feed.
pub open spec fn line_between(s: Seq<char>, start: int, end: int) -> Seq<char> {
    if end > start && s[end - 1] == '\r' {
        s.subrange(start, end - 1)
    } else {
        s.subrange(start, end)
    }
}

/// The lines of `s` from `start` on, scanning at `i` for the line feed that
/// ends the line begun at `start`.
pub open spec fn lines_scan(s: Seq<char>, start: int, i: int) -> Seq<Seq<char>>
    decreases s.len() - i,
{
    if i < 0 || i >= s.len() {
        if 0 <= start < s.len() {
            seq![s.subrange(start, s.len() as int)]
        } else {
            Seq::empty()
        }
    } else if s[i] == '\n' {
        seq![line_between(s, start, i)] + lines_scan(s, i + 1, i + 1)
    } else {
        lines_scan(s, start, i + 1)
    }
}

/// The lines of a text: split at each line feed, a carriage return before a
/// line feed dropped, and no line after a final line feed.
pub open spec fn lines_of(s: Seq<char>) -> Seq<Seq<char>> {
    lines_scan(s, 0, 0)
}

/// The number of white-space characters at the start of `s` from position `i` on.
pub open spec fn white_from(s: Seq<char>, i: int) -> nat
    decreases s.len() - i,
{
    if 0 <= i < s.len() && white_space(s[i]) {
        1 + white_from(s, i + 1)
    } else {
        0
    }
}

/// The number of white-space characters that end `s` before position `j`.
pub open spec fn white_before(s: Seq<char>, j: int) -> nat
    decreases j,
{
    if 0 < j <= s.len() && white_space(s[j - 1]) {
        1 + white_before(s, j - 1)
    } else {
        0
    }
}

/// A text without its leading and trailing white space.
pub open spec fn trim_of(s: Seq<char>) -> Seq<char> {
    let start = white_from(s, 0);
    if start >= s.len() {
        Seq::empty()
    } else {
        s.subrange(start as int, s.len() - white_before(s, s.len() as int))
    }
}

/// Relies on `str::lines`: splits a text at line feeds (`\n` or `\r\n`),
/// without the line endings and without a line after a final line ending; a
/// lone carriage return stays in its line.
#[verifier::external_body]
fn lines(s: &str) -> (r: Vec<String>)
    ensures
        r.deep_view() == lines_of(s@),
{
    s.lines().map(|line| line.to_string()).collect()
}

/// Relies on `str::trim`: removes the leading and trailing characters that
/// have the White_Space property.
#[verifier::external_body]
fn trim(s: &str) -> (r: &str)
    ensures
        r@ == trim_of(s@),
{
    s.trim()
}

/// The tag or commit named by the output of `git describe --always`.
pub fn get_current_version(describe_output: &str) -> (r: String)
    ensures
        r@ == trim_of(describe_output@),
{
    String::from_str(trim(describe_output))
}

/// The lines of `s`, each without its leading and trailing white space.
pub open spec fn trimmed_lines(s: Seq<char>) -> Seq<Seq<char>> {
    lines_of(s).map_values(|line: Seq<char>| trim_of(line))
}

/// The name of the remote to work against: `upstream` where it is among
/// `remotes`, else `origin`.
pub open spec fn chosen_remote(remotes: Seq<Seq<char>>) -> Option<&'static str> {
    if remotes.contains("upstream"@) {
        Some("upstream")
    } else if remotes.contains("origin"@) {
        Some("origin")
    } else {
        None
    }
}

/// The remote to work against among the configured `remotes`: `upstream`
/// where it is there, else `origin`.
pub fn choose_upstream_remote(remotes: &Vec<String>) -> (r: Result<&'static str, GitError>)
    ensures
        r == (match chosen_remote(remotes.deep_view()) {
            Some(name) => Ok::<&'static str, GitError>(name),
            None => Err(GitError::NoUpstreamRemote),
        }),
{
    if contains_name(remotes, "upstream") {
        Ok("upstream")
    } else if contains_name(remotes, "origin") {
        Ok("origin")
    } else {
        Err(GitError::NoUpstreamRemote)
    }
}

/// The remote that the helpers work against, given the output of `git remote`:
/// `upstream` where it is configured, else `origin`.
pub fn detect_upstream_remote(remote_output: &str) -> (r: Result<&'static str, GitError>)
    ensures
        r == (match chosen_remote(trimmed_lines(remote_output@)) {
            Some(name) => Ok::<&'static str, GitError>(name),
            None => Err(GitError::NoUpstreamRemote),
        }),
{
    let listed = lines(remote_output);
    let ghost all = lines_of(remote_output@);
    let mut remotes: Vec<String> = Vec::new();
    let mut i: usize = 0;
    while i < listed.len()
        invariant
            listed.deep_view() == all,
            i <= listed.len(),
            remotes.deep_view().len() == i,
            forall|j: int| 0 <= j < i ==> remotes.deep_view()[j] == trim_of(all[j]),
        decreases listed.len() - i,
    {
        assert(listed[i as int]@ == all[i as int]);
        let ghost before = remotes.deep_view();
        let name = String::from_str(trim(listed[i].as_str()));
        remotes.push(name);
        assert(remotes.deep_view() =~= before.push(name@));
        i = i + 1;
    }
    assert(remotes.deep_view() =~= trimmed_lines(remote_output@));
    choose_upstream_remote(&remotes)
}

/// Whether `c` has the Unicode White_Space property, as `char::is_whitespace` tells.
pub uninterp spec fn white_space(c: char) -> bool;

/// Whether `c` is a Unicode word character (Alphabetic, Join_Control,
/// Decimal_Number, Mark or Connector_Punctuation), as
/// `regex_syntax::is_word_character` tells.
pub uninterp spec fn word_char_of(c: char) -> bool;

/// Relies on `char::is_whitespace`: true exactly for the characters with the
/// White_Space property.
#[verifier::external_body]
fn is_white_space(c: char) -> (r: bool)
    ensures
        r == white_space(c),
{
    c.is_whitespace()
}

/// Relies on `regex_syntax::is_word_character`: the `\w` class of the regex
/// crate. It panics only without the `unicode-perl` feature, which the
/// dependency enables.
#[verifier::external_body]
fn is_word_character(c: char) -> (r: bool)
    ensures
        r == word_char_of(c),
{
    regex_syntax::is_word_character(c)
}

/// Character classes of the branch listings that git prints.
#[derive(Clone, Copy, Debug, PartialEq, Eq, Structural)]
pub enum CharClass {
    /// Unicode white space.
    Space,
    /// Unicode word characters.
    Word,
    /// Word characters, `/` and `-`.
    BranchName,
    /// Word characters, `/`, `-` and `.`.
    RefName,
    /// `0`-`9` and `a`-`f`.
    Hex,
}

pub open spec fn in_class(class: CharClass, c: char) -> bool {
    match class {
        CharClass::Space => white_space(c),
        CharClass::Word => word_char_of(c),
        CharClass::BranchName => word_char_of(c) || c == '/' || c == '-',
        CharClass::RefName => word_char_of(c) || c == '/' || c == '-' || c == '.',
        CharClass::Hex => is_digit(c) || ('a' <= c && c <= 'f'),
    }
}

/// The number of consecutive characters of `class` in `s` from position `i` on.
pub open spec fn run_from(s: Seq<char>, i: int, class: CharClass) -> nat
    decreases s.len() - i,
{
    if 0 <= i < s.len() && in_class(class, s[i]) {
        1 + run_from(s, i + 1, class)
    } else {
        0
    }
}

/// Where the run of `class` that starts at `i` ends.
pub open spec fn run_end(s: Seq<char>, i: int, class: CharClass) -> int {
    i + run_from(s, i, class)
}

/// The remote and the branch that a line of `git branch --list -r` names:
/// white space, a remote name of word characters, `/`, then a branch name
/// that runs to the end of the line.
pub open spec fn remote_branch_of(line: Seq<char>) -> Option<(Seq<char>, Seq<char>)> {
    let w0 = run_end(line, 0, CharClass::Space);
    let w1 = run_end(line, w0, CharClass::Word);
    if w0 > 0 && w1 > w0 && text_at(line, w1, seq!['/']) && w1 + 1 < line.len() && run_end(
        line,
        w1 + 1,
        CharClass::BranchName,
    ) == line.len() {
        Some((line.subrange(w0, w1), line.subrange(w1 + 1, line.len() as int)))
    } else {
        None
    }
}

/// The branches of `remote` that `lines` list, in their order.
pub open spec fn remote_branches(lines: Seq<Seq<char>>, remote: Seq<char>) -> Seq<Seq<char>>
    decreases lines.len(),
{
    if lines.len() == 0 {
        Seq::empty()
    } else {
        let earlier = remote_branches(lines.drop_last(), remote);
        match remote_branch_of(lines.last()) {
            Some((r, branch)) => if r == remote {
                earlier.push(branch)
            } else {
                earlier
            },
            None => earlier,
        }
    }
}

/// The local branch that a line of `git branch -vv` names when its upstream
/// is gone: white space, the branch, white space, a commit hash, then
/// ` [<upstream>: gone]`.
pub open spec fn stale_branch_of(line: Seq<char>) -> Option<Seq<char>> {
    let a = run_end(line, 0, CharClass::Space);
    let b = run_end(line, a, CharClass::RefName);
    let c = run_end(line, b, CharClass::Space);
    let d = run_end(line, c, CharClass::Hex);
    let e = run_end(line, d + 2, CharClass::RefName);
    if a > 0 && b > a && c > b && d > c && text_at(line, d, seq![' ', '[']) && e > d + 2 && text_at(
        line,
        e,
        seq![':', ' ', 'g', 'o', 'n', 'e', ']'],
    ) {
        Some(line.subrange(a, b))
    } else {
        None
    }
}

/// The stale branches that `lines` list, in their order.
pub open spec fn stale_branches(lines: Seq<Seq<char>>) -> Seq<Seq<char>>
    decreases lines.len(),
{
    if lines.len() == 0 {
        Seq::empty()
    } else {
        let earlier = stale_branches(lines.drop_last());
        match stale_branch_of(lines.last()) {
            Some(branch) => earlier.push(branch),
            None => earlier,
        }
    }
}

/// The main line among `branches`: the first of `master`, `main` and `trunk`
/// that is there.
pub open spec fn chosen_master(branches: Seq<Seq<char>>) -> Option<&'static str> {
    if branches.contains("master"@) {
        Some("master")
    } else if branches.contains("main"@) {
        Some("main")
    } else if branches.contains("trunk"@) {
        Some("trunk")
    } else {
        None
    }
}

fn char_in(class: CharClass, c: char) -> (r: bool)
    ensures
        r == in_class(class, c),
{
    match class {
        CharClass::Space => is_white_space(c),
        CharClass::Word => is_word_character(c),
        CharClass::BranchName => is_word_character(c) || c == '/' || c == '-',
        CharClass::RefName => is_word_character(c) || c == '/' || c == '-' || c == '.',
        CharClass::Hex => {
            assert(is_digit(c) <==> ('0' <= c && c <= '9'));
            ('0' <= c && c <= '9') || ('a' <= c && c <= 'f')
        },
    }
}

proof fn lemma_run(s: Seq<char>, start: int, end: int, class: CharClass)
    requires
        0 <= start <= end <= s.len(),
        forall|k: int| start <= k < end ==> in_class(class, #[trigger] s[k]),
        end == s.len() || !in_class(class, s[end]),
    ensures
        run_from(s, start, class) == end - start,
    decreases end - start,
{
    if start < end {
        lemma_run(s, start + 1, end, class);
    }
}

/// Where the run of `class` that starts at `start` ends.
fn scan_run(s: &str, len: usize, start: usize, class: CharClass) -> (end: usize)
    requires
        len == s@.len(),
        start <= len,
    ensures
        end == run_end(s@, start as int, class),
        end <= len,
{
    let mut i: usize = start;
    while i < len
        invariant
            len == s@.len(),
            start <= i <= len,
            forall|k: int| start <= k < i ==> in_class(class, #[trigger] s@[k]),
        ensures
            start <= i <= len,
            forall|k: int| start <= k < i ==> in_class(class, #[trigger] s@[k]),
            i == len || !in_class(class, s@[i as int]),
        decreases len - i,
    {
        if !char_in(class, s.get_char(i)) {
            break;
        }
        i = i + 1;
    }
    proof {
        lemma_run(s@, start as int, i as int, class);
    }
    i
}

/// The characters of `s` from `from` to `to`.
fn slice_text(s: &str, from: usize, to: usize) -> (r: String)
    requires
        from <= to <= s@.len(),
    ensures
        r@ == s@.subrange(from as int, to as int),
{
    String::from_str(s.substring_char(from, to))
}

/// The branch of `remote` that a line of `git branch --list -r` names, if any.
fn remote_branch_in(line: &str, remote: &str) -> (r: Option<String>)
    ensures
        r matches Some(b) ==> remote_branch_of(line@) matches Some((rm, branch)) && rm == remote@
            && b@ == branch,
        r is None ==> !(remote_branch_of(line@) matches Some((rm, _)) && rm == remote@),
{
    proof {
        reveal_strlit("/");
        assert("/"@ =~= seq!['/']);
    }
    let len = line.unicode_len();
    let w0 = scan_run(line, len, 0, CharClass::Space);
    let w1 = scan_run(line, len, w0, CharClass::Word);
    if w0 == 0 || w1 == w0 || !has_text(line, len, w1, "/") || w1 + 1 >= len {
        return None;
    }
    if scan_run(line, len, w1 + 1, CharClass::BranchName) != len {
        return None;
    }
    let name = slice_text(line, w0, w1);
    if !is_text(name.as_str(), remote) {
        return None;
    }
    Some(slice_text(line, w1 + 1, len))
}

/// The branch that a line of `git branch -vv` names when its upstream is gone.
fn stale_branch_in(line: &str) -> (r: Option<String>)
    ensures
        r matches Some(b) ==> stale_branch_of(line@) == Some(b@),
        r is None ==> stale_branch_of(line@) is None,
{
    proof {
        reveal_strlit(" [");
        reveal_strlit(": gone]");
        assert(" ["@ =~= seq![' ', '[']);
        assert(": gone]"@ =~= seq![':', ' ', 'g', 'o', 'n', 'e', ']']);
    }
    let len = line.unicode_len();
    let a = scan_run(line, len, 0, CharClass::Space);
    let b = scan_run(line, len, a, CharClass::RefName);
    let c = scan_run(line, len, b, CharClass::Space);
    let d = scan_run(line, len, c, CharClass::Hex);
    if a == 0 || b == a || c == b || d == c || !has_text(line, len, d, " [") {
        return None;
    }
    let e = scan_run(line, len, d + 2, CharClass::RefName);
    if e == d + 2 || !has_text(line, len, e, ": gone]") {
        return None;
    }
    Some(slice_text(line, a, b))
}

/// The branches of `remote` that the lines of `git branch --list -r` name.
pub fn build_remote_branch_set(remote: &str, listing: &Vec<String>) -> (r: Vec<String>)
    ensures
        r.deep_view() == remote_branches(listing.deep_view(), remote@),
{
    let ghost all = listing.deep_view();
    let mut branches: Vec<String> = Vec::new();
    let mut i: usize = 0;
    while i < listing.len()
        invariant
            listing.deep_view() == all,
            i <= listing.len(),
            branches.deep_view() == remote_branches(all.subrange(0, i as int), remote@),
        decreases listing.len() - i,
    {
        assert(all.subrange(0, i + 1).drop_last() =~= all.subrange(0, i as int));
        assert(listing[i as int]@ == all[i as int]);
        match remote_branch_in(listing[i].as_str(), remote) {
            Some(branch) => {
                branches.push(branch);
                assert(branches.deep_view() =~= remote_branches(all.subrange(0, i + 1), remote@));
            },
            None => {},
        }
        i = i + 1;
    }
    assert(all.subrange(0, i as int) =~= all);
    branches
}

/// The main line among the branches of a remote: the first of `master`,
/// `main` and `trunk` that is there.
pub fn choose_master_branch(branches: &Vec<String>) -> (r: Result<&'static str, GitError>)
    ensures
        r == (match chosen_master(branches.deep_view()) {
            Some(name) => Ok::<&'static str, GitError>(name),
            None => Err(GitError::NoMasterBranch),
        }),
{
    if contains_name(branches, "master") {
        Ok("master")
    } else if contains_name(branches, "main") {
        Ok("main")
    } else if contains_name(branches, "trunk") {
        Ok("trunk")
    } else {
        Err(GitError::NoMasterBranch)
    }
}

/// The main line of `remote`, given the output of `git branch --list -r`.
pub fn detect_master_branch(remote: &str, branch_output: &str) -> (r: Result<
    &'static str,
    GitError,
>)
    ensures
        r == (match chosen_master(remote_branches(lines_of(branch_output@), remote@)) {
            Some(name) => Ok::<&'static str, GitError>(name),
            None => Err(GitError::NoMasterBranch),
        }),
{
    let listing = lines(branch_output);
    let branches = build_remote_branch_set(remote, &listing);
    choose_master_branch(&branches)
}

/// The local branches whose upstream is gone, among the lines of `git branch -vv`.
pub fn collect_stale_branches(listing: &Vec<String>) -> (r: Vec<String>)
    ensures
        r.deep_view() == stale_branches(listing.deep_view()),
{
    let ghost all = listing.deep_view();
    let mut stale: Vec<String> = Vec::new();
    let mut i: usize = 0;
    while i < listing.len()
        invariant
            listing.deep_view() == all,
            i <= listing.len(),
            stale.deep_view() == stale_branches(all.subrange(0, i as int)),
        decreases listing.len() - i,
    {
        assert(all.subrange(0, i + 1).drop_last() =~= all.subrange(0, i as int));
        assert(listing[i as int]@ == all[i as int]);
        match stale_branch_in(listing[i].as_str()) {
            Some(branch) => {
                stale.push(branch);
                assert(stale.deep_view() =~= stale_branches(all.subrange(0, i + 1)));
            },
            None => {},
        }
        i = i + 1;
    }
    assert(all.subrange(0, i as int) =~= all);
    stale
}

/// The local branches whose upstream is gone, given the output of `git branch -vv`.
pub fn detect_stale_branches(branch_output: &str) -> (r: Vec<String>)
    ensures
        r.deep_view() == stale_branches(lines_of(branch_output@)),
{
    collect_stale_branches(&lines(branch_output))
}

/// Whether `name` is among `names`.
fn contains_name(names: &Vec<String>, name: &str) -> (r: bool)
    ensures
        r == names.deep_view().contains(name@),
{
    let mut i: usize = 0;
    while i < names.len()
        invariant
            i <= names.len(),
            forall|j: int| 0 <= j < i ==> names.deep_view()[j] != name@,
        decreases names.len() - i,
    {
        if is_text(names[i].as_str(), name) {
            assert(names.deep_view()[i as int] == name@);
            return true;
        }
        i = i + 1;
    }
    false
}

/// Whether a signing key is configured, given the output of
/// `git config user.signingkey` (`None` where the command failed).
pub fn has_signing_key(config_output: Option<&str>) -> (r: bool)
    ensures
        r == (config_output matches Some(out) && trim_of(out@).len() > 0),
{
    match config_output {
        Some(out) => trim(out).unicode_len() > 0,
        None => false,
    }
}

/// The arguments of `git tag` that create the tag `name`: signed (`-s`)
/// where a signing key is configured, else annotated (`-a`), with the name
/// as its message.
pub fn create_tag(name: &str, signing_key_output: Option<&str>) -> (r: Vec<String>)
    ensures
        r.deep_view() == seq![
            "tag"@,
            if signing_key_output matches Some(out) && trim_of(out@).len() > 0 {
                "-s"@
            } else {
                "-a"@
            },
            name@,
            "-m"@,
            name@,
        ],
{
    let sign_type = if has_signing_key(signing_key_output) {
        "-s"
    } else {
        "-a"
    };
    let mut args: Vec<String> = Vec::new();
    args.push(String::from_str("tag"));
    args.push(String::from_str(sign_type));
    args.push(String::from_str(name));
    args.push(String::from_str("-m"));
    args.push(String::from_str(name));
    assert(args.deep_view() =~= seq![
        "tag"@,
        sign_type@,
        name@,
        "-m"@,
        name@,
    ]);
    args
}

/// The arguments of `git push` that publish `tag` to `remote`.
pub fn push_tag(remote: &str, tag: &str) -> (r: Vec<String>)
    ensures
        r.deep_view() == seq!["push"@, remote@, tag@],
{
    let mut args: Vec<String> = Vec::new();
    args.push(String::from_str("push"));
    args.push(String::from_str(remote));
    args.push(String::from_str(tag));
    assert(args.deep_view() =~= seq!["push"@, remote@, tag@]);
    args
}

/// Whether the working copy has changes, given whether
/// `git diff --exit-code` succeeded.
pub fn has_working_changes(diff_succeeded: bool) -> (r: bool)
    ensures
        r == !diff_succeeded,
{
    !diff_succeeded
}

/// The position of the first `/` in `s` at or after `i`, or `s.len()`.
pub open spec fn first_slash_from(s: Seq<char>, i: int) -> int
    decreases s.len() - i,
{
    if i < 0 || i >= s.len() {
        s.len() as int
    } else if s[i] == '/' {
        i
    } else {
        first_slash_from(s, i + 1)
    }
}

/// The directory that cloning the SSH URL `uri` (`git@<host>/<path>.git`,
/// on one line) creates: the text from the first `/` after `git@` up to the
/// final `.git`.
pub open spec fn clone_directory_of(uri: Seq<char>) -> Option<Seq<char>> {
    let slash = first_slash_from(uri, 4);
    if text_at(uri, 0, seq!['g', 'i', 't', '@']) && (forall|k: int|
        0 <= k < uri.len() ==> #[trigger] uri[k] != '\n') && slash + 5 <= uri.len() && text_at(
        uri,
        uri.len() - 4,
        seq!['.', 'g', 'i', 't'],
    ) {
        Some(uri.subrange(slash + 1, uri.len() - 4))
    } else {
        None
    }
}

/// The directory that `git clone <uri>` creates for an SSH URL, or `None`
/// where `uri` is not of the form `git@<host>/<path>.git`.
pub fn clone_directory(uri: &str) -> (r: Option<String>)
    ensures
        r matches Some(dir) ==> clone_directory_of(uri@) == Some(dir@),
        r is None ==> clone_directory_of(uri@) is None,
{
    proof {
        reveal_strlit("git@");
        reveal_strlit(".git");
        assert("git@"@ =~= seq!['g', 'i', 't', '@']);
        assert(".git"@ =~= seq!['.', 'g', 'i', 't']);
    }
    let len = uri.unicode_len();
    if len < 4 || !has_text(uri, len, 0, "git@") || !has_text(uri, len, len - 4, ".git") {
        return None;
    }
    let mut i: usize = 0;
    while i < len
        invariant
            len == uri@.len(),
            i <= len,
            forall|k: int| 0 <= k < i ==> #[trigger] uri@[k] != '\n',
        decreases len - i,
    {
        if uri.get_char(i) == '\n' {
            return None;
        }
        i = i + 1;
    }
    let mut slash: usize = 4;
    while slash < len
        invariant
            len == uri@.len(),
            4 <= slash <= len,
            first_slash_from(uri@, 4) == first_slash_from(uri@, slash as int),
        ensures
            first_slash_from(uri@, 4) == slash,
        decreases len - slash,
    {
        if uri.get_char(slash) == '/' {
            break;
        }
        slash = slash + 1;
    }
    if slash > len - 5 || len < 5 {
        return None;
    }
    Some(slice_text(uri, slash + 1, len - 4))
}

} // verus!
