use prompt::ansi::Shell;
use prompt::git::{
    git, head_fragment, is_detached_shorthand, AheadBehind, GitError, HeadInfo, RepoOpState,
    RepoSnapshot, StatusFlags, UpstreamInfo,
};

fn b(s: &str) -> Vec<u8> {
    s.as_bytes().to_vec()
}

fn zsh_wrap(code: &str) -> String {
    format!("%{{{}%}}", code)
}

fn flags() -> StatusFlags {
    StatusFlags::empty()
}

#[test]
fn marker_ahead_only() {
    let ab = AheadBehind { ahead: 3, behind: 0 };
    assert_eq!(ab.as_bytes(), b("A"));
}

#[test]
fn marker_behind_only() {
    let ab = AheadBehind { ahead: 0, behind: 5 };
    assert_eq!(ab.as_bytes(), b("B"));
}

#[test]
fn marker_diverged() {
    let ab = AheadBehind { ahead: 2, behind: 2 };
    assert_eq!(ab.as_bytes(), b("AB"));
}

#[test]
fn marker_level() {
    let ab = AheadBehind { ahead: 0, behind: 0 };
    assert_eq!(ab.as_bytes(), b(""));
}

#[test]
fn status_flags_one_untracked_one_staged_modified() {
    // One new untracked file and one modified-staged file: the aggregate
    // holds exactly those two facets, rendered in the fixed order.
    let untracked = StatusFlags { wt_new: true, ..flags() };
    let staged_modified = StatusFlags { index_modified: true, ..flags() };
    let agg = StatusFlags::aggregate(&vec![untracked, staged_modified]);
    assert_eq!(
        agg,
        StatusFlags { wt_new: true, index_modified: true, ..flags() }
    );
    assert_eq!(agg.as_bytes(), b("nM"));
}

#[test]
fn status_flags_full_order() {
    let all = StatusFlags {
        conflicted: true,
        wt_new: true,
        index_new: true,
        wt_modified: true,
        index_modified: true,
        wt_typechange: true,
        index_typechange: true,
        wt_renamed: true,
        index_renamed: true,
        wt_deleted: true,
        index_deleted: true,
    };
    assert_eq!(all.as_bytes(), b("CnNmMtTrRdD"));
}

#[test]
fn status_flags_empty_renders_nothing() {
    assert_eq!(StatusFlags::aggregate(&vec![]).as_bytes(), b(""));
}

#[test]
fn head_unborn_strips_ref_namespace() {
    let head = HeadInfo::Unborn { symbolic_target: b("refs/heads/main") };
    let (label, ab) = head_fragment(&head).unwrap();
    assert_eq!(label, b("main"));
    assert_eq!(ab, None);
}

#[test]
fn head_unborn_outside_namespace_is_an_error() {
    let head = HeadInfo::Unborn { symbolic_target: b("main") };
    assert_eq!(head_fragment(&head), Err(GitError::MissingRefPrefix));
}

#[test]
fn head_detached_uses_short_hash() {
    let head = HeadInfo::Detached { short_hash: b("abcdef0") };
    let (label, ab) = head_fragment(&head).unwrap();
    assert_eq!(label, b("abcdef0"));
    assert_eq!(ab, None);
}

#[test]
fn head_branch_without_upstream_uses_local_name() {
    let head = HeadInfo::Branch { name: b("main"), upstream: None };
    let (label, ab) = head_fragment(&head).unwrap();
    assert_eq!(label, b("main"));
    assert_eq!(ab, None);
}

#[test]
fn head_matching_upstream_renders_remote_qualified_name_alone() {
    let head = HeadInfo::Branch {
        name: b("main"),
        upstream: Some(UpstreamInfo {
            full_name: b("origin/main"),
            remote_name: b("origin"),
            ahead: 0,
            behind: 0,
        }),
    };
    let (label, ab) = head_fragment(&head).unwrap();
    assert_eq!(label, b("origin/main"));
    assert_eq!(ab, Some(AheadBehind { ahead: 0, behind: 0 }));
}

#[test]
fn head_diverging_name_renders_both_with_one_colon() {
    let head = HeadInfo::Branch {
        name: b("dev"),
        upstream: Some(UpstreamInfo {
            full_name: b("origin/main"),
            remote_name: b("origin"),
            ahead: 1,
            behind: 2,
        }),
    };
    let (label, ab) = head_fragment(&head).unwrap();
    assert_eq!(label, b("dev:origin/main"));
    assert_eq!(label.iter().filter(|&&c| c == b':').count(), 1);
    assert_eq!(ab, Some(AheadBehind { ahead: 1, behind: 2 }));
}

#[test]
fn head_upstream_without_remote_prefix_is_an_error() {
    let head = HeadInfo::Branch {
        name: b("main"),
        upstream: Some(UpstreamInfo {
            full_name: b("main"),
            remote_name: b("origin"),
            ahead: 0,
            behind: 0,
        }),
    };
    assert_eq!(head_fragment(&head), Err(GitError::MissingRemotePrefix));
}

#[test]
fn op_state_labels() {
    assert_eq!(RepoOpState::Clean.label(), b(""));
    assert_eq!(RepoOpState::Merge.label(), b("merge"));
    assert_eq!(RepoOpState::Revert.label(), b("revert"));
    assert_eq!(RepoOpState::RevertSequence.label(), b("revert-sequence"));
    assert_eq!(RepoOpState::CherryPick.label(), b("cherry-pick"));
    assert_eq!(
        RepoOpState::CherryPickSequence.label(),
        b("cherry-pick-sequence")
    );
    assert_eq!(RepoOpState::Bisect.label(), b("bisect"));
    assert_eq!(RepoOpState::Rebase.label(), b("rebase"));
    assert_eq!(RepoOpState::RebaseInteractive.label(), b("rebase-interactive"));
    assert_eq!(RepoOpState::RebaseMerge.label(), b("rebase-merge"));
    assert_eq!(RepoOpState::ApplyMailbox.label(), b("apply-mailbox"));
    assert_eq!(
        RepoOpState::ApplyMailboxOrRebase.label(),
        b("apply-mailbox-or-rebase")
    );
}

#[test]
fn unborn_repository_fragment() {
    // An unborn branch named main: the label is exactly main, with no
    // status characters, no ahead/behind marker and no stash mark.
    let snapshot = RepoSnapshot {
        op_state: RepoOpState::Clean,
        head: HeadInfo::Unborn { symbolic_target: b("refs/heads/main") },
        status_entries: vec![],
        has_stash: false,
    };
    let out = git(&snapshot, Shell::Zsh).unwrap();
    let expected = format!(
        "{}main{}{}",
        zsh_wrap("\x1b[2;39m"),
        zsh_wrap("\x1b[0;33m"),
        zsh_wrap("\x1b[0;39m"),
    );
    assert_eq!(out, expected.into_bytes());
}

#[test]
fn detached_repository_fragment() {
    // A detached head: the label is the backend's abbreviated hash, with no
    // ahead/behind marker.
    let snapshot = RepoSnapshot {
        op_state: RepoOpState::Clean,
        head: HeadInfo::Detached { short_hash: b("abcdef0") },
        status_entries: vec![],
        has_stash: false,
    };
    let out = git(&snapshot, Shell::Zsh).unwrap();
    let expected = format!(
        "{}abcdef0{}{}",
        zsh_wrap("\x1b[2;39m"),
        zsh_wrap("\x1b[0;33m"),
        zsh_wrap("\x1b[0;39m"),
    );
    assert_eq!(out, expected.into_bytes());
}

#[test]
fn tracking_repository_fragment_with_status_and_stash() {
    let snapshot = RepoSnapshot {
        op_state: RepoOpState::Clean,
        head: HeadInfo::Branch {
            name: b("main"),
            upstream: Some(UpstreamInfo {
                full_name: b("origin/main"),
                remote_name: b("origin"),
                ahead: 2,
                behind: 0,
            }),
        },
        status_entries: vec![StatusFlags { wt_new: true, ..flags() }],
        has_stash: true,
    };
    let out = git(&snapshot, Shell::Zsh).unwrap();
    let expected = format!(
        "{}origin/main{}n{}AS",
        zsh_wrap("\x1b[2;39m"),
        zsh_wrap("\x1b[0;33m"),
        zsh_wrap("\x1b[0;39m"),
    );
    assert_eq!(out, expected.into_bytes());
}

#[test]
fn ongoing_operation_replaces_head_label() {
    let snapshot = RepoSnapshot {
        op_state: RepoOpState::Rebase,
        head: HeadInfo::Branch { name: b("main"), upstream: None },
        status_entries: vec![],
        has_stash: false,
    };
    let out = git(&snapshot, Shell::Zsh).unwrap();
    let expected = format!(
        "{}rebase{}{}",
        zsh_wrap("\x1b[2;39m"),
        zsh_wrap("\x1b[0;33m"),
        zsh_wrap("\x1b[0;39m"),
    );
    assert_eq!(out, expected.into_bytes());
}

#[test]
fn corrupt_head_fails_the_fragment() {
    let snapshot = RepoSnapshot {
        op_state: RepoOpState::Clean,
        head: HeadInfo::Unborn { symbolic_target: b("HEAD") },
        status_entries: vec![],
        has_stash: false,
    };
    assert_eq!(git(&snapshot, Shell::Zsh), Err(GitError::MissingRefPrefix));
}

#[test]
fn detached_sentinel_is_recognized() {
    assert!(is_detached_shorthand(&b("HEAD")));
    assert!(!is_detached_shorthand(&b("main")));
    assert!(!is_detached_shorthand(&b("head")));
}
