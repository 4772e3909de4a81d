//! Repository-state summarizing: head label, upstream tracking with an
//! ahead/behind marker, aggregated status flags and stash presence.
//!
//! The module works on a plain snapshot of what the version-control backend
//! reported.  Gathering that snapshot (reference resolution, status walks,
//! reflog reads) is on-disk work that stays outside the library; everything
//! the snapshot decides about the rendered fragment is verified here.
use crate::ansi::{spec_fg_dim, spec_fg_normal, spec_yellow_normal, Shell};
use crate::bytestr::{append_bytes, ascii_bytes, ascii_seq, bytes_eq, clone_bytes, is_prefix_of,
    strip_prefix_bytes};
use vstd::prelude::*;

verus! {

/// The slash between a remote name and the branch-local part of an
/// upstream's full name.
pub const SLASH: u8 = 47;

/// The colon between a local branch name and a diverging upstream name.
pub const COLON: u8 = 58;

/// Unrecoverable backend conditions: repository metadata that a discovered
/// repository must be able to present was malformed.
#[derive(Clone, Copy, Debug, PartialEq, Eq, Structural)]
pub enum GitError {
    /// An unborn head's symbolic target did not lie in the local branch
    /// reference namespace.
    MissingRefPrefix,
    /// An upstream's full name did not start with its own remote name and a
    /// slash.
    MissingRemotePrefix,
}

/// What the backend reported about a local branch's remote-tracking branch.
#[derive(Debug)]
pub struct UpstreamInfo {
    /// The remote-qualified name, such as a remote name, a slash and the
    /// branch-local name.
    pub full_name: Vec<u8>,
    /// The name of the remote alone.
    pub remote_name: Vec<u8>,
    /// Commits reachable from the local tip but not the upstream tip.
    pub ahead: usize,
    /// Commits reachable from the upstream tip but not the local tip.
    pub behind: usize,
}

/// What the backend reported about the repository's head.
#[derive(Debug)]
pub enum HeadInfo {
    /// The head reference names a branch that has no commit yet; the field
    /// holds the symbolic target, normally inside the local branch
    /// reference namespace.
    Unborn { symbolic_target: Vec<u8> },
    /// The head points at a commit and not at a named branch; the field
    /// holds the backend's abbreviated hash of that commit.
    Detached { short_hash: Vec<u8> },
    /// The head names a local branch, possibly with a tracking branch.
    Branch { name: Vec<u8>, upstream: Option<UpstreamInfo> },
}

/// Ahead/behind divergence between a local branch tip and its upstream tip.
#[derive(Clone, Copy, Debug, PartialEq, Eq, Structural)]
pub struct AheadBehind {
    pub ahead: usize,
    pub behind: usize,
}

/// The divergence class marker: `AB` for diverged, `A` for ahead only,
/// `B` for behind only, nothing for level history.
pub open spec fn spec_marker(ab: AheadBehind) -> Seq<u8> {
    if ab.ahead > 0 && ab.behind > 0 {
        seq![65u8, 66u8]
    } else if ab.ahead > 0 {
        seq![65u8]
    } else if ab.behind > 0 {
        seq![66u8]
    } else {
        Seq::<u8>::empty()
    }
}

impl AheadBehind {
    /// Render the divergence class of these counts.
    pub fn as_bytes(&self) -> (r: Vec<u8>)
        ensures
            r@ == spec_marker(*self),
    {
        let mut out: Vec<u8> = Vec::new();
        if self.ahead > 0 {
            out.push(65);
        }
        if self.behind > 0 {
            out.push(66);
        }
        proof {
            assert(out@ =~= spec_marker(*self));
        }
        out
    }
}

/// The shorthand the backend reports for a head that is not a named branch.
pub open spec fn spec_detached_sentinel() -> Seq<u8> {
    ascii_seq("HEAD"@)
}

/// Whether a resolved head's shorthand is the literal sentinel meaning
/// detached, rather than the name of a local branch.
pub fn is_detached_shorthand(shorthand: &Vec<u8>) -> (r: bool)
    ensures
        r == (shorthand@ == spec_detached_sentinel()),
{
    proof {
        reveal_strlit("HEAD");
        assert(vstd::string::is_ascii("HEAD"));
    }
    bytes_eq(shorthand, &ascii_bytes("HEAD"))
}

/// The local branch reference namespace that an unborn head's symbolic
/// target is expected to lie in.
pub open spec fn spec_refs_heads() -> Seq<u8> {
    ascii_seq("refs/heads/"@)
}

/// The bytes of the local branch reference namespace prefix.
pub fn refs_heads_prefix() -> (r: Vec<u8>)
    ensures
        r@ == spec_refs_heads(),
{
    proof {
        reveal_strlit("refs/heads/");
        assert(vstd::string::is_ascii("refs/heads/"));
    }
    ascii_bytes("refs/heads/")
}

/// The head label and the optional ahead/behind counts that a head resolves
/// to.
///
/// An unborn head is labelled with its branch's short name; a detached head
/// with the commit's abbreviated hash; a branch without upstream with its
/// own name.  A branch with an upstream whose branch-local name equals the
/// local name is labelled with the remote-qualified upstream name alone;
/// where the names differ, with the local name, a colon and the
/// remote-qualified upstream name.  Malformed reference names are
/// unrecoverable errors.
pub open spec fn spec_head_fragment(h: HeadInfo) -> Result<(Seq<u8>, Option<AheadBehind>), GitError> {
    match h {
        HeadInfo::Unborn { symbolic_target } => {
            if is_prefix_of(spec_refs_heads(), symbolic_target@) {
                Ok(
                    (
                        symbolic_target@.subrange(
                            spec_refs_heads().len() as int,
                            symbolic_target@.len() as int,
                        ),
                        None,
                    ),
                )
            } else {
                Err(GitError::MissingRefPrefix)
            }
        },
        HeadInfo::Detached { short_hash } => Ok((short_hash@, None)),
        HeadInfo::Branch { name, upstream } => match upstream {
            None => Ok((name@, None)),
            Some(u) => {
                let full = u.full_name@;
                let remote = u.remote_name@;
                if is_prefix_of(remote.push(SLASH), full) {
                    let branch_local = full.subrange(remote.len() as int + 1, full.len() as int);
                    let ab = AheadBehind { ahead: u.ahead, behind: u.behind };
                    if branch_local == name@ {
                        Ok((full, Some(ab)))
                    } else {
                        Ok((name@ + seq![COLON] + full, Some(ab)))
                    }
                } else {
                    Err(GitError::MissingRemotePrefix)
                }
            },
        },
    }
}

/// Render the head label and hand back the ahead/behind counts where the
/// head tracks an upstream.
pub fn head_fragment(h: &HeadInfo) -> (r: Result<(Vec<u8>, Option<AheadBehind>), GitError>)
    ensures
        r is Ok <==> spec_head_fragment(*h) is Ok,
        r matches Ok(p) ==> spec_head_fragment(*h) matches Ok(q) && p.0@ == q.0 && p.1 == q.1,
        r matches Err(e) ==> spec_head_fragment(*h) matches Err(q) && e == q,
{
    match h {
        HeadInfo::Unborn { symbolic_target } => {
            let prefix = refs_heads_prefix();
            match strip_prefix_bytes(symbolic_target, &prefix) {
                Some(rest) => Ok((rest, None)),
                None => Err(GitError::MissingRefPrefix),
            }
        },
        HeadInfo::Detached { short_hash } => Ok((clone_bytes(short_hash), None)),
        HeadInfo::Branch { name, upstream } => match upstream {
            None => Ok((clone_bytes(name), None)),
            Some(u) => {
                let mut remote_slash = clone_bytes(&u.remote_name);
                remote_slash.push(SLASH);
                proof {
                    assert(remote_slash@ =~= u.remote_name@.push(SLASH));
                }
                match strip_prefix_bytes(&u.full_name, &remote_slash) {
                    None => Err(GitError::MissingRemotePrefix),
                    Some(branch_local) => {
                        let ab = AheadBehind { ahead: u.ahead, behind: u.behind };
                        if bytes_eq(name, &branch_local) {
                            Ok((clone_bytes(&u.full_name), Some(ab)))
                        } else {
                            let mut label = clone_bytes(name);
                            label.push(COLON);
                            append_bytes(&mut label, &u.full_name);
                            proof {
                                assert(label@ =~= name@ + seq![COLON] + u.full_name@);
                            }
                            Ok((label, Some(ab)))
                        }
                    },
                }
            },
        },
    }
}

/// A local branch whose name equals its upstream's branch-local name is
/// labelled with the remote-qualified upstream name alone: the local name
/// is not rendered a second time.
pub proof fn lemma_matching_upstream_label(name: Vec<u8>, u: UpstreamInfo)
    requires
        is_prefix_of(u.remote_name@.push(SLASH), u.full_name@),
        u.full_name@.subrange(u.remote_name@.len() as int + 1, u.full_name@.len() as int)
            == name@,
    ensures
        spec_head_fragment(HeadInfo::Branch { name, upstream: Some(u) }) matches Ok(p) && p.0
            == u.full_name@ && p.1 == Some(AheadBehind { ahead: u.ahead, behind: u.behind }),
{
}

/// A local branch whose name differs from its upstream's branch-local name
/// is labelled with both names, joined by a single colon: the local name,
/// one colon, then the remote-qualified upstream name, and nothing else.
pub proof fn lemma_diverging_upstream_label(name: Vec<u8>, u: UpstreamInfo)
    requires
        is_prefix_of(u.remote_name@.push(SLASH), u.full_name@),
        u.full_name@.subrange(u.remote_name@.len() as int + 1, u.full_name@.len() as int)
            != name@,
    ensures
        spec_head_fragment(HeadInfo::Branch { name, upstream: Some(u) }) matches Ok(p) && p.0
            == name@ + seq![COLON] + u.full_name@ && p.1 == Some(
            AheadBehind { ahead: u.ahead, behind: u.behind },
        ),
{
}

/// One facet set over the working tree and index of a single changed path,
/// or the aggregate over all of them.
#[derive(Clone, Copy, Debug, PartialEq, Eq, Structural)]
pub struct StatusFlags {
    pub conflicted: bool,
    pub wt_new: bool,
    pub index_new: bool,
    pub wt_modified: bool,
    pub index_modified: bool,
    pub wt_typechange: bool,
    pub index_typechange: bool,
    pub wt_renamed: bool,
    pub index_renamed: bool,
    pub wt_deleted: bool,
    pub index_deleted: bool,
}

/// No facet set.
pub open spec fn spec_empty_flags() -> StatusFlags {
    StatusFlags {
        conflicted: false,
        wt_new: false,
        index_new: false,
        wt_modified: false,
        index_modified: false,
        wt_typechange: false,
        index_typechange: false,
        wt_renamed: false,
        index_renamed: false,
        wt_deleted: false,
        index_deleted: false,
    }
}

/// Facet-wise disjunction of two flag sets.
pub open spec fn spec_union_flags(a: StatusFlags, b: StatusFlags) -> StatusFlags {
    StatusFlags {
        conflicted: a.conflicted || b.conflicted,
        wt_new: a.wt_new || b.wt_new,
        index_new: a.index_new || b.index_new,
        wt_modified: a.wt_modified || b.wt_modified,
        index_modified: a.index_modified || b.index_modified,
        wt_typechange: a.wt_typechange || b.wt_typechange,
        index_typechange: a.index_typechange || b.index_typechange,
        wt_renamed: a.wt_renamed || b.wt_renamed,
        index_renamed: a.index_renamed || b.index_renamed,
        wt_deleted: a.wt_deleted || b.wt_deleted,
        index_deleted: a.index_deleted || b.index_deleted,
    }
}

/// The union of the flag sets of every changed path.
pub open spec fn spec_aggregate(entries: Seq<StatusFlags>) -> StatusFlags
    decreases entries.len(),
{
    if entries.len() == 0 {
        spec_empty_flags()
    } else {
        spec_union_flags(spec_aggregate(entries.drop_last()), entries.last())
    }
}

/// Each facet of the aggregate holds exactly where some changed path holds
/// it.
pub proof fn lemma_aggregate_facets(entries: Seq<StatusFlags>)
    ensures
        spec_aggregate(entries).conflicted <==> exists|i: int|
            0 <= i < entries.len() && (#[trigger] entries[i]).conflicted,
        spec_aggregate(entries).wt_new <==> exists|i: int|
            0 <= i < entries.len() && (#[trigger] entries[i]).wt_new,
        spec_aggregate(entries).index_new <==> exists|i: int|
            0 <= i < entries.len() && (#[trigger] entries[i]).index_new,
        spec_aggregate(entries).wt_modified <==> exists|i: int|
            0 <= i < entries.len() && (#[trigger] entries[i]).wt_modified,
        spec_aggregate(entries).index_modified <==> exists|i: int|
            0 <= i < entries.len() && (#[trigger] entries[i]).index_modified,
        spec_aggregate(entries).wt_typechange <==> exists|i: int|
            0 <= i < entries.len() && (#[trigger] entries[i]).wt_typechange,
        spec_aggregate(entries).index_typechange <==> exists|i: int|
            0 <= i < entries.len() && (#[trigger] entries[i]).index_typechange,
        spec_aggregate(entries).wt_renamed <==> exists|i: int|
            0 <= i < entries.len() && (#[trigger] entries[i]).wt_renamed,
        spec_aggregate(entries).index_renamed <==> exists|i: int|
            0 <= i < entries.len() && (#[trigger] entries[i]).index_renamed,
        spec_aggregate(entries).wt_deleted <==> exists|i: int|
            0 <= i < entries.len() && (#[trigger] entries[i]).wt_deleted,
        spec_aggregate(entries).index_deleted <==> exists|i: int|
            0 <= i < entries.len() && (#[trigger] entries[i]).index_deleted,
    decreases entries.len(),
{
    if entries.len() > 0 {
        lemma_aggregate_facets(entries.drop_last());
        assert(forall|i: int|
            0 <= i < entries.len() - 1 ==> entries[i] == entries.drop_last()[i]);
        assert(entries.last() == entries[entries.len() - 1]);
    }
}

impl StatusFlags {
    /// The flag set with no facet set.
    pub fn empty() -> (r: StatusFlags)
        ensures
            r == spec_empty_flags(),
    {
        StatusFlags {
            conflicted: false,
            wt_new: false,
            index_new: false,
            wt_modified: false,
            index_modified: false,
            wt_typechange: false,
            index_typechange: false,
            wt_renamed: false,
            index_renamed: false,
            wt_deleted: false,
            index_deleted: false,
        }
    }

    /// Facet-wise disjunction with another flag set.
    pub fn union(self, other: StatusFlags) -> (r: StatusFlags)
        ensures
            r == spec_union_flags(self, other),
    {
        StatusFlags {
            conflicted: self.conflicted || other.conflicted,
            wt_new: self.wt_new || other.wt_new,
            index_new: self.index_new || other.index_new,
            wt_modified: self.wt_modified || other.wt_modified,
            index_modified: self.index_modified || other.index_modified,
            wt_typechange: self.wt_typechange || other.wt_typechange,
            index_typechange: self.index_typechange || other.index_typechange,
            wt_renamed: self.wt_renamed || other.wt_renamed,
            index_renamed: self.index_renamed || other.index_renamed,
            wt_deleted: self.wt_deleted || other.wt_deleted,
            index_deleted: self.index_deleted || other.index_deleted,
        }
    }

    /// Union of the flag sets of every changed path.
    pub fn aggregate(entries: &Vec<StatusFlags>) -> (r: StatusFlags)
        ensures
            r == spec_aggregate(entries@),
    {
        let mut r = StatusFlags::empty();
        let mut i: usize = 0;
        proof {
            assert(entries@.take(0) =~= Seq::<StatusFlags>::empty());
        }
        while i < entries.len()
            invariant
                i <= entries@.len(),
                r == spec_aggregate(entries@.take(i as int)),
            decreases entries@.len() - i,
        {
            r = r.union(entries[i]);
            i = i + 1;
            proof {
                assert(entries@.take(i as int).drop_last() =~= entries@.take(i as int - 1));
                assert(entries@.take(i as int).last() == entries@[i as int - 1]);
            }
        }
        proof {
            assert(entries@.take(entries@.len() as int) =~= entries@);
        }
        r
    }

    /// Render the set facets, one character each, in the fixed order.
    pub fn as_bytes(&self) -> (r: Vec<u8>)
        ensures
            r@ == spec_status_bytes(*self),
    {
        let mut out: Vec<u8> = Vec::new();
        push_cond(&mut out, self.conflicted, 67);
        push_cond(&mut out, self.wt_new, 110);
        push_cond(&mut out, self.index_new, 78);
        push_cond(&mut out, self.wt_modified, 109);
        push_cond(&mut out, self.index_modified, 77);
        push_cond(&mut out, self.wt_typechange, 116);
        push_cond(&mut out, self.index_typechange, 84);
        push_cond(&mut out, self.wt_renamed, 114);
        push_cond(&mut out, self.index_renamed, 82);
        push_cond(&mut out, self.wt_deleted, 100);
        push_cond(&mut out, self.index_deleted, 68);
        out
    }
}

/// Append one character where a facet is set, nothing otherwise.
fn push_cond(out: &mut Vec<u8>, set: bool, c: u8)
    ensures
        final(out)@ == old(out)@ + cond_byte(set, c),
{
    if set {
        out.push(c);
        proof {
            assert(out@ =~= old(out)@ + cond_byte(set, c));
        }
    } else {
        proof {
            assert(out@ =~= old(out)@ + cond_byte(set, c));
        }
    }
}

/// The characters of the set facets, in the fixed order: conflicted `C`,
/// untracked-new `n`, staged-new `N`, unstaged-modified `m`,
/// staged-modified `M`, unstaged-typechange `t`, staged-typechange `T`,
/// unstaged-rename `r`, staged-rename `R`, unstaged-delete `d`,
/// staged-delete `D`.
pub open spec fn spec_status_bytes(f: StatusFlags) -> Seq<u8> {
    cond_byte(f.conflicted, 67) + cond_byte(f.wt_new, 110) + cond_byte(f.index_new, 78)
        + cond_byte(f.wt_modified, 109) + cond_byte(f.index_modified, 77)
        + cond_byte(f.wt_typechange, 116) + cond_byte(f.index_typechange, 84)
        + cond_byte(f.wt_renamed, 114) + cond_byte(f.index_renamed, 82)
        + cond_byte(f.wt_deleted, 100) + cond_byte(f.index_deleted, 68)
}

/// A single character where a facet is set, nothing otherwise.
pub open spec fn cond_byte(set: bool, c: u8) -> Seq<u8> {
    if set {
        seq![c]
    } else {
        Seq::<u8>::empty()
    }
}

/// The operation the repository is in the middle of, if any.
#[derive(Clone, Copy, Debug, PartialEq, Eq, Structural)]
pub enum RepoOpState {
    Clean,
    Merge,
    Revert,
    RevertSequence,
    CherryPick,
    CherryPickSequence,
    Bisect,
    Rebase,
    RebaseInteractive,
    RebaseMerge,
    ApplyMailbox,
    ApplyMailboxOrRebase,
}

/// The label of an ongoing operation; a clean repository has none.
pub open spec fn spec_op_state_label(s: RepoOpState) -> Seq<u8> {
    match s {
        RepoOpState::Clean => Seq::<u8>::empty(),
        RepoOpState::Merge => ascii_seq("merge"@),
        RepoOpState::Revert => ascii_seq("revert"@),
        RepoOpState::RevertSequence => ascii_seq("revert-sequence"@),
        RepoOpState::CherryPick => ascii_seq("cherry-pick"@),
        RepoOpState::CherryPickSequence => ascii_seq("cherry-pick-sequence"@),
        RepoOpState::Bisect => ascii_seq("bisect"@),
        RepoOpState::Rebase => ascii_seq("rebase"@),
        RepoOpState::RebaseInteractive => ascii_seq("rebase-interactive"@),
        RepoOpState::RebaseMerge => ascii_seq("rebase-merge"@),
        RepoOpState::ApplyMailbox => ascii_seq("apply-mailbox"@),
        RepoOpState::ApplyMailboxOrRebase => ascii_seq("apply-mailbox-or-rebase"@),
    }
}

impl RepoOpState {
    /// Render the label of an ongoing operation.
    pub fn label(self) -> (r: Vec<u8>)
        ensures
            r@ == spec_op_state_label(self),
    {
        match self {
            RepoOpState::Clean => Vec::new(),
            RepoOpState::Merge => {
                proof {
                    reveal_strlit("merge");
                    assert(vstd::string::is_ascii("merge"));
                }
                ascii_bytes("merge")
            },
            RepoOpState::Revert => {
                proof {
                    reveal_strlit("revert");
                    assert(vstd::string::is_ascii("revert"));
                }
                ascii_bytes("revert")
            },
            RepoOpState::RevertSequence => {
                proof {
                    reveal_strlit("revert-sequence");
                    assert(vstd::string::is_ascii("revert-sequence"));
                }
                ascii_bytes("revert-sequence")
            },
            RepoOpState::CherryPick => {
                proof {
                    reveal_strlit("cherry-pick");
                    assert(vstd::string::is_ascii("cherry-pick"));
                }
                ascii_bytes("cherry-pick")
            },
            RepoOpState::CherryPickSequence => {
                proof {
                    reveal_strlit("cherry-pick-sequence");
                    assert(vstd::string::is_ascii("cherry-pick-sequence"));
                }
                ascii_bytes("cherry-pick-sequence")
            },
            RepoOpState::Bisect => {
                proof {
                    reveal_strlit("bisect");
                    assert(vstd::string::is_ascii("bisect"));
                }
                ascii_bytes("bisect")
            },
            RepoOpState::Rebase => {
                proof {
                    reveal_strlit("rebase");
                    assert(vstd::string::is_ascii("rebase"));
                }
                ascii_bytes("rebase")
            },
            RepoOpState::RebaseInteractive => {
                proof {
                    reveal_strlit("rebase-interactive");
                    assert(vstd::string::is_ascii("rebase-interactive"));
                }
                ascii_bytes("rebase-interactive")
            },
            RepoOpState::RebaseMerge => {
                proof {
                    reveal_strlit("rebase-merge");
                    assert(vstd::string::is_ascii("rebase-merge"));
                }
                ascii_bytes("rebase-merge")
            },
            RepoOpState::ApplyMailbox => {
                proof {
                    reveal_strlit("apply-mailbox");
                    assert(vstd::string::is_ascii("apply-mailbox"));
                }
                ascii_bytes("apply-mailbox")
            },
            RepoOpState::ApplyMailboxOrRebase => {
                proof {
                    reveal_strlit("apply-mailbox-or-rebase");
                    assert(vstd::string::is_ascii("apply-mailbox-or-rebase"));
                }
                ascii_bytes("apply-mailbox-or-rebase")
            },
        }
    }
}

/// A read-only snapshot of everything the repository fragment depends on.
/// A bare repository, which has no working tree, has no status entries.
#[derive(Debug)]
pub struct RepoSnapshot {
    /// The operation the repository is in the middle of, if any.
    pub op_state: RepoOpState,
    /// What the head resolved to.
    pub head: HeadInfo,
    /// The status facets of every changed path, one entry per path.
    pub status_entries: Vec<StatusFlags>,
    /// Whether the stash reflog exists and is non-empty.
    pub has_stash: bool,
}

/// The head part of the repository fragment: the head label with its
/// ahead/behind counts for a clean repository, the bare operation label
/// otherwise.
pub open spec fn spec_state_part(snap: RepoSnapshot) -> Result<
    (Seq<u8>, Option<AheadBehind>),
    GitError,
> {
    if snap.op_state is Clean {
        spec_head_fragment(snap.head)
    } else {
        Ok((spec_op_state_label(snap.op_state), None))
    }
}

/// The whole repository fragment: the dimmed head or operation label, the
/// aggregated status characters in yellow, then back to the normal color
/// the ahead/behind marker and a stash mark.
pub open spec fn spec_git_fragment(snap: RepoSnapshot, shell: Shell) -> Result<Seq<u8>, GitError> {
    match spec_state_part(snap) {
        Err(e) => Err(e),
        Ok((label, ab)) => Ok(
            spec_fg_dim(shell) + label + spec_yellow_normal(shell) + spec_status_bytes(
                spec_aggregate(snap.status_entries@),
            ) + spec_fg_normal(shell) + (match ab {
                Some(m) => spec_marker(m),
                None => Seq::<u8>::empty(),
            }) + (if snap.has_stash {
                seq![83u8]
            } else {
                Seq::<u8>::empty()
            }),
        ),
    }
}

/// Render the repository fragment from a snapshot.  The only failures are
/// malformed reference names, which are unrecoverable backend conditions.
pub fn git(snapshot: &RepoSnapshot, shell: Shell) -> (r: Result<Vec<u8>, GitError>)
    ensures
        r is Ok <==> spec_git_fragment(*snapshot, shell) is Ok,
        r matches Ok(v) ==> spec_git_fragment(*snapshot, shell) matches Ok(s) && v@ == s,
        r matches Err(e) ==> spec_git_fragment(*snapshot, shell) matches Err(q) && e == q,
{
    let state_part: (Vec<u8>, Option<AheadBehind>) = if matches!(snapshot.op_state, RepoOpState::Clean) {
        match head_fragment(&snapshot.head) {
            Ok(p) => p,
            Err(e) => {
                return Err(e);
            },
        }
    } else {
        (snapshot.op_state.label(), None)
    };
    let mut out = shell.fg_dim();
    append_bytes(&mut out, &state_part.0);
    let yellow = shell.yellow_normal();
    append_bytes(&mut out, &yellow);
    let flags = StatusFlags::aggregate(&snapshot.status_entries);
    let status = flags.as_bytes();
    append_bytes(&mut out, &status);
    let normal = shell.fg_normal();
    append_bytes(&mut out, &normal);
    match &state_part.1 {
        Some(ab) => {
            let marker = ab.as_bytes();
            append_bytes(&mut out, &marker);
        },
        None => {},
    }
    if snapshot.has_stash {
        out.push(83);
    }
    proof {
        assert(out@ =~= spec_git_fragment(*snapshot, shell)->Ok_0);
    }
    Ok(out)
}

} // verus!
