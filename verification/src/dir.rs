//! Working-directory rendering: byte-level path truncation that keeps only
//! the last few components, home-to-tilde replacement, and the directory
//! prompt fragment.
//!
//! Paths are plain byte strings with a single-byte separator.  The scans work
//! backward from the end of the byte string, as the component model asks:
//! the final component starts right after the last separator, and the
//! ancestor window right after the n-th separator counted from the end.
//! A doubled separator therefore counts as an (empty) component boundary;
//! the contracts below state that behavior exactly rather than collapsing
//! consecutive separators.
use crate::ansi::{spec_cyan, spec_cyan_bold, spec_fg_bold, spec_fg_dim, spec_fg_normal, spec_red,
    spec_red_bold, spec_reset, Shell};
use crate::bytestr::{append_bytes, ascii_bytes, ascii_seq, bytes_eq, clone_bytes, is_prefix_of,
    opt_frag, opt_view, starts_with, subvec};
use crate::SEPARATOR;
use vstd::prelude::*;

verus! {

/// The byte that stands for the home directory after replacement.
pub const TILDE: u8 = 126;

/// A plain space byte.
pub const SPACE: u8 = 32;

/// How many trailing path components the directory fragment keeps.
pub const MAX_COMPONENTS: usize = 3;

pub open spec fn is_sep(b: u8) -> bool {
    b == SEPARATOR
}

/// The path that is the bare root: a single separator.
pub open spec fn is_root(s: Seq<u8>) -> bool {
    s.len() == 1 && is_sep(s[0])
}

/// One trailing separator is trimmed, except from the root itself.
pub open spec fn spec_trim(s: Seq<u8>) -> Seq<u8> {
    if s.len() > 1 && is_sep(s.last()) {
        s.drop_last()
    } else {
        s
    }
}

/// Start offset of the component that lies `n` separators back from the end:
/// the offset right after the `n+1`-th separator counted from the end, or
/// `None` where `s` holds at most `n` separators.
pub open spec fn nth_last_comp_start(s: Seq<u8>, n: nat) -> Option<int>
    decreases s.len(),
{
    if s.len() == 0 {
        None
    } else if is_sep(s.last()) {
        if n == 0 {
            Some(s.len() as int)
        } else {
            nth_last_comp_start(s.drop_last(), (n - 1) as nat)
        }
    } else {
        nth_last_comp_start(s.drop_last(), n)
    }
}

/// Number of separators in `s`.
pub open spec fn sep_count(s: Seq<u8>) -> nat
    decreases s.len(),
{
    if s.len() == 0 {
        0
    } else {
        sep_count(s.drop_last()) + if is_sep(s.last()) {
            1nat
        } else {
            0nat
        }
    }
}

/// Where the backward scan stops: right after the `n+1`-th separator from the
/// end, which leaves exactly `n` separators behind it.
proof fn lemma_nth_last_some(s: Seq<u8>, n: nat)
    requires
        nth_last_comp_start(s, n) is Some,
    ensures
        ({
            let p = nth_last_comp_start(s, n)->Some_0;
            &&& 1 <= p <= s.len()
            &&& is_sep(s[p - 1])
            &&& sep_count(s.subrange(p, s.len() as int)) == n
        }),
    decreases s.len(),
{
    let p = nth_last_comp_start(s, n)->Some_0;
    if is_sep(s.last()) {
        if n == 0 {
            assert(s.subrange(p, s.len() as int) =~= Seq::<u8>::empty());
        } else {
            lemma_nth_last_some(s.drop_last(), (n - 1) as nat);
            assert(s.subrange(p, s.len() as int).drop_last() =~= s.drop_last().subrange(
                p,
                s.len() - 1,
            ));
        }
    } else {
        lemma_nth_last_some(s.drop_last(), n);
        assert(s.subrange(p, s.len() as int).drop_last() =~= s.drop_last().subrange(
            p,
            s.len() - 1,
        ));
    }
}

/// Where the backward scan finds nothing, `s` holds at most `n` separators.
proof fn lemma_nth_last_none(s: Seq<u8>, n: nat)
    requires
        nth_last_comp_start(s, n) is None,
    ensures
        sep_count(s) <= n,
    decreases s.len(),
{
    if s.len() > 0 {
        if is_sep(s.last()) {
            lemma_nth_last_none(s.drop_last(), (n - 1) as nat);
        } else {
            lemma_nth_last_none(s.drop_last(), n);
        }
    }
}

/// A sequence without separators yields no component start.
proof fn lemma_nth_last_no_sep(s: Seq<u8>, n: nat)
    requires
        forall|j: int| 0 <= j < s.len() ==> !is_sep(s[j]),
    ensures
        nth_last_comp_start(s, n) is None,
    decreases s.len(),
{
    if s.len() > 0 {
        assert(forall|j: int| 0 <= j < s.drop_last().len() ==> s.drop_last()[j] == s[j]);
        lemma_nth_last_no_sep(s.drop_last(), n);
    }
}

/// A sequence with no separators counted holds none.
proof fn lemma_sep_count_zero(s: Seq<u8>)
    requires
        sep_count(s) == 0,
    ensures
        forall|j: int| 0 <= j < s.len() ==> !is_sep(s[j]),
    decreases s.len(),
{
    if s.len() > 0 {
        lemma_sep_count_zero(s.drop_last());
        assert(forall|j: int| 0 <= j < s.len() - 1 ==> s[j] == s.drop_last()[j]);
    }
}

/// Scanning further back can only move the start offset left.
proof fn lemma_nth_last_mono(s: Seq<u8>, j: nat, k: nat)
    requires
        j < k,
        nth_last_comp_start(s, k) is Some,
    ensures
        nth_last_comp_start(s, j) is Some,
        nth_last_comp_start(s, k)->Some_0 < nth_last_comp_start(s, j)->Some_0,
    decreases s.len(),
{
    if is_sep(s.last()) {
        if j == 0 {
            lemma_nth_last_some(s.drop_last(), (k - 1) as nat);
        } else {
            lemma_nth_last_mono(s.drop_last(), (j - 1) as nat, (k - 1) as nat);
        }
    } else {
        lemma_nth_last_mono(s.drop_last(), j, k);
    }
}

/// Backward scan for the start offset of the component `n` separators back
/// from the end of `bytes`.
pub fn find_nth_last_component_start(bytes: &Vec<u8>, n: usize) -> (r: Option<usize>)
    ensures
        match r {
            Some(p) => nth_last_comp_start(bytes@, n as nat) == Some(p as int),
            None => nth_last_comp_start(bytes@, n as nat) is None,
        },
{
    let mut i: usize = bytes.len();
    let mut remaining: usize = n;
    proof {
        assert(bytes@.take(i as int) =~= bytes@);
    }
    while i > 0
        invariant
            i <= bytes@.len(),
            nth_last_comp_start(bytes@, n as nat) == nth_last_comp_start(
                bytes@.take(i as int),
                remaining as nat,
            ),
        decreases i,
    {
        proof {
            assert(bytes@.take(i as int).last() == bytes@[i - 1]);
            assert(bytes@.take(i as int).drop_last() =~= bytes@.take(i - 1));
        }
        if bytes[i - 1] == SEPARATOR {
            if remaining == 0 {
                return Some(i);
            }
            remaining = remaining - 1;
        }
        i = i - 1;
    }
    proof {
        assert(bytes@.take(0) =~= Seq::<u8>::empty());
    }
    None
}

/// Copy of `path` with one trailing separator trimmed, except from the root.
pub fn trim_trailing_separator(path: &Vec<u8>) -> (r: Vec<u8>)
    ensures
        r@ == spec_trim(path@),
{
    if path.len() > 1 && path[path.len() - 1] == SEPARATOR {
        let r = subvec(path, 0, path.len() - 1);
        proof {
            assert(r@ =~= path@.drop_last());
        }
        r
    } else {
        let r = subvec(path, 0, path.len());
        proof {
            assert(r@ =~= path@);
        }
        r
    }
}

/// The truncated form of a path: an optional ancestor window and the final
/// component.  The ancestor window keeps its trailing separator; the final
/// component starts right after the last separator of the trimmed path.
pub open spec fn spec_truncate(s: Seq<u8>, n: nat) -> (Option<Seq<u8>>, Seq<u8>)
    recommends
        n >= 1,
{
    if is_root(s) {
        (None, s)
    } else {
        let t = spec_trim(s);
        match nth_last_comp_start(t, 0) {
            None => (None, t),
            Some(l) => if n <= 1 {
                (None, t.subrange(l, t.len() as int))
            } else {
                let a = match nth_last_comp_start(t, (n - 1) as nat) {
                    Some(p) => p,
                    None => 0,
                };
                (Some(t.subrange(a, l)), t.subrange(l, t.len() as int))
            },
        }
    }
}

/// Keep only the last `n` components of `path`: the final component, and up
/// to `n - 1` ancestors right before it as one window that keeps every
/// separator between and after them.  A path with fewer components is kept
/// whole; the root passes through untouched.
pub fn last_n_path_components(path: &Vec<u8>, n: usize) -> (r: (Option<Vec<u8>>, Vec<u8>))
    requires
        n >= 1,
    ensures
        ({
            let (sa, sf) = spec_truncate(path@, n as nat);
            &&& r.1@ == sf
            &&& (r.0 is Some <==> sa is Some)
            &&& (r.0 matches Some(v) ==> v@ == sa->Some_0)
        }),
{
    if path.len() == 1 && path[0] == SEPARATOR {
        return (None, subvec(path, 0, path.len()));
    }
    let t = trim_trailing_separator(path);
    match find_nth_last_component_start(&t, 0) {
        None => (None, t),
        Some(l) => {
            proof {
                lemma_nth_last_some(t@, 0nat);
            }
            if n == 1 {
                (None, subvec(&t, l, t.len()))
            } else {
                let a: usize = match find_nth_last_component_start(&t, n - 1) {
                    Some(p) => {
                        proof {
                            lemma_nth_last_mono(t@, 0nat, (n - 1) as nat);
                        }
                        p
                    },
                    None => 0,
                };
                (Some(subvec(&t, a, l)), subvec(&t, l, t.len()))
            }
        },
    }
}

/// The split of a path into everything up to and including the last
/// separator, and the final component after it.
pub open spec fn spec_split_last(s: Seq<u8>) -> (Option<Seq<u8>>, Seq<u8>) {
    if is_root(s) {
        (None, s)
    } else {
        let t = spec_trim(s);
        match nth_last_comp_start(t, 0) {
            None => (None, t),
            Some(l) => (Some(t.subrange(0, l)), t.subrange(l, t.len() as int)),
        }
    }
}

/// Split a path into all ancestors (with the trailing separator kept) and
/// the final component.  A separator-free path and the root have no
/// ancestor part.
pub fn path_split_last(path: &Vec<u8>) -> (r: (Option<Vec<u8>>, Vec<u8>))
    ensures
        ({
            let (sa, sf) = spec_split_last(path@);
            &&& r.1@ == sf
            &&& (r.0 is Some <==> sa is Some)
            &&& (r.0 matches Some(v) ==> v@ == sa->Some_0)
        }),
{
    if path.len() == 1 && path[0] == SEPARATOR {
        return (None, subvec(path, 0, path.len()));
    }
    let t = trim_trailing_separator(path);
    match find_nth_last_component_start(&t, 0) {
        None => (None, t),
        Some(l) => {
            proof {
                lemma_nth_last_some(t@, 0nat);
            }
            (Some(subvec(&t, 0, l)), subvec(&t, l, t.len()))
        },
    }
}

/// Home replacement at the front of a path, on component boundaries:
/// the whole home prefix becomes a tilde.  `home` is taken without a
/// trailing separator.
pub open spec fn spec_replace_home(p: Seq<u8>, home: Seq<u8>) -> Option<Seq<u8>> {
    if p == home {
        Some(seq![TILDE])
    } else if is_prefix_of(home.push(SEPARATOR), p) {
        Some(seq![TILDE] + p.subrange(home.len() as int, p.len() as int))
    } else {
        None
    }
}

/// Replace the leading `home` of `path` with a tilde, or return `None`
/// where `path` does not lie under `home`.
pub fn replace_home_with_tilde(path: &Vec<u8>, home: &Vec<u8>) -> (r: Option<Vec<u8>>)
    ensures
        r is Some <==> spec_replace_home(path@, home@) is Some,
        r matches Some(v) ==> v@ == spec_replace_home(path@, home@)->Some_0,
{
    if bytes_eq(path, home) {
        let mut v: Vec<u8> = Vec::new();
        v.push(TILDE);
        proof {
            assert(v@ =~= seq![TILDE]);
        }
        return Some(v);
    }
    let mut home_sep = subvec(home, 0, home.len());
    home_sep.push(SEPARATOR);
    proof {
        assert(home_sep@ =~= home@.push(SEPARATOR));
    }
    if starts_with(path, &home_sep) {
        let mut v: Vec<u8> = Vec::new();
        v.push(TILDE);
        let rest = subvec(path, home.len(), path.len());
        append_bytes(&mut v, &rest);
        proof {
            assert(v@ =~= seq![TILDE] + path@.subrange(home@.len() as int, path@.len() as int));
        }
        Some(v)
    } else {
        None
    }
}

/// Strip a leading directory `prefix` from `path` on a component boundary,
/// dropping the separator after it.  `prefix` is taken without a trailing
/// separator; stripping it from itself leaves the empty path.
pub open spec fn spec_strip_path_prefix(p: Seq<u8>, prefix: Seq<u8>) -> Option<Seq<u8>> {
    if p == prefix {
        Some(Seq::<u8>::empty())
    } else if is_prefix_of(prefix.push(SEPARATOR), p) {
        Some(p.subrange(prefix.len() as int + 1, p.len() as int))
    } else {
        None
    }
}

/// What is left of `path` below the directory `prefix`, or `None` where
/// `path` does not lie under it.
pub fn strip_path_prefix(path: &Vec<u8>, prefix: &Vec<u8>) -> (r: Option<Vec<u8>>)
    ensures
        r is Some <==> spec_strip_path_prefix(path@, prefix@) is Some,
        r matches Some(v) ==> v@ == spec_strip_path_prefix(path@, prefix@)->Some_0,
{
    if bytes_eq(path, prefix) {
        let v: Vec<u8> = Vec::new();
        return Some(v);
    }
    let mut prefix_sep = subvec(prefix, 0, prefix.len());
    prefix_sep.push(SEPARATOR);
    proof {
        assert(prefix_sep@ =~= prefix@.push(SEPARATOR));
    }
    if starts_with(path, &prefix_sep) {
        let start = prefix_sep.len();
        proof {
            assert(start == prefix@.len() + 1);
            assert(start <= path@.len());
        }
        Some(subvec(path, start, path.len()))
    } else {
        None
    }
}

/// The components of a path: the split of the byte string at every
/// separator, empty pieces kept.
pub open spec fn split_components(s: Seq<u8>) -> Seq<Seq<u8>>
    decreases s.len(),
{
    if s.len() == 0 {
        seq![Seq::<u8>::empty()]
    } else if is_sep(s.last()) {
        split_components(s.drop_last()).push(Seq::<u8>::empty())
    } else {
        let rest = split_components(s.drop_last());
        rest.update(rest.len() - 1, rest.last().push(s.last()))
    }
}

/// A split has one more piece than the path has separators.
proof fn lemma_split_components_len(s: Seq<u8>)
    ensures
        split_components(s).len() == sep_count(s) + 1,
    decreases s.len(),
{
    if s.len() > 0 {
        lemma_split_components_len(s.drop_last());
    }
}

/// The last piece of the split is the byte range after the last separator.
proof fn lemma_split_last_component(s: Seq<u8>)
    ensures
        ({
            let l = match nth_last_comp_start(s, 0) {
                Some(p) => p,
                None => 0,
            };
            split_components(s).last() == s.subrange(l, s.len() as int)
        }),
    decreases s.len(),
{
    let l = match nth_last_comp_start(s, 0) {
        Some(p) => p,
        None => 0,
    };
    if s.len() == 0 {
        assert(s.subrange(0, 0) =~= Seq::<u8>::empty());
    } else if is_sep(s.last()) {
        assert(s.subrange(s.len() as int, s.len() as int) =~= Seq::<u8>::empty());
    } else {
        lemma_split_components_len(s.drop_last());
        lemma_split_last_component(s.drop_last());
        let d = s.drop_last();
        let ld = match nth_last_comp_start(d, 0) {
            Some(p) => p,
            None => 0,
        };
        if nth_last_comp_start(d, 0) is Some {
            lemma_nth_last_some(d, 0nat);
        }
        assert(s.subrange(l, s.len() as int) =~= d.subrange(ld, d.len() as int).push(s.last()));
    }
}

/// For a non-root path without doubled separators, the final component of
/// the truncation is the last piece of the component split of the trimmed
/// path, whatever the window size.
pub proof fn lemma_truncate_final_component(p: Seq<u8>, n: nat)
    requires
        n >= 1,
        !is_root(p),
        forall|i: int| 0 <= i && i + 1 < p.len() ==> !(is_sep(#[trigger] p[i]) && is_sep(p[i + 1])),
    ensures
        spec_truncate(p, n).1 == split_components(spec_trim(p)).last(),
{
    let t = spec_trim(p);
    lemma_split_last_component(t);
    if nth_last_comp_start(t, 0) is None {
        assert(t.subrange(0, t.len() as int) =~= t);
    }
}

/// Truncating the root path changes nothing and yields no ancestors,
/// whatever the window size.
pub proof fn lemma_truncate_root(n: nat)
    ensures
        spec_truncate(seq![SEPARATOR], n) == (None::<Seq<u8>>, seq![SEPARATOR]),
{
}

/// A window of one component never yields an ancestor part.
pub proof fn lemma_truncate_single_no_ancestors(p: Seq<u8>)
    ensures
        spec_truncate(p, 1).0 is None,
{
}

/// Truncating a final component again, with a window of one, hands it back
/// unchanged: truncation is idempotent on its final component.
pub proof fn lemma_truncate_idempotent(p: Seq<u8>, n: nat)
    requires
        n >= 1,
    ensures
        ({
            let f = spec_truncate(p, n).1;
            spec_truncate(f, 1) == (None::<Seq<u8>>, f)
        }),
{
    let f = spec_truncate(p, n).1;
    if is_root(p) {
    } else {
        let t = spec_trim(p);
        match nth_last_comp_start(t, 0) {
            None => {
                lemma_nth_last_none(t, 0nat);
                lemma_sep_count_zero(t);
                lemma_nth_last_no_sep(f, 0nat);
            },
            Some(l) => {
                lemma_nth_last_some(t, 0nat);
                lemma_sep_count_zero(t.subrange(l, t.len() as int));
                lemma_nth_last_no_sep(f, 0nat);
            },
        }
    }
}

/// The fragment that renders a truncated path: a leading space, the dim
/// ancestor window where there is one, then the final component in bold and
/// a reset.
pub open spec fn spec_fmt_dir(path: Seq<u8>, shell: Shell) -> Seq<u8> {
    let r = spec_truncate(path, MAX_COMPONENTS as nat);
    match r.0 {
        Some(a) => seq![SPACE] + spec_cyan(shell) + a + spec_cyan_bold(shell) + r.1 + spec_reset(
            shell,
        ),
        None => seq![SPACE] + spec_cyan_bold(shell) + r.1 + spec_reset(shell),
    }
}

/// Render a working directory, keeping only its last `MAX_COMPONENTS`
/// components.
pub fn fmt_dir(path: &Vec<u8>, shell: Shell) -> (r: Vec<u8>)
    ensures
        r@ == spec_fmt_dir(path@, shell),
{
    let (anc, fin) = last_n_path_components(path, MAX_COMPONENTS);
    let mut out: Vec<u8> = Vec::new();
    out.push(SPACE);
    match anc {
        Some(a) => {
            let c = shell.cyan();
            append_bytes(&mut out, &c);
            append_bytes(&mut out, &a);
            let cb = shell.cyan_bold();
            append_bytes(&mut out, &cb);
            append_bytes(&mut out, &fin);
            let rst = shell.reset();
            append_bytes(&mut out, &rst);
            proof {
                assert(out@ =~= spec_fmt_dir(path@, shell));
            }
        },
        None => {
            let cb = shell.cyan_bold();
            append_bytes(&mut out, &cb);
            append_bytes(&mut out, &fin);
            let rst = shell.reset();
            append_bytes(&mut out, &rst);
            proof {
                assert(out@ =~= spec_fmt_dir(path@, shell));
            }
        },
    }
    out
}

} // verus!

verus! {

/// An optional value, or a fallback where there is none.
pub open spec fn or_seq(o: Option<Seq<u8>>, fallback: Seq<u8>) -> Seq<u8> {
    match o {
        Some(s) => s,
        None => fallback,
    }
}

/// A path made relative to a base directory, or kept whole where it does
/// not lie under the base or no base is given.
pub open spec fn spec_rel_or_self(p: Seq<u8>, relative_to: Option<Seq<u8>>) -> Seq<u8> {
    match relative_to {
        Some(base) => or_seq(spec_strip_path_prefix(p, base), p),
        None => p,
    }
}

/// The ancestor/final split of a path after home replacement; a path
/// outside home is split as it stands.
pub open spec fn spec_tilded_split(p: Seq<u8>, home: Seq<u8>) -> (Option<Seq<u8>>, Seq<u8>) {
    match spec_replace_home(p, home) {
        Some(t) => spec_split_last(t),
        None => spec_split_last(p),
    }
}

/// The directory part when only the logical working directory is known:
/// relativized, home-tilded, and rendered in red with a bold final
/// component.
pub open spec fn spec_logical_arm(
    shell: Shell,
    logical: Seq<u8>,
    home: Seq<u8>,
    relative_to: Option<Seq<u8>>,
) -> Seq<u8> {
    let stripped = spec_rel_or_self(logical, relative_to);
    let pf = spec_tilded_split(stripped, home);
    spec_fg_normal(shell) + spec_red(shell) + opt_frag(pf.0) + spec_red_bold(shell) + pf.1
}

/// The directory part when the physical working directory is authoritative:
/// relativized, home-tilded, ancestors in the normal color and a bold final
/// component.
pub open spec fn spec_physical_arm(
    shell: Shell,
    physical: Seq<u8>,
    home: Seq<u8>,
    relative_to: Option<Seq<u8>>,
) -> Seq<u8> {
    let stripped = spec_rel_or_self(physical, relative_to);
    let pf = spec_tilded_split(stripped, home);
    spec_fg_normal(shell) + opt_frag(pf.0) + spec_fg_bold(shell) + pf.1
}

/// The directory part when logical and physical working directories
/// disagree: the logical one home-tilded and split, then the physical one
/// dimmed in parentheses.
pub open spec fn spec_mismatch_arm(
    shell: Shell,
    logical: Seq<u8>,
    physical: Seq<u8>,
    home: Seq<u8>,
) -> Seq<u8> {
    let logical_tilded = or_seq(spec_replace_home(logical, home), logical);
    let pf = spec_split_last(logical_tilded);
    let physical_tilded = or_seq(spec_replace_home(physical, home), physical);
    spec_fg_normal(shell) + opt_frag(pf.0) + spec_fg_bold(shell) + pf.1 + spec_reset(shell)
        + spec_fg_dim(shell) + seq![40u8] + physical_tilded + seq![41u8]
}

/// The directory part when no working directory could be determined.
pub open spec fn spec_missing_arm(shell: Shell) -> Seq<u8> {
    spec_red(shell) + ascii_seq("Could not determine current directory!"@)
}

/// The whole working-directory fragment: one of the four arms, then a reset
/// and a space.
pub open spec fn spec_current_dir_fragment(
    shell: Shell,
    physical: Option<Seq<u8>>,
    logical: Option<Seq<u8>>,
    home: Seq<u8>,
    relative_to: Option<Seq<u8>>,
) -> Seq<u8> {
    (match (physical, logical) {
        (None, None) => spec_missing_arm(shell),
        (Some(phys), Some(log)) => if log != phys {
            spec_mismatch_arm(shell, log, phys, home)
        } else {
            spec_physical_arm(shell, phys, home, relative_to)
        },
        (None, Some(log)) => spec_logical_arm(shell, log, home, relative_to),
        (Some(phys), None) => spec_physical_arm(shell, phys, home, relative_to),
    }) + spec_reset(shell) + seq![32u8]
}

/// Relativize a path, or keep it whole.
fn rel_or_self(p: &Vec<u8>, relative_to: &Option<Vec<u8>>) -> (r: Vec<u8>)
    ensures
        r@ == spec_rel_or_self(p@, opt_view(*relative_to)),
{
    match relative_to {
        Some(base) => match strip_path_prefix(p, base) {
            Some(rel) => rel,
            None => clone_bytes(p),
        },
        None => clone_bytes(p),
    }
}

/// Split a path after home replacement.
fn tilded_split(p: &Vec<u8>, home: &Vec<u8>) -> (r: (Option<Vec<u8>>, Vec<u8>))
    ensures
        ({
            let pf = spec_tilded_split(p@, home@);
            &&& r.1@ == pf.1
            &&& (r.0 is Some <==> pf.0 is Some)
            &&& (r.0 matches Some(v) ==> v@ == pf.0->Some_0)
        }),
{
    match replace_home_with_tilde(p, home) {
        Some(t) => path_split_last(&t),
        None => path_split_last(p),
    }
}

/// Render the logical-only arm.
fn logical_arm(
    shell: Shell,
    logical: &Vec<u8>,
    home: &Vec<u8>,
    relative_to: &Option<Vec<u8>>,
) -> (r: Vec<u8>)
    ensures
        r@ == spec_logical_arm(shell, logical@, home@, opt_view(*relative_to)),
{
    let stripped = rel_or_self(logical, relative_to);
    let (prev, fin) = tilded_split(&stripped, home);
    let mut out = shell.fg_normal();
    let red = shell.red();
    append_bytes(&mut out, &red);
    match &prev {
        Some(p) => append_bytes(&mut out, p),
        None => (),
    }
    let bold = shell.red_bold();
    append_bytes(&mut out, &bold);
    append_bytes(&mut out, &fin);
    proof {
        assert(out@ =~= spec_logical_arm(shell, logical@, home@, opt_view(*relative_to)));
    }
    out
}

/// Render the physical arm.
fn physical_arm(
    shell: Shell,
    physical: &Vec<u8>,
    home: &Vec<u8>,
    relative_to: &Option<Vec<u8>>,
) -> (r: Vec<u8>)
    ensures
        r@ == spec_physical_arm(shell, physical@, home@, opt_view(*relative_to)),
{
    let stripped = rel_or_self(physical, relative_to);
    let (prev, fin) = tilded_split(&stripped, home);
    let mut out = shell.fg_normal();
    match &prev {
        Some(p) => append_bytes(&mut out, p),
        None => (),
    }
    let bold = shell.fg_bold();
    append_bytes(&mut out, &bold);
    append_bytes(&mut out, &fin);
    proof {
        assert(out@ =~= spec_physical_arm(shell, physical@, home@, opt_view(*relative_to)));
    }
    out
}

/// Render the mismatch arm.
fn mismatch_arm(shell: Shell, logical: &Vec<u8>, physical: &Vec<u8>, home: &Vec<u8>) -> (r: Vec<
    u8,
>)
    ensures
        r@ == spec_mismatch_arm(shell, logical@, physical@, home@),
{
    let logical_tilded = match replace_home_with_tilde(logical, home) {
        Some(t) => t,
        None => clone_bytes(logical),
    };
    let (prev, fin) = path_split_last(&logical_tilded);
    let physical_tilded = match replace_home_with_tilde(physical, home) {
        Some(t) => t,
        None => clone_bytes(physical),
    };
    let mut out = shell.fg_normal();
    match &prev {
        Some(p) => append_bytes(&mut out, p),
        None => (),
    }
    let bold = shell.fg_bold();
    append_bytes(&mut out, &bold);
    append_bytes(&mut out, &fin);
    let reset = shell.reset();
    append_bytes(&mut out, &reset);
    let dim = shell.fg_dim();
    append_bytes(&mut out, &dim);
    out.push(40);
    append_bytes(&mut out, &physical_tilded);
    out.push(41);
    proof {
        assert(out@ =~= spec_mismatch_arm(shell, logical@, physical@, home@));
    }
    out
}

/// Render the working-directory fragment from the physical and logical
/// working directories, the home directory and an optional base to
/// relativize against.  Where the two directories disagree, the logical one
/// leads and the physical one follows dimmed in parentheses; where neither
/// is known, an error note takes their place.
pub fn current_dir_fragment(
    shell: Shell,
    physical: &Option<Vec<u8>>,
    logical: &Option<Vec<u8>>,
    home: &Vec<u8>,
    relative_to: &Option<Vec<u8>>,
) -> (r: Vec<u8>)
    ensures
        r@ == spec_current_dir_fragment(
            shell,
            opt_view(*physical),
            opt_view(*logical),
            home@,
            opt_view(*relative_to),
        ),
{
    let mut out: Vec<u8> = match (physical, logical) {
        (None, None) => {
            proof {
                reveal_strlit("Could not determine current directory!");
                assert(vstd::string::is_ascii("Could not determine current directory!"));
            }
            let mut o = shell.red();
            let msg = ascii_bytes("Could not determine current directory!");
            append_bytes(&mut o, &msg);
            proof {
                assert(o@ =~= spec_missing_arm(shell));
            }
            o
        },
        (Some(phys), Some(log)) => {
            if !bytes_eq(log, phys) {
                mismatch_arm(shell, log, phys, home)
            } else {
                physical_arm(shell, phys, home, relative_to)
            }
        },
        (None, Some(log)) => logical_arm(shell, log, home, relative_to),
        (Some(phys), None) => physical_arm(shell, phys, home, relative_to),
    };
    let reset = shell.reset();
    append_bytes(&mut out, &reset);
    out.push(32);
    proof {
        assert(out@ =~= spec_current_dir_fragment(
            shell,
            opt_view(*physical),
            opt_view(*logical),
            home@,
            opt_view(*relative_to),
        ));
    }
    out
}

/// The whole directory fragment of the prompt: the root passes through; a
/// directory inside a discovered repository is shown relative to the
/// directory above the repository; any other directory is shown under a
/// tilde where it lies under home.  A directory that does not lie under the
/// given base is kept whole.
pub open spec fn spec_directory(
    cwd: Seq<u8>,
    git_root_parent: Option<Seq<u8>>,
    home: Seq<u8>,
    shell: Shell,
) -> Seq<u8> {
    if is_root(cwd) {
        spec_fmt_dir(cwd, shell)
    } else {
        match git_root_parent {
            Some(parent) => spec_fmt_dir(or_seq(spec_strip_path_prefix(cwd, parent), cwd), shell),
            None => spec_fmt_dir(or_seq(spec_replace_home(cwd, home), cwd), shell),
        }
    }
}

/// Render the working directory: relative to the directory above a
/// discovered repository where there is one, else under a tilde where it
/// lies under home, truncated to the last few components.
pub fn directory(
    cwd: &Vec<u8>,
    git_root_parent: &Option<Vec<u8>>,
    home: &Vec<u8>,
    shell: Shell,
) -> (r: Vec<u8>)
    ensures
        r@ == spec_directory(cwd@, opt_view(*git_root_parent), home@, shell),
{
    if cwd.len() == 1 && cwd[0] == SEPARATOR {
        return fmt_dir(cwd, shell);
    }
    match git_root_parent {
        Some(parent) => match strip_path_prefix(cwd, parent) {
            Some(rel) => fmt_dir(&rel, shell),
            None => fmt_dir(cwd, shell),
        },
        None => match replace_home_with_tilde(cwd, home) {
            Some(tilded) => fmt_dir(&tilded, shell),
            None => fmt_dir(cwd, shell),
        },
    }
}

} // verus!
