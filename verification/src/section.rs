//! The prompt sections and their composition from rendered fragments.
//!
//! The first line of the prompt gathers the user-and-host, directory,
//! repository and virtual-environment fragments; the last line carries the
//! colored prompt suffix.  The fragments themselves come from the other
//! modules; reading the environment and writing the final bytes out stays
//! outside the library.
use crate::ansi::{spec_fg_normal, Shell};
use crate::bytestr::{append_bytes, ascii_seq, bytes_eq, opt_frag, opt_view};
use crate::misc::{colored_prompt_suffix, spec_colored_prompt_suffix};
use vstd::prelude::*;

verus! {

/// Which part of the prompt to render.
#[derive(Clone, Copy, Debug, PartialEq, Eq, Structural)]
pub enum Section {
    PreCmd,
    LastLine,
    All,
}

impl Default for Section {
    fn default() -> (r: Self)
        ensures
            r is All,
    {
        Section::All
    }
}

/// Which section a name denotes: `precmd` and `lastline` are accepted.
pub open spec fn spec_section_from_arg(s: Seq<u8>) -> Option<Section> {
    if s == ascii_seq("precmd"@) {
        Some(Section::PreCmd)
    } else if s == ascii_seq("lastline"@) {
        Some(Section::LastLine)
    } else {
        None
    }
}

/// The first prompt line: a newline, the normal foreground, then the
/// user-and-host, directory, repository and virtual-environment fragments,
/// absent ones skipped.
pub open spec fn spec_pre_cmd(
    shell: Shell,
    userhost_frag: Option<Seq<u8>>,
    dir_frag: Seq<u8>,
    git_frag: Option<Seq<u8>>,
    venv_frag: Option<Seq<u8>>,
) -> Seq<u8> {
    seq![10u8] + spec_fg_normal(shell) + opt_frag(userhost_frag) + dir_frag + opt_frag(git_frag)
        + opt_frag(venv_frag)
}

/// The last prompt line: the colored prompt suffix, then the normal
/// foreground and a space.
pub open spec fn spec_last_line(
    job_count: nat,
    last_status: u8,
    prompt_suffix: Seq<u8>,
    shell: Shell,
) -> Seq<u8> {
    spec_colored_prompt_suffix(prompt_suffix, job_count, last_status, shell) + spec_fg_normal(
        shell,
    ) + seq![32u8]
}

/// What a section renders to: the first line, the last line, or both with a
/// newline between them.
pub open spec fn spec_section_write(
    section: Section,
    shell: Shell,
    job_count: nat,
    last_status: u8,
    prompt_suffix: Seq<u8>,
    userhost_frag: Option<Seq<u8>>,
    dir_frag: Seq<u8>,
    git_frag: Option<Seq<u8>>,
    venv_frag: Option<Seq<u8>>,
) -> Seq<u8> {
    match section {
        Section::PreCmd => spec_pre_cmd(shell, userhost_frag, dir_frag, git_frag, venv_frag),
        Section::LastLine => spec_last_line(job_count, last_status, prompt_suffix, shell),
        Section::All => spec_pre_cmd(shell, userhost_frag, dir_frag, git_frag, venv_frag)
            + seq![10u8] + spec_last_line(job_count, last_status, prompt_suffix, shell),
    }
}

impl Section {
    /// Parse a section name given as raw argument bytes.
    pub fn from_arg(s: &Vec<u8>) -> (r: Option<Section>)
        ensures
            r == spec_section_from_arg(s@),
    {
        proof {
            reveal_strlit("precmd");
            reveal_strlit("lastline");
            assert(vstd::string::is_ascii("precmd"));
            assert(vstd::string::is_ascii("lastline"));
        }
        if bytes_eq(s, &crate::bytestr::ascii_bytes("precmd")) {
            Some(Section::PreCmd)
        } else if bytes_eq(s, &crate::bytestr::ascii_bytes("lastline")) {
            Some(Section::LastLine)
        } else {
            None
        }
    }

    /// Compose the first prompt line from its fragments.
    pub fn pre_cmd(
        shell: Shell,
        userhost_frag: &Option<Vec<u8>>,
        dir_frag: &Vec<u8>,
        git_frag: &Option<Vec<u8>>,
        venv_frag: &Option<Vec<u8>>,
    ) -> (r: Vec<u8>)
        ensures
            r@ == spec_pre_cmd(
                shell,
                opt_view(*userhost_frag),
                dir_frag@,
                opt_view(*git_frag),
                opt_view(*venv_frag),
            ),
    {
        let mut out: Vec<u8> = Vec::new();
        out.push(10);
        let normal = shell.fg_normal();
        append_bytes(&mut out, &normal);
        append_opt(&mut out, userhost_frag);
        append_bytes(&mut out, dir_frag);
        append_opt(&mut out, git_frag);
        append_opt(&mut out, venv_frag);
        proof {
            assert(out@ =~= spec_pre_cmd(
                shell,
                opt_view(*userhost_frag),
                dir_frag@,
                opt_view(*git_frag),
                opt_view(*venv_frag),
            ));
        }
        out
    }

    /// Compose the last prompt line.
    pub fn last_line(
        job_count: usize,
        last_status: u8,
        prompt_suffix: &Vec<u8>,
        shell: Shell,
    ) -> (r: Vec<u8>)
        ensures
            r@ == spec_last_line(job_count as nat, last_status, prompt_suffix@, shell),
    {
        let mut out = colored_prompt_suffix(prompt_suffix, job_count, last_status, shell);
        let normal = shell.fg_normal();
        append_bytes(&mut out, &normal);
        out.push(32);
        proof {
            assert(out@ =~= spec_last_line(job_count as nat, last_status, prompt_suffix@, shell));
        }
        out
    }

    /// Render this section from the given fragments and values.
    pub fn write(
        self,
        shell: Shell,
        job_count: usize,
        last_status: u8,
        prompt_suffix: &Vec<u8>,
        userhost_frag: &Option<Vec<u8>>,
        dir_frag: &Vec<u8>,
        git_frag: &Option<Vec<u8>>,
        venv_frag: &Option<Vec<u8>>,
    ) -> (r: Vec<u8>)
        ensures
            r@ == spec_section_write(
                self,
                shell,
                job_count as nat,
                last_status,
                prompt_suffix@,
                opt_view(*userhost_frag),
                dir_frag@,
                opt_view(*git_frag),
                opt_view(*venv_frag),
            ),
    {
        match self {
            Section::PreCmd => Section::pre_cmd(shell, userhost_frag, dir_frag, git_frag, venv_frag),
            Section::LastLine => Section::last_line(job_count, last_status, prompt_suffix, shell),
            Section::All => {
                let mut out = Section::pre_cmd(shell, userhost_frag, dir_frag, git_frag, venv_frag);
                out.push(10);
                let last = Section::last_line(job_count, last_status, prompt_suffix, shell);
                append_bytes(&mut out, &last);
                proof {
                    assert(out@ =~= spec_pre_cmd(
                        shell,
                        opt_view(*userhost_frag),
                        dir_frag@,
                        opt_view(*git_frag),
                        opt_view(*venv_frag),
                    ) + seq![10u8] + spec_last_line(
                        job_count as nat,
                        last_status,
                        prompt_suffix@,
                        shell,
                    ));
                }
                out
            },
        }
    }
}

/// Append a fragment that may be absent.
fn append_opt(out: &mut Vec<u8>, frag: &Option<Vec<u8>>)
    ensures
        final(out)@ == old(out)@ + opt_frag(opt_view(*frag)),
{
    match frag {
        Some(v) => {
            append_bytes(out, v);
        },
        None => {
            proof {
                assert(out@ =~= old(out)@ + Seq::<u8>::empty());
            }
        },
    }
}

} // verus!
