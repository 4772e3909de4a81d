//! Small prompt pieces: the prompt character and its coloring, the
//! user-and-host fragment, the virtual-environment fragment and the
//! last-status fragment.
//!
//! Every function here decides from plain values; whether the user is root,
//! whether a connection is remote and what the environment holds is read
//! outside the library and handed in.
use crate::ansi::{spec_blue, spec_fg_italic, spec_fg_normal, spec_magenta, spec_red, Shell};
use crate::bytestr::append_bytes;
use vstd::prelude::*;

verus! {

/// The prompt character: `#` for root, with `@` prepended on a remote
/// connection; `$` for an ordinary user, `@` alone on a remote connection.
pub open spec fn spec_prompt_character(is_root: bool, is_ssh: bool) -> Seq<u8> {
    if is_root && is_ssh {
        seq![64u8, 35u8]
    } else if is_root {
        seq![35u8]
    } else if is_ssh {
        seq![64u8]
    } else {
        seq![36u8]
    }
}

/// The prompt character for a root or remote session.
pub fn prompt_character(is_root: bool, is_ssh: bool) -> (r: Vec<u8>)
    ensures
        r@ == spec_prompt_character(is_root, is_ssh),
{
    let mut out: Vec<u8> = Vec::new();
    if is_root && is_ssh {
        out.push(64);
        out.push(35);
    } else if is_root {
        out.push(35);
    } else if is_ssh {
        out.push(64);
    } else {
        out.push(36);
    }
    proof {
        assert(out@ =~= spec_prompt_character(is_root, is_ssh));
    }
    out
}

/// The color that signals background jobs and a failed last command:
/// magenta for both, blue for jobs alone, red for a failure alone, the
/// normal foreground otherwise.
pub open spec fn spec_indicator_color(job_count: nat, last_status: u8, shell: Shell) -> Seq<u8> {
    if job_count > 0 && last_status > 0 {
        spec_magenta(shell)
    } else if job_count > 0 {
        spec_blue(shell)
    } else if last_status > 0 {
        spec_red(shell)
    } else {
        spec_fg_normal(shell)
    }
}

/// The colored prompt character: the indicator color followed by the
/// character itself.
pub open spec fn spec_colored_prompt_character(
    job_count: nat,
    last_status: u8,
    shell: Shell,
    is_root: bool,
    is_ssh: bool,
) -> Seq<u8> {
    spec_indicator_color(job_count, last_status, shell) + spec_prompt_character(is_root, is_ssh)
}

/// Render the prompt character in the color that signals jobs and the last
/// command's status.
pub fn colored_prompt_character(
    job_count: usize,
    last_status: u8,
    shell: Shell,
    is_root: bool,
    is_ssh: bool,
) -> (r: Vec<u8>)
    ensures
        r@ == spec_colored_prompt_character(job_count as nat, last_status, shell, is_root, is_ssh),
{
    let mut out = indicator_color(job_count, last_status, shell);
    let ch = prompt_character(is_root, is_ssh);
    append_bytes(&mut out, &ch);
    out
}

/// The indicator color as bytes.
fn indicator_color(job_count: usize, last_status: u8, shell: Shell) -> (r: Vec<u8>)
    ensures
        r@ == spec_indicator_color(job_count as nat, last_status, shell),
{
    if job_count > 0 && last_status > 0 {
        shell.magenta()
    } else if job_count > 0 {
        shell.blue()
    } else if last_status > 0 {
        shell.red()
    } else {
        shell.fg_normal()
    }
}

/// The colored prompt suffix: the indicator color followed by the
/// configured suffix.
pub open spec fn spec_colored_prompt_suffix(
    suffix: Seq<u8>,
    job_count: nat,
    last_status: u8,
    shell: Shell,
) -> Seq<u8> {
    spec_indicator_color(job_count, last_status, shell) + suffix
}

/// Render the configured prompt suffix in the color that signals jobs and
/// the last command's status.
pub fn colored_prompt_suffix(
    suffix: &Vec<u8>,
    job_count: usize,
    last_status: u8,
    shell: Shell,
) -> (r: Vec<u8>)
    ensures
        r@ == spec_colored_prompt_suffix(suffix@, job_count as nat, last_status, shell),
{
    let mut out = indicator_color(job_count, last_status, shell);
    append_bytes(&mut out, suffix);
    out
}

/// The virtual-environment fragment: the prompt name of the active
/// environment in italics and parentheses, nothing where none is active.
pub open spec fn spec_venv(venv_prompt: Option<Seq<u8>>, shell: Shell) -> Option<Seq<u8>> {
    match venv_prompt {
        None => None,
        Some(name) => Some(spec_fg_italic(shell) + seq![40u8] + name + seq![41u8, 32u8]),
    }
}

/// Render the active virtual environment's prompt name, where one is set.
pub fn venv(venv_prompt: &Option<Vec<u8>>, shell: Shell) -> (r: Option<Vec<u8>>)
    ensures
        r is Some <==> venv_prompt is Some,
        r matches Some(v) ==> v@ == spec_venv(
            Some(venv_prompt->Some_0@),
            shell,
        )->Some_0,
{
    match venv_prompt {
        None => None,
        Some(name) => {
            let mut out = shell.fg_italic();
            out.push(40);
            append_bytes(&mut out, name);
            out.push(41);
            out.push(32);
            proof {
                assert(out@ =~= spec_fg_italic(shell) + seq![40u8] + name@ + seq![41u8, 32u8]);
            }
            Some(out)
        },
    }
}

/// The decimal digits of a byte-sized number, without leading zeros.
pub open spec fn spec_u8_decimal(v: u8) -> Seq<u8> {
    if v >= 100 {
        seq![(48 + v / 100) as u8, (48 + (v / 10) % 10) as u8, (48 + v % 10) as u8]
    } else if v >= 10 {
        seq![(48 + v / 10) as u8, (48 + v % 10) as u8]
    } else {
        seq![(48 + v) as u8]
    }
}

/// Render a byte-sized number in decimal.
pub fn u8_decimal(v: u8) -> (r: Vec<u8>)
    ensures
        r@ == spec_u8_decimal(v),
{
    let mut out: Vec<u8> = Vec::new();
    if v >= 100 {
        out.push(48 + v / 100);
        out.push(48 + (v / 10) % 10);
        out.push(48 + v % 10);
    } else if v >= 10 {
        out.push(48 + v / 10);
        out.push(48 + v % 10);
    } else {
        out.push(48 + v);
    }
    proof {
        assert(out@ =~= spec_u8_decimal(v));
    }
    out
}

/// The last-status fragment: the exit code in red with a trailing space,
/// nothing after a successful command.
pub open spec fn spec_status(last_status: u8, shell: Shell) -> Option<Seq<u8>> {
    if last_status != 0 {
        Some(spec_red(shell) + spec_u8_decimal(last_status) + seq![32u8])
    } else {
        None
    }
}

/// Render the last command's exit code, where it failed.
pub fn status(last_status: u8, shell: Shell) -> (r: Option<Vec<u8>>)
    ensures
        r is Some <==> spec_status(last_status, shell) is Some,
        r matches Some(v) ==> v@ == spec_status(last_status, shell)->Some_0,
{
    if last_status != 0 {
        let mut out = shell.red();
        let digits = u8_decimal(last_status);
        append_bytes(&mut out, &digits);
        out.push(32);
        proof {
            assert(out@ =~= spec_red(shell) + spec_u8_decimal(last_status) + seq![32u8]);
        }
        Some(out)
    } else {
        None
    }
}

/// The user-and-host fragment.
///
/// The name is shown only to root, to a user whose login name differs from
/// the user name, or on a remote connection.  On a remote connection the
/// host name follows the user name after an at sign.  Root is shown in red,
/// everyone else in italics; a trailing space closes the fragment.
pub open spec fn spec_userhost(
    user: Seq<u8>,
    logname: Option<Seq<u8>>,
    ssh_connection: bool,
    ssh_client: bool,
    ssh_tty: bool,
    hostname: Seq<u8>,
    is_root: bool,
    shell: Shell,
) -> Option<Seq<u8>> {
    let show = is_root || (logname matches Some(l) && l != user) || ssh_connection || ssh_client
        || ssh_tty;
    let name = user + (if ssh_connection {
        seq![64u8] + hostname
    } else {
        Seq::<u8>::empty()
    }) + seq![32u8];
    if !show {
        None
    } else if is_root {
        Some(spec_red(shell) + name)
    } else {
        Some(spec_fg_italic(shell) + name)
    }
}

/// Render the user-and-host fragment, where it is shown at all.
pub fn userhost(
    user: &Vec<u8>,
    logname: &Option<Vec<u8>>,
    ssh_connection: bool,
    ssh_client: bool,
    ssh_tty: bool,
    hostname: &Vec<u8>,
    is_root: bool,
    shell: Shell,
) -> (r: Option<Vec<u8>>)
    ensures
        ({
            let s = spec_userhost(
                user@,
                match logname {
                    Some(l) => Some(l@),
                    None => None,
                },
                ssh_connection,
                ssh_client,
                ssh_tty,
                hostname@,
                is_root,
                shell,
            );
            &&& (r is Some <==> s is Some)
            &&& (r matches Some(v) ==> v@ == s->Some_0)
        }),
{
    let differing_logname = match logname {
        Some(l) => !crate::bytestr::bytes_eq(l, user),
        None => false,
    };
    let show = is_root || differing_logname || ssh_connection || ssh_client || ssh_tty;
    if !show {
        return None;
    }
    let mut out = if is_root {
        shell.red()
    } else {
        shell.fg_italic()
    };
    append_bytes(&mut out, user);
    if ssh_connection {
        out.push(64);
        append_bytes(&mut out, hostname);
    }
    out.push(32);
    proof {
        let name = user@ + (if ssh_connection {
            seq![64u8] + hostname@
        } else {
            Seq::<u8>::empty()
        }) + seq![32u8];
        if is_root {
            assert(out@ =~= spec_red(shell) + name);
        } else {
            assert(out@ =~= spec_fg_italic(shell) + name);
        }
    }
    Some(out)
}

} // verus!
