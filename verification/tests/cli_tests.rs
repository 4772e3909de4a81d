use prompt::ansi::Shell;
use prompt::cli::{parse_u8, parse_usize, ArgError, Args};
use prompt::misc::{
    colored_prompt_character, colored_prompt_suffix, prompt_character, status, u8_decimal, userhost,
    venv,
};
use prompt::section::Section;

fn b(s: &str) -> Vec<u8> {
    s.as_bytes().to_vec()
}

fn args(tokens: &[&str]) -> Vec<Vec<u8>> {
    tokens.iter().map(|t| b(t)).collect()
}

fn zsh_wrap(code: &str) -> String {
    format!("%{{{}%}}", code)
}

#[test]
fn parse_usize_plain_and_signed() {
    assert_eq!(parse_usize(&b("0")), Some(0));
    assert_eq!(parse_usize(&b("42")), Some(42));
    assert_eq!(parse_usize(&b("+42")), Some(42));
    assert_eq!(parse_usize(&b("")), None);
    assert_eq!(parse_usize(&b("+")), None);
    assert_eq!(parse_usize(&b("4a")), None);
    assert_eq!(parse_usize(&b("-4")), None);
    assert_eq!(parse_usize(&b(" 4")), None);
}

#[test]
fn parse_usize_overflow_is_rejected() {
    assert_eq!(parse_usize(&b("99999999999999999999999999999")), None);
    assert_eq!(parse_usize(&usize::MAX.to_string().into_bytes()), Some(usize::MAX));
}

#[test]
fn parse_u8_bounds() {
    assert_eq!(parse_u8(&b("255")), Some(255));
    assert_eq!(parse_u8(&b("256")), None);
    assert_eq!(parse_u8(&b("+7")), Some(7));
    assert_eq!(parse_u8(&b("x")), None);
}

#[test]
fn args_defaults() {
    let a = Args::from_args(&args(&[])).unwrap();
    assert_eq!(a.section(), Section::All);
    assert_eq!(a.job_count(), 0);
    assert_eq!(a.last_status(), 0);
    assert_eq!(a.shell(), Shell::Zsh);
    assert_eq!(a.prompt_suffix(), &b("$"));
}

#[test]
fn args_full_set() {
    let a = Args::from_args(&args(&[
        "print=precmd",
        "jobs=4",
        "laststatus=3",
        "shell=bash",
        "prompt_character=>",
    ]))
    .unwrap();
    assert_eq!(a.section(), Section::PreCmd);
    assert_eq!(a.job_count(), 4);
    assert_eq!(a.last_status(), 3);
    assert_eq!(a.shell(), Shell::Bash);
    assert_eq!(a.prompt_suffix(), &b(">"));
}

#[test]
fn args_ignore_unknown_and_bare_tokens() {
    let a = Args::from_args(&args(&["verbose", "color=always", "jobs=1"])).unwrap();
    assert_eq!(a.job_count(), 1);
    assert_eq!(a.section(), Section::All);
}

#[test]
fn args_later_token_wins() {
    let a = Args::from_args(&args(&["jobs=1", "jobs=9"])).unwrap();
    assert_eq!(a.job_count(), 9);
}

#[test]
fn args_bad_section() {
    assert_eq!(
        Args::from_args(&args(&["print=everything"])).unwrap_err(),
        ArgError::BadSection
    );
}

#[test]
fn args_bad_job_count() {
    assert_eq!(
        Args::from_args(&args(&["jobs=abc"])).unwrap_err(),
        ArgError::BadJobCount
    );
}

#[test]
fn args_bad_last_status() {
    assert_eq!(
        Args::from_args(&args(&["laststatus=256"])).unwrap_err(),
        ArgError::BadLastStatus
    );
}

#[test]
fn args_bad_shell() {
    assert_eq!(
        Args::from_args(&args(&["shell=fish"])).unwrap_err(),
        ArgError::BadShell
    );
}

#[test]
fn shell_names() {
    assert_eq!(Shell::from_arg(&b("bash")), Some(Shell::Bash));
    assert_eq!(Shell::from_arg(&b("Bash")), Some(Shell::Bash));
    assert_eq!(Shell::from_arg(&b("zsh")), Some(Shell::Zsh));
    assert_eq!(Shell::from_arg(&b("Zsh")), Some(Shell::Zsh));
    assert_eq!(Shell::from_arg(&b("fish")), None);
}

#[test]
fn section_names() {
    assert_eq!(Section::from_arg(&b("precmd")), Some(Section::PreCmd));
    assert_eq!(Section::from_arg(&b("lastline")), Some(Section::LastLine));
    assert_eq!(Section::from_arg(&b("all")), None);
}

#[test]
fn shell_wrapping_differs_by_flavor() {
    assert_eq!(Shell::Zsh.reset(), b("%{\x1b[0m%}"));
    assert_eq!(Shell::Bash.reset(), b("\\[\x1b[0m\\]"));
    assert_eq!(Shell::Zsh.fg_dim(), b("%{\x1b[2;39m%}"));
    assert_eq!(Shell::Bash.cyan_bold(), b("\\[\x1b[1;36m\\]"));
}

#[test]
fn prompt_character_cases() {
    assert_eq!(prompt_character(true, true), b("@#"));
    assert_eq!(prompt_character(true, false), b("#"));
    assert_eq!(prompt_character(false, true), b("@"));
    assert_eq!(prompt_character(false, false), b("$"));
}

#[test]
fn colored_prompt_character_picks_indicator_color() {
    let out = colored_prompt_character(1, 1, Shell::Zsh, false, false);
    assert_eq!(out, format!("{}$", zsh_wrap("\x1b[35m")).into_bytes());
    let out = colored_prompt_character(1, 0, Shell::Zsh, false, false);
    assert_eq!(out, format!("{}$", zsh_wrap("\x1b[34m")).into_bytes());
    let out = colored_prompt_character(0, 1, Shell::Zsh, false, false);
    assert_eq!(out, format!("{}$", zsh_wrap("\x1b[31m")).into_bytes());
    let out = colored_prompt_character(0, 0, Shell::Zsh, false, false);
    assert_eq!(out, format!("{}$", zsh_wrap("\x1b[0;39m")).into_bytes());
}

#[test]
fn colored_prompt_suffix_keeps_suffix() {
    let out = colored_prompt_suffix(&b("%"), 0, 7, Shell::Zsh);
    assert_eq!(out, format!("{}%", zsh_wrap("\x1b[31m")).into_bytes());
}

#[test]
fn venv_fragment() {
    assert_eq!(venv(&None, Shell::Zsh), None);
    let out = venv(&Some(b("myenv")), Shell::Zsh).unwrap();
    assert_eq!(out, format!("{}(myenv) ", zsh_wrap("\x1b[3;39m")).into_bytes());
}

#[test]
fn u8_decimal_digits() {
    assert_eq!(u8_decimal(0), b("0"));
    assert_eq!(u8_decimal(7), b("7"));
    assert_eq!(u8_decimal(42), b("42"));
    assert_eq!(u8_decimal(100), b("100"));
    assert_eq!(u8_decimal(255), b("255"));
}

#[test]
fn status_fragment() {
    assert_eq!(status(0, Shell::Zsh), None);
    let out = status(42, Shell::Zsh).unwrap();
    assert_eq!(out, format!("{}42 ", zsh_wrap("\x1b[31m")).into_bytes());
}

#[test]
fn userhost_hidden_for_plain_local_user() {
    let out = userhost(&b("alice"), &Some(b("alice")), false, false, false, &b(""), false, Shell::Zsh);
    assert_eq!(out, None);
}

#[test]
fn userhost_shown_for_root() {
    let out = userhost(&b("root"), &None, false, false, false, &b(""), true, Shell::Zsh).unwrap();
    assert_eq!(out, format!("{}root ", zsh_wrap("\x1b[31m")).into_bytes());
}

#[test]
fn userhost_shows_host_on_remote_connection() {
    let out = userhost(
        &b("alice"),
        &Some(b("alice")),
        true,
        false,
        false,
        &b("box"),
        false,
        Shell::Zsh,
    )
    .unwrap();
    assert_eq!(out, format!("{}alice@box ", zsh_wrap("\x1b[3;39m")).into_bytes());
}

#[test]
fn userhost_shown_for_differing_logname() {
    let out = userhost(&b("alice"), &Some(b("bob")), false, false, false, &b(""), false, Shell::Zsh)
        .unwrap();
    assert_eq!(out, format!("{}alice ", zsh_wrap("\x1b[3;39m")).into_bytes());
}

#[test]
fn section_last_line_composition() {
    let out = Section::last_line(0, 0, &b("$"), Shell::Zsh);
    let expected = format!("{}${} ", zsh_wrap("\x1b[0;39m"), zsh_wrap("\x1b[0;39m"));
    assert_eq!(out, expected.into_bytes());
}

#[test]
fn section_pre_cmd_composition() {
    let out = Section::pre_cmd(
        Shell::Zsh,
        &Some(b("U")),
        &b("D"),
        &Some(b("G")),
        &None,
    );
    let expected = format!("\n{}UDG", zsh_wrap("\x1b[0;39m"));
    assert_eq!(out, expected.into_bytes());
}

#[test]
fn section_write_all_joins_both_lines() {
    let suffix = b("$");
    let none: Option<Vec<u8>> = None;
    let pre = Section::pre_cmd(Shell::Zsh, &none, &b("D"), &none, &none);
    let last = Section::last_line(2, 0, &suffix, Shell::Zsh);
    let all = Section::All.write(Shell::Zsh, 2, 0, &suffix, &none, &b("D"), &none, &none);
    let mut expected = pre.clone();
    expected.push(b'\n');
    expected.extend_from_slice(&last);
    assert_eq!(all, expected);
    assert_eq!(
        Section::PreCmd.write(Shell::Zsh, 2, 0, &suffix, &none, &b("D"), &none, &none),
        pre
    );
    assert_eq!(
        Section::LastLine.write(Shell::Zsh, 2, 0, &suffix, &none, &b("D"), &none, &none),
        last
    );
}
