use prompt::ansi::Shell;
use prompt::bytestr::{split_bytes_once, strip_prefix_bytes};
use prompt::dir::current_dir_fragment;
use prompt::dir::{
    directory, find_nth_last_component_start, fmt_dir, last_n_path_components, path_split_last,
    replace_home_with_tilde, strip_path_prefix, trim_trailing_separator,
};

fn b(s: &str) -> Vec<u8> {
    s.as_bytes().to_vec()
}

fn zsh_wrap(code: &str) -> String {
    format!("%{{{}%}}", code)
}

#[test]
fn truncate_keeps_last_three_components() {
    let (anc, fin) = last_n_path_components(&b("/home/user/a/b/c"), 3);
    assert_eq!(anc, Some(b("a/b/")));
    assert_eq!(fin, b("c"));
}

#[test]
fn truncate_short_path_keeps_everything() {
    let (anc, fin) = last_n_path_components(&b("a/b"), 3);
    assert_eq!(anc, Some(b("a/")));
    assert_eq!(fin, b("b"));
}

#[test]
fn truncate_single_component_has_no_ancestors() {
    let (anc, fin) = last_n_path_components(&b("file"), 3);
    assert_eq!(anc, None);
    assert_eq!(fin, b("file"));
}

#[test]
fn truncate_root_passes_through() {
    for n in 1..5 {
        let (anc, fin) = last_n_path_components(&b("/"), n);
        assert_eq!(anc, None);
        assert_eq!(fin, b("/"));
    }
}

#[test]
fn truncate_window_of_one_never_has_ancestors() {
    for path in ["/home/user/a", "a/b", "x", "/"] {
        let (anc, _) = last_n_path_components(&b(path), 1);
        assert_eq!(anc, None);
    }
}

#[test]
fn truncate_trims_one_trailing_separator() {
    let (anc, fin) = last_n_path_components(&b("/home/user/"), 2);
    assert_eq!(anc, Some(b("home/")));
    assert_eq!(fin, b("user"));
}

#[test]
fn truncate_final_component_is_last_component() {
    for path in ["/home/user/a/b/c", "a/b", "x", "/var/log/"] {
        for n in 1..5 {
            let (_, fin) = last_n_path_components(&b(path), n);
            let trimmed = trim_trailing_separator(&b(path));
            let last = trimmed
                .split(|&byte| byte == b'/')
                .last()
                .unwrap()
                .to_vec();
            assert_eq!(fin, last, "path {:?} window {}", path, n);
        }
    }
}

#[test]
fn truncate_is_idempotent_on_final_component() {
    for path in ["/home/user/a/b/c", "a/b", "x", "/", ""] {
        for n in 1..4 {
            let (_, fin) = last_n_path_components(&b(path), n);
            let (anc2, fin2) = last_n_path_components(&fin, 1);
            assert_eq!(anc2, None);
            assert_eq!(fin2, fin);
        }
    }
}

#[test]
fn truncate_doubled_separator_counts_empty_component() {
    // A doubled separator is an empty component boundary for the backward
    // scan: the window fills up one real component earlier.
    let (anc, fin) = last_n_path_components(&b("/a//b/c"), 3);
    assert_eq!(anc, Some(b("/b/")));
    assert_eq!(fin, b("c"));
}

#[test]
fn find_nth_last_component_start_counts_from_the_end() {
    let bytes = b("/a/b/c");
    assert_eq!(find_nth_last_component_start(&bytes, 0), Some(5));
    assert_eq!(find_nth_last_component_start(&bytes, 1), Some(3));
    assert_eq!(find_nth_last_component_start(&bytes, 2), Some(1));
    assert_eq!(find_nth_last_component_start(&bytes, 3), None);
    assert_eq!(find_nth_last_component_start(&b("abc"), 0), None);
}

#[test]
fn trim_trailing_separator_cases() {
    assert_eq!(trim_trailing_separator(&b("/a/b/")), b("/a/b"));
    assert_eq!(trim_trailing_separator(&b("/a/b")), b("/a/b"));
    assert_eq!(trim_trailing_separator(&b("/")), b("/"));
    assert_eq!(trim_trailing_separator(&b("")), b(""));
    assert_eq!(trim_trailing_separator(&b("//")), b("/"));
}

#[test]
fn path_split_last_splits_after_last_separator() {
    let (prev, last) = path_split_last(&b("/home/user/file"));
    assert_eq!(prev, Some(b("/home/user/")));
    assert_eq!(last, b("file"));

    let (prev, last) = path_split_last(&b("file"));
    assert_eq!(prev, None);
    assert_eq!(last, b("file"));

    let (prev, last) = path_split_last(&b("/"));
    assert_eq!(prev, None);
    assert_eq!(last, b("/"));

    let (prev, last) = path_split_last(&b("/home/user/"));
    assert_eq!(prev, Some(b("/home/")));
    assert_eq!(last, b("user"));
}

#[test]
fn replace_home_with_tilde_cases() {
    let home = b("/home/user");
    assert_eq!(
        replace_home_with_tilde(&b("/home/user/proj"), &home),
        Some(b("~/proj"))
    );
    assert_eq!(replace_home_with_tilde(&b("/home/user"), &home), Some(b("~")));
    assert_eq!(replace_home_with_tilde(&b("/home/userx"), &home), None);
    assert_eq!(replace_home_with_tilde(&b("/var/log"), &home), None);
}

#[test]
fn strip_path_prefix_cases() {
    let base = b("/srv/repo");
    assert_eq!(strip_path_prefix(&b("/srv/repo/sub"), &base), Some(b("sub")));
    assert_eq!(strip_path_prefix(&b("/srv/repo"), &base), Some(b("")));
    assert_eq!(strip_path_prefix(&b("/srv/repository"), &base), None);
    assert_eq!(strip_path_prefix(&b("/other"), &base), None);
}

#[test]
fn fmt_dir_renders_window_and_colors() {
    let out = fmt_dir(&b("~/proj/sub"), Shell::Zsh);
    let expected = format!(
        " {}~/proj/{}sub{}",
        zsh_wrap("\x1b[36m"),
        zsh_wrap("\x1b[1;36m"),
        zsh_wrap("\x1b[0m"),
    );
    assert_eq!(out, expected.into_bytes());
}

#[test]
fn fmt_dir_root_has_no_ancestors() {
    let out = fmt_dir(&b("/"), Shell::Zsh);
    let expected = format!(" {}/{}", zsh_wrap("\x1b[1;36m"), zsh_wrap("\x1b[0m"));
    assert_eq!(out, expected.into_bytes());
}

#[test]
fn directory_prefers_repository_parent() {
    let out = directory(
        &b("/srv/repo/sub"),
        &Some(b("/srv")),
        &b("/home/user"),
        Shell::Zsh,
    );
    assert_eq!(out, fmt_dir(&b("repo/sub"), Shell::Zsh));
}

#[test]
fn directory_falls_back_to_tilde() {
    let out = directory(&b("/home/user/proj"), &None, &b("/home/user"), Shell::Zsh);
    assert_eq!(out, fmt_dir(&b("~/proj"), Shell::Zsh));
}

#[test]
fn directory_outside_home_is_kept_whole() {
    let out = directory(&b("/var/log"), &None, &b("/home/user"), Shell::Zsh);
    assert_eq!(out, fmt_dir(&b("/var/log"), Shell::Zsh));
}

#[test]
fn directory_root_passes_through() {
    let out = directory(&b("/"), &None, &b("/home/user"), Shell::Zsh);
    assert_eq!(out, fmt_dir(&b("/"), Shell::Zsh));
}

#[test]
fn strip_prefix_bytes_cases() {
    assert_eq!(strip_prefix_bytes(&b("refs/heads/main"), &b("refs/heads/")), Some(b("main")));
    assert_eq!(strip_prefix_bytes(&b("refs/tags/v1"), &b("refs/heads/")), None);
    assert_eq!(strip_prefix_bytes(&b("ab"), &b("abc")), None);
    assert_eq!(strip_prefix_bytes(&b("abc"), &b("")), Some(b("abc")));
}

#[test]
fn split_bytes_once_cases() {
    assert_eq!(split_bytes_once(&b("key=value"), b'='), Some((b("key"), b("value"))));
    assert_eq!(split_bytes_once(&b("a=b=c"), b'='), Some((b("a"), b("b=c"))));
    assert_eq!(split_bytes_once(&b("=v"), b'='), Some((b(""), b("v"))));
    assert_eq!(split_bytes_once(&b("novalue"), b'='), None);
}

#[test]
fn current_dir_fragment_physical_only() {
    let out = current_dir_fragment(
        Shell::Zsh,
        &Some(b("/home/user/proj")),
        &None,
        &b("/home/user"),
        &None,
    );
    let expected = format!(
        "{}~/{}proj{} ",
        zsh_wrap("\x1b[0;39m"),
        zsh_wrap("\x1b[1;39m"),
        zsh_wrap("\x1b[0m"),
    );
    assert_eq!(out, expected.into_bytes());
}

#[test]
fn current_dir_fragment_mismatch_shows_both() {
    let out = current_dir_fragment(
        Shell::Zsh,
        &Some(b("/data/real")),
        &Some(b("/home/user/link")),
        &b("/home/user"),
        &None,
    );
    let expected = format!(
        "{}~/{}link{}{}(/data/real){} ",
        zsh_wrap("\x1b[0;39m"),
        zsh_wrap("\x1b[1;39m"),
        zsh_wrap("\x1b[0m"),
        zsh_wrap("\x1b[2;39m"),
        zsh_wrap("\x1b[0m"),
    );
    assert_eq!(out, expected.into_bytes());
}

#[test]
fn current_dir_fragment_unknown_directory() {
    let out = current_dir_fragment(Shell::Zsh, &None, &None, &b("/home/user"), &None);
    let expected = format!(
        "{}Could not determine current directory!{} ",
        zsh_wrap("\x1b[31m"),
        zsh_wrap("\x1b[0m"),
    );
    assert_eq!(out, expected.into_bytes());
}

#[test]
fn current_dir_fragment_logical_only_is_red() {
    let out = current_dir_fragment(
        Shell::Zsh,
        &None,
        &Some(b("/srv/www/site")),
        &b("/home/user"),
        &Some(b("/srv")),
    );
    let expected = format!(
        "{}{}www/{}site{} ",
        zsh_wrap("\x1b[0;39m"),
        zsh_wrap("\x1b[31m"),
        zsh_wrap("\x1b[1;31m"),
        zsh_wrap("\x1b[0m"),
    );
    assert_eq!(out, expected.into_bytes());
}
