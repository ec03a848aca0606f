use directory::contract::{contract_directory, contract_path, copy_path};
use directory::fish::abbreviate;
use directory::path::{parse_path, DirPath, Part, Prefix};
use directory::render::{
    format_directory, format_path, get_windows_prefix, separator_for, to_fish_style, truncate,
};

fn show(p: &DirPath, sep: &str) -> String {
    format_path(p, 0, 0, sep)
}

fn fish(pwd_dir_length: usize, path: &str, shown: &str) -> String {
    let shown_parts = parse_path(shown).parts.len();
    to_fish_style(&parse_path(path), shown_parts, pwd_dir_length, "/")
}

#[test]
fn contract_home_directory() {
    let full_path = parse_path("/Users/astronaut/schematics/rocket");
    let home = parse_path("/Users/astronaut");

    let output = contract_path(&full_path, &home, "~");
    assert_eq!(show(&output, "/"), "~/schematics/rocket");
}

#[test]
fn contract_repo_directory() {
    let full_path = parse_path("/Users/astronaut/dev/rocket-controls/src");
    let repo_root = parse_path("/Users/astronaut/dev/rocket-controls");

    let output = contract_path(&full_path, &repo_root, "rocket-controls");
    assert_eq!(show(&output, "/"), "rocket-controls/src");
}

#[test]
fn contract_windows_style_home_directory() {
    let full_path = parse_path("C:\\Users\\astronaut\\schematics\\rocket");
    let home = parse_path("C:\\Users\\astronaut");

    let output = contract_path(&full_path, &home, "~");
    assert_eq!(show(&output, "\\"), "~\\schematics\\rocket");
}

#[test]
fn contract_windows_style_repo_directory() {
    let full_path = parse_path("C:\\Users\\astronaut\\dev\\rocket-controls\\src");
    let repo_root = parse_path("C:\\Users\\astronaut\\dev\\rocket-controls");

    let output = contract_path(&full_path, &repo_root, "rocket-controls");
    assert_eq!(show(&output, "\\"), "rocket-controls\\src");
}

#[test]
fn contract_windows_style_no_top_level_directory() {
    let full_path = parse_path("C:\\Some\\Other\\Path");
    let top_level_path = parse_path("C:\\Users\\astronaut");

    let output = contract_path(&full_path, &top_level_path, "~");
    assert_eq!(show(&output, "/"), "/c/Some/Other/Path");
}

#[test]
fn contract_windows_style_root_directory() {
    let full_path = parse_path("C:\\");
    let top_level_path = parse_path("C:\\Users\\astronaut");

    let output = contract_path(&full_path, &top_level_path, "~");
    assert_eq!(show(&output, "/"), "/c");
}

#[test]
fn fish_style_with_user_home_contracted_path() {
    let output = fish(1, "~/starship/engines/booster/rocket", "engines/booster/rocket");
    assert_eq!(output, "~/s/");
}

#[test]
fn fish_style_with_user_home_contracted_path_and_dot_dir() {
    let output = fish(1, "~/.starship/engines/booster/rocket", "engines/booster/rocket");
    assert_eq!(output, "~/.s/");
}

#[test]
fn fish_style_with_no_contracted_path() {
    let output = fish(1, "/absolute/Path/not/in_a/repo/but_nested", "repo/but_nested");
    assert_eq!(output, "/a/P/n/i/");
}

#[test]
fn fish_style_with_pwd_dir_len_no_contracted_path() {
    let output = fish(2, "/absolute/Path/not/in_a/repo/but_nested", "repo/but_nested");
    assert_eq!(output, "/ab/Pa/no/in/");
}

#[test]
fn fish_style_with_duplicate_directories() {
    let output = fish(1, "~/starship/tmp/C++/C++/C++", "C++");
    assert_eq!(output, "~/s/t/C/C/");
}

#[test]
fn fish_style_with_unicode() {
    let output = fish(1, "~/starship/tmp/目录/a̐éö̲/目录", "目录");
    assert_eq!(output, "~/s/t/目/a̐/");
}

#[test]
fn contraction_twice_is_contraction_once() {
    let home = parse_path("/Users/astronaut");
    for p in ["/Users/astronaut/schematics/rocket", "/Users/astronaut", "/opt/tools"] {
        let once = contract_path(&parse_path(p), &home, "~");
        let twice = contract_path(&once, &home, "~");
        assert_eq!(once, twice);
    }
}

#[test]
fn sibling_with_shared_text_is_not_contracted() {
    let full_path = parse_path("/home/bob2/src");
    let home = parse_path("/home/bob");
    let output = contract_path(&full_path, &home, "~");
    assert_eq!(output, copy_path(&full_path));
    assert_eq!(show(&output, "/"), "/home/bob2/src");
}

#[test]
fn contract_exact_top_level_gives_token_alone() {
    let home = parse_path("/home/bob");
    let output = contract_path(&parse_path("/home/bob/"), &home, "~");
    assert_eq!(show(&output, "/"), "~");
}

#[test]
fn truncation_keeps_last_components_in_order() {
    let p = parse_path("/a/b/c/d/e");
    let (head, tail) = truncate(&p.parts, 2);
    assert_eq!(head.len(), 3);
    assert_eq!(tail, vec![Part::Normal("d".to_string()), Part::Normal("e".to_string())]);
    let (head, tail) = truncate(&p.parts, 9);
    assert_eq!(head.len(), 0);
    assert_eq!(tail.len(), 5);
}

#[test]
fn truncation_length_zero_elides_nothing() {
    let p = parse_path("/a/b/c/d/e");
    let (head, tail) = truncate(&p.parts, 0);
    assert!(head.is_empty());
    assert_eq!(tail.len(), 5);
    assert_eq!(format_path(&p, 0, 0, "/"), "/a/b/c/d/e");
}

#[test]
fn truncation_with_ellipsis() {
    let p = parse_path("/a/b/c/d/e");
    assert_eq!(format_path(&p, 2, 0, "/"), "/\u{2026}/d/e");
}

#[test]
fn truncation_with_fish_style() {
    let p = parse_path("/alpha/beta/../gamma/delta");
    assert_eq!(format_path(&p, 1, 1, "/"), "/a/b/../g/delta");
}

#[test]
fn abbreviation_of_cjk_keeps_whole_cluster() {
    assert_eq!(abbreviate("目录", 1), "目");
    assert_eq!(abbreviate("a̐éö̲", 2), "a̐é");
    assert_eq!(abbreviate("rocket", 6), "rocket");
    assert_eq!(abbreviate(".config", 2), ".co");
    assert_eq!(abbreviate(".ab", 2), ".ab");
}

#[test]
fn end_to_end_home() {
    let current = parse_path("/Users/astronaut/schematics/rocket");
    let home = parse_path("/Users/astronaut");
    assert_eq!(format_directory(&current, &home, None, true, 0, 0, "/"), "~/schematics/rocket");
}

#[test]
fn end_to_end_repo() {
    let current = parse_path("/Users/astronaut/dev/rocket-controls/src");
    let repo = parse_path("/Users/astronaut/dev/rocket-controls");
    let c = contract_path(&current, &repo, "rocket-controls");
    assert_eq!(format_path(&c, 3, 0, "/"), "rocket-controls/src");
    let home = parse_path("/Users/astronaut");
    assert_eq!(
        format_directory(&current, &home, Some(&repo), true, 3, 0, "/"),
        "rocket-controls/src"
    );
}

#[test]
fn repo_root_selection_falls_back_to_home() {
    let current = parse_path("/Users/astronaut/dev/rocket-controls/src");
    let home = parse_path("/Users/astronaut");
    let repo = parse_path("/Users/astronaut/dev/rocket-controls");
    let other_repo = parse_path("/Users/astronaut/dev/other");

    let c = contract_directory(&current, &home, Some(&repo), false);
    assert_eq!(format_path(&c, 0, 0, "/"), "~/dev/rocket-controls/src");
    let c = contract_directory(&current, &home, Some(&other_repo), true);
    assert_eq!(format_path(&c, 0, 0, "/"), "~/dev/rocket-controls/src");
    let c = contract_directory(&current, &home, None, true);
    assert_eq!(format_path(&c, 0, 0, "/"), "~/dev/rocket-controls/src");
    let c = contract_directory(&current, &home, Some(&home), true);
    assert_eq!(format_path(&c, 0, 0, "/"), "~/dev/rocket-controls/src");
    let c = contract_directory(&current, &home, Some(&repo), true);
    assert_eq!(format_path(&c, 0, 0, "/"), "rocket-controls/src");
}

#[test]
fn end_to_end_fish_outside_home() {
    let current = parse_path("/Users/astronaut/dev/rocket-controls/src");
    let home = parse_path("/Users/someone");
    assert_eq!(format_directory(&current, &home, None, false, 2, 1, "/"), "/U/a/d/rocket-controls/src");
}

#[test]
fn windows_prefix_rendering() {
    assert_eq!(get_windows_prefix(&Prefix::Disk('C'), "/"), "/c");
    assert_eq!(get_windows_prefix(&Prefix::Disk('C'), "\\"), "c:");
    assert_eq!(get_windows_prefix(&Prefix::VerbatimDisk('D'), "\\"), "d:");
    assert_eq!(
        get_windows_prefix(&Prefix::UNC("server".to_string(), "share".to_string()), "\\"),
        "\\\\server\\share"
    );
    assert_eq!(
        get_windows_prefix(&Prefix::VerbatimUNC("srv".to_string(), "sh".to_string()), "/"),
        "//srv/sh"
    );
    assert_eq!(get_windows_prefix(&Prefix::DeviceNS("COM1".to_string()), "\\"), "COM1");
    assert_eq!(get_windows_prefix(&Prefix::Verbatim("pipe".to_string()), "\\"), "pipe");
}

#[test]
fn decomposes_windows_prefixes() {
    let p = parse_path("\\\\server\\share\\dir");
    assert_eq!(p.prefix, Some(Prefix::UNC("server".to_string(), "share".to_string())));
    assert!(p.has_root);
    assert_eq!(p.parts, vec![Part::Normal("dir".to_string())]);

    let p = parse_path("\\\\?\\UNC\\srv\\sh\\x");
    assert_eq!(p.prefix, Some(Prefix::VerbatimUNC("srv".to_string(), "sh".to_string())));
    assert_eq!(p.parts.len(), 1);

    let p = parse_path("\\\\?\\C:\\x\\y");
    assert_eq!(p.prefix, Some(Prefix::VerbatimDisk('C')));
    assert_eq!(p.parts.len(), 2);

    let p = parse_path("\\\\.\\COM1");
    assert_eq!(p.prefix, Some(Prefix::DeviceNS("COM1".to_string())));
    assert!(!p.has_root);

    let p = parse_path("/usr//./lib/..");
    assert_eq!(p.prefix, None);
    assert!(p.has_root);
    assert_eq!(
        p.parts,
        vec![Part::Normal("usr".to_string()), Part::Normal("lib".to_string()), Part::ParentDir]
    );
    assert_eq!(show(&p, "/"), "/usr/lib/..");
}

#[test]
fn root_renders_as_separator() {
    assert_eq!(show(&parse_path("/"), "/"), "/");
    assert_eq!(show(&parse_path("\\\\server\\share\\a"), "\\"), "\\\\server\\share\\a");
}

#[test]
fn separator_choice() {
    assert_eq!(separator_for("zsh", true), "/");
    assert_eq!(separator_for("bash", true), "/");
    assert_eq!(separator_for("fish", true), "/");
    assert_eq!(separator_for("", true), "\\");
    assert_eq!(separator_for("", false), "/");
}
