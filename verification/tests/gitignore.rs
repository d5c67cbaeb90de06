use gitu::ops::gitignore::{
    default_pattern, directory_default, excludes_file, gitignore_addition, listed_files, pattern_choices,
    untracked_files_command, IgnoreFile,
};
use gitu::ops::Op;

#[test]
fn gitignore_menu() {
    let menu: Vec<String> = [Op::GitignoreInTopdir, Op::GitignoreInSubdir, Op::GitignoreInGitdir, Op::GitignoreOnSystem]
        .iter()
        .map(|op| op.display())
        .collect();
    assert_eq!(
        menu,
        vec![
            "shared at top level (.gitignore)",
            "shared in subdirectory (path/to/.gitignore)",
            "private for this repository (.git/info/exclude)",
            "private for all repositories (core.excludesFile)",
        ]
    );
    for op in [Op::GitignoreInTopdir, Op::GitignoreInSubdir, Op::GitignoreInGitdir, Op::GitignoreOnSystem] {
        assert!(IgnoreFile::of_op(op).is_some());
        assert!(!op.is_target_op());
    }
}

#[test]
fn ignore_files_and_staging() {
    let top = IgnoreFile::of_op(Op::GitignoreInTopdir).unwrap();
    assert!(top.stages() && !top.asks_directory());
    assert_eq!(top.path_parts("/repo", "", "/repo/.git", ""), vec!["/repo", ".gitignore"]);
    let sub = IgnoreFile::of_op(Op::GitignoreInSubdir).unwrap();
    assert!(sub.stages() && sub.asks_directory());
    assert_eq!(sub.path_parts("/repo", "nested", "/repo/.git", ""), vec!["/repo", "nested", ".gitignore"]);
    let private = IgnoreFile::of_op(Op::GitignoreInGitdir).unwrap();
    assert!(!private.stages());
    assert_eq!(private.path_parts("/repo", "", "/repo/.git", ""), vec!["/repo/.git", "info", "exclude"]);
    let global = IgnoreFile::of_op(Op::GitignoreOnSystem).unwrap();
    assert!(!global.stages());
    assert_eq!(global.path_parts("/repo", "", "/repo/.git", "/home/u/global-ignore"), vec!["/home/u/global-ignore"]);
    assert!(IgnoreFile::of_op(Op::Commit).is_none());
}

#[test]
fn rule_for_a_file_in_topdir() {
    // ignored.log is untracked at the top: its rule comes first.
    let choices = pattern_choices(&vec!["ignored.log".to_string()], &vec!["ignored.log".to_string()], Some("ignored.log"), None);
    assert_eq!(choices[0], "/ignored.log");
    assert!(choices.contains(&"*.log".to_string()));
    assert_eq!(gitignore_addition(None, "/ignored.log").unwrap(), "/ignored.log\n");
}

#[test]
fn rule_for_a_file_in_a_subdirectory() {
    assert_eq!(directory_default(Some("nested/ignored.log")), "nested");
    assert_eq!(directory_default(Some("ignored.log")), ".");
    assert_eq!(directory_default(None), ".");
    let files = listed_files("nested/ignored.log\n", Some("nested"));
    assert_eq!(files, vec!["ignored.log"]);
    assert_eq!(default_pattern(Some("nested/ignored.log"), Some("nested")).unwrap(), "/ignored.log");
    assert!(default_pattern(Some("other/x.log"), Some("nested")).is_none());
    let choices = pattern_choices(&files, &files, Some("nested/ignored.log"), Some("nested"));
    assert_eq!(choices[0], "/ignored.log");
}

#[test]
fn appending_rules() {
    assert!(gitignore_addition(Some(b'x'), "").is_none());
    assert_eq!(gitignore_addition(Some(b'x'), "a").unwrap(), "\na\n");
    assert_eq!(gitignore_addition(Some(b'\n'), "a").unwrap(), "a\n");
    assert_eq!(gitignore_addition(None, "a\\b").unwrap(), "a\\\\b\n");
}

#[test]
fn listing_untracked_files() {
    assert_eq!(
        untracked_files_command(true, Some("nested")).args,
        vec!["ls-files", "--others", "--exclude-standard", "--directory", "--", "nested"]
    );
    assert_eq!(untracked_files_command(false, None).args, vec!["ls-files", "--others", "--exclude-standard"]);
    assert_eq!(listed_files("a\nb/c\n", None), vec!["a", "b/c"]);
    assert_eq!(listed_files("a\nb/c\n", Some(".")), vec!["a", "b/c"]);
    assert_eq!(listed_files("a\nb/c\nb/d/e\n", Some("b/")), vec!["c", "d/e"]);
}

#[test]
fn global_excludes_file() {
    assert_eq!(excludes_file(true, Some("/home/u/global-ignore\n".to_string())).unwrap(), "/home/u/global-ignore");
    assert!(matches!(excludes_file(false, None), Err(gitu::error::Error::GitignoreConfigUnset)));
    assert!(matches!(excludes_file(true, Some("  \n".to_string())), Err(gitu::error::Error::GitignoreConfigUnset)));
    assert!(matches!(excludes_file(true, None), Err(gitu::error::Error::GitignoreConfigUtf8)));
}

#[test]
fn current_directory_components_are_ignored() {
    // `.` inside a path is no component, as `Path` reads it.
    assert_eq!(default_pattern(Some("a/./b"), Some("a")).unwrap(), "/b");
    assert_eq!(default_pattern(Some("a/b/./c"), Some("a")).unwrap(), "/b/./c");
    assert_eq!(default_pattern(Some("./a/b"), Some(".")).unwrap(), "/a/b");
    assert!(default_pattern(Some("./a/b"), Some("a")).is_none());
    assert_eq!(default_pattern(Some("a/b/"), Some("")).unwrap(), "/a/b");
    assert_eq!(directory_default(Some("a/./b")), "a");
    assert_eq!(directory_default(Some("./b")), ".");
    assert_eq!(directory_default(Some("/b")), "/");
    assert_eq!(listed_files("a\nb/c\n", Some("./.")), vec!["a", "b/c"]);
    let choices = pattern_choices(&vec!["x/./y.txt".to_string()], &vec![], None, None);
    assert!(choices.contains(&"x/*.txt".to_string()));
}
